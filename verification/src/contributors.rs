//! Counting a repository's contributors from the author e-mails that
//! `git log --format=%ae` prints, one per line.

use crate::text::{chars_of, split_chars, split_on};
use vstd::prelude::*;

verus! {

/// A line without the `\r` of a `\r\n` ending.
pub open spec fn strip_cr(l: Seq<char>) -> Seq<char> {
    if l.len() > 0 && l.last() == '\r' { l.drop_last() } else { l }
}

/// The lines of a text as `str::lines` gives them: the text split at each
/// `\n`, with the `\r` of a `\r\n` ending dropped; a last empty line (after a
/// final line ending, or of an empty text) is not a line.
pub open spec fn text_lines(s: Seq<char>) -> Seq<Seq<char>> {
    let pieces = split_on(s, '\n');
    pieces.drop_last().map_values(|l: Seq<char>| strip_cr(l))
        + (if pieces.last().len() > 0 { seq![pieces.last()] } else { Seq::empty() })
}

/// Whether two character vectors are equal.
fn same_chars(a: &Vec<char>, b: &Vec<char>) -> (r: bool)
    ensures
        r == (a@ == b@),
{
    if a.len() != b.len() {
        return false;
    }
    let mut i: usize = 0;
    while i < a.len()
        invariant
            i <= a@.len(),
            a@.len() == b@.len(),
            forall|k: int| 0 <= k < i ==> a@[k] == b@[k],
        decreases a@.len() - i,
    {
        if a[i] != b[i] {
            return false;
        }
        i = i + 1;
    }
    assert(a@ =~= b@);
    true
}

/// A piece followed by `\n`, without the `\r` before it.
fn strip_cr_chars(l: &Vec<char>) -> (r: Vec<char>)
    ensures
        r@ == strip_cr(l@),
{
    let mut r: Vec<char> = Vec::new();
    let n: usize = if l.len() > 0 && l[l.len() - 1] == '\r' { l.len() - 1 } else { l.len() };
    let mut i: usize = 0;
    while i < n
        invariant
            i <= n,
            n <= l@.len(),
            r@ == l@.take(i as int),
        decreases n - i,
    {
        r.push(l[i]);
        assert(l@.take(i + 1) =~= l@.take(i as int).push(l@[i as int]));
        i = i + 1;
    }
    assert(l@.take(n as int) =~= strip_cr(l@));
    r
}

/// The lines of a text (see `text_lines`).
fn lines_of(text: &str) -> (r: Vec<Vec<char>>)
    ensures
        r@.len() == text_lines(text@).len(),
        forall|k: int| 0 <= k < r@.len() ==> #[trigger] r@[k]@ == text_lines(text@)[k],
{
    let c = chars_of(text);
    let pieces = split_chars(c.as_slice(), '\n');
    let ghost ps = split_on(text@, '\n');
    proof { crate::text::lemma_split_on_nonempty(text@, '\n'); }
    let n = pieces.len() - 1;
    let mut r: Vec<Vec<char>> = Vec::new();
    let mut i: usize = 0;
    while i < n
        invariant
            i <= n,
            n + 1 == pieces@.len(),
            pieces@.len() == ps.len(),
            forall|k: int| 0 <= k < pieces@.len() ==> #[trigger] pieces@[k]@ == ps[k],
            r@.len() == i,
            forall|k: int| 0 <= k < i ==> #[trigger] r@[k]@ == strip_cr(ps[k]),
        decreases n - i,
    {
        r.push(strip_cr_chars(&pieces[i]));
        i = i + 1;
    }
    let lp = &pieces[n];
    if lp.len() > 0 {
        let mut last: Vec<char> = Vec::new();
        let mut j: usize = 0;
        while j < lp.len()
            invariant
                j <= lp@.len(),
                last@ == lp@.take(j as int),
            decreases lp@.len() - j,
        {
            last.push(lp[j]);
            assert(lp@.take(j + 1) =~= lp@.take(j as int).push(lp@[j as int]));
            j = j + 1;
        }
        assert(lp@.take(lp@.len() as int) =~= lp@);
        r.push(last);
    }
    proof {
        let want = text_lines(text@);
        assert(ps.last() == ps[n as int]);
        assert forall|k: int| 0 <= k < r@.len() implies #[trigger] r@[k]@ == want[k] by {
            if k < n {
                assert(want[k] == ps.drop_last().map_values(|l: Seq<char>| strip_cr(l))[k]);
            }
        }
    }
    r
}

/// The number of contributors in the output of `git log --format=%ae`:
/// the number of different lines (`str::lines`) it holds.
pub fn count_contributors_in_log(log: &str) -> (r: u64)
    ensures
        r == text_lines(log@).to_set().len(),
{
    let lines = lines_of(log);
    let ghost ls = text_lines(log@);
    let mut unique: Vec<Vec<char>> = Vec::new();
    let mut i: usize = 0;
    while i < lines.len()
        invariant
            i <= lines@.len(),
            lines@.len() == ls.len(),
            forall|k: int| 0 <= k < lines@.len() ==> #[trigger] lines@[k]@ == ls[k],
            unique@.map_values(|u: Vec<char>| u@).no_duplicates(),
            unique@.map_values(|u: Vec<char>| u@).to_set() == ls.take(i as int).to_set(),
            unique@.len() <= i,
        decreases lines@.len() - i,
    {
        let ghost before = unique@.map_values(|u: Vec<char>| u@);
        let mut found = false;
        let mut j: usize = 0;
        while j < unique.len()
            invariant
                j <= unique@.len(),
                !found ==> forall|k: int| 0 <= k < j ==> unique@[k]@ != lines@[i as int]@,
                found ==> exists|k: int| 0 <= k < unique@.len() && unique@[k]@ == lines@[i as int]@,
                i < lines@.len(),
            decreases unique@.len() - j,
        {
            if same_chars(&unique[j], &lines[i]) {
                found = true;
            }
            j = j + 1;
        }
        proof {
            assert(ls.take(i + 1) =~= ls.take(i as int).push(ls[i as int]));
            assert(lines@[i as int]@ == ls[i as int]);
        }
        if !found {
            unique.push(lines[i].clone());
            proof {
                let after = unique@.map_values(|u: Vec<char>| u@);
                assert(after =~= before.push(ls[i as int]));
                assert(!before.contains(ls[i as int])) by {
                    if before.contains(ls[i as int]) {
                        let k = choose|k: int| 0 <= k < before.len() && before[k] == ls[i as int];
                        assert(unique@[k]@ == before[k]);
                    }
                }
                before.lemma_push_to_set_commute(ls[i as int]);
                ls.take(i as int).lemma_push_to_set_commute(ls[i as int]);
            }
        } else {
            proof {
                let k = choose|k: int| 0 <= k < unique@.len() && unique@[k]@ == lines@[i as int]@;
                assert(before[k] == ls[i as int]);
                assert(before.to_set().contains(ls[i as int]));
                ls.take(i as int).lemma_push_to_set_commute(ls[i as int]);
                assert(ls.take(i + 1).to_set() =~= ls.take(i as int).to_set());
            }
        }
        i = i + 1;
    }
    proof {
        assert(ls.take(lines@.len() as int) =~= ls);
        unique@.map_values(|u: Vec<char>| u@).unique_seq_to_set();
    }
    unique.len() as u64
}

} // verus!
