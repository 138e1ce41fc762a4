//! Character-level text helpers shared by the report writers.

use vstd::prelude::*;

verus! {

/// Appends one character to a `String` (`String::push`).
#[verifier::external_body]
pub(crate) fn push_char(s: &mut String, c: char)
    ensures
        final(s)@ == old(s)@.push(c),
{
    s.push(c);
}

/// Appends a string slice to a `String` (`String::push_str`).
#[verifier::external_body]
pub(crate) fn push_str(s: &mut String, t: &str)
    ensures
        final(s)@ == old(s)@ + t@,
{
    s.push_str(t);
}

/// Collects the characters of a string slice (`str::chars`, collected).
#[verifier::external_body]
pub(crate) fn chars_of(s: &str) -> (r: Vec<char>)
    ensures
        r@ == s@,
{
    s.chars().collect()
}

/// The decimal digits of a natural number, most significant first, without
/// leading zeros (zero is the single digit `0`).
pub open spec fn decimal(n: nat) -> Seq<char>
    decreases n,
{
    if n < 10 {
        seq![digit_char(n)]
    } else {
        decimal(n / 10).push(digit_char(n % 10))
    }
}

/// The ASCII digit for a value below ten.
pub open spec fn digit_char(d: nat) -> char {
    if d == 0 { '0' } else if d == 1 { '1' } else if d == 2 { '2' } else if d == 3 { '3' }
    else if d == 4 { '4' } else if d == 5 { '5' } else if d == 6 { '6' } else if d == 7 { '7' }
    else if d == 8 { '8' } else { '9' }
}

fn digit(d: u64) -> (c: char)
    requires
        d < 10,
    ensures
        c == digit_char(d as nat),
{
    if d == 0 { '0' } else if d == 1 { '1' } else if d == 2 { '2' } else if d == 3 { '3' }
    else if d == 4 { '4' } else if d == 5 { '5' } else if d == 6 { '6' } else if d == 7 { '7' }
    else if d == 8 { '8' } else { '9' }
}

/// Formats an unsigned integer in decimal, as `u64::to_string` does.
pub fn u64_to_decimal(n: u64) -> (r: String)
    ensures
        r@ == decimal(n as nat),
{
    let mut digits: Vec<char> = Vec::new();
    let mut m = n;
    // digits are produced least significant first
    while m >= 10
        invariant
            decimal(n as nat) == decimal(m as nat) + digits@.reverse(),
        decreases m,
    {
        let d = m % 10;
        proof {
            assert(decimal(m as nat) == decimal((m / 10) as nat).push(digit_char((m % 10) as nat)));
        }
        digits.push(digit(d));
        let ghost old_digits = digits@;
        m = m / 10;
        assert(decimal(n as nat) == decimal(m as nat) + digits@.reverse()) by {
            assert(digits@.reverse() =~= seq![digit_char(d as nat)] + old_digits.drop_last().reverse());
        }
    }
    let mut r = String::new();
    push_char(&mut r, digit(m));
    let mut i = digits.len();
    while i > 0
        invariant
            i <= digits.len(),
            decimal(n as nat) == decimal(m as nat) + digits@.reverse(),
            r@ == decimal(m as nat) + digits@.subrange(i as int, digits.len() as int).reverse(),
        decreases i,
    {
        i = i - 1;
        push_char(&mut r, digits[i]);
        assert(digits@.subrange(i as int, digits.len() as int).reverse() =~=
            digits@.subrange(i + 1, digits.len() as int).reverse().push(digits@[i as int]));
    }
    assert(digits@.subrange(0, digits.len() as int) =~= digits@);
    r
}

/// The parts joined with `sep` between neighbours.
pub open spec fn join(parts: Seq<Seq<char>>, sep: Seq<char>) -> Seq<char>
    decreases parts.len(),
{
    if parts.len() == 0 {
        Seq::empty()
    } else if parts.len() == 1 {
        parts[0]
    } else {
        join(parts.drop_last(), sep) + sep + parts.last()
    }
}

/// Joining one more part appends the separator and the part.
pub proof fn lemma_join_push(parts: Seq<Seq<char>>, sep: Seq<char>, p: Seq<char>)
    ensures
        parts.len() == 0 ==> join(parts.push(p), sep) == p,
        parts.len() > 0 ==> join(parts.push(p), sep) == join(parts, sep) + sep + p,
{
    assert(parts.push(p).drop_last() =~= parts);
}

/// Whether `needle` occurs in `hay` starting at `i`.
pub open spec fn occurs_at(hay: Seq<char>, needle: Seq<char>, i: int) -> bool {
    0 <= i && i + needle.len() <= hay.len() && hay.subrange(i, i + needle.len()) == needle
}

/// Whether `needle` occurs somewhere in `hay` (`str::contains`).
pub open spec fn contains_seq(hay: Seq<char>, needle: Seq<char>) -> bool {
    exists|i: int| occurs_at(hay, needle, i)
}

/// Whether `needle` occurs in `hay`.
pub fn contains_chars(hay: &[char], needle: &[char]) -> (r: bool)
    ensures
        r == contains_seq(hay@, needle@),
{
    let n = needle.len();
    let hay_len = hay.len();
    assert(hay@.len() <= usize::MAX);
    if n > hay_len {
        proof {
            assert forall|i: int| !occurs_at(hay@, needle@, i) by {}
        }
        return false;
    }
    let last = hay.len() - n;
    let mut i: usize = 0;
    while i <= last
        invariant
            n == needle@.len(),
            last + n == hay@.len(),
            hay@.len() <= usize::MAX,
            forall|k: int| 0 <= k < i ==> !#[trigger] occurs_at(hay@, needle@, k),
        decreases last + 1 - i,
    {
        let mut j: usize = 0;
        while j < n && hay[i + j] == needle[j]
            invariant
                i <= last,
                n == needle@.len(),
                last + n == hay@.len(),
                hay@.len() <= usize::MAX,
                j <= n,
                forall|k: int| 0 <= k < j ==> hay@[i + k] == needle@[k],
            decreases n - j,
        {
            j = j + 1;
        }
        if j == n {
            assert(hay@.subrange(i as int, i + n) =~= needle@);
            assert(occurs_at(hay@, needle@, i as int));
            return true;
        }
        assert(hay@.subrange(i as int, i + n)[j as int] != needle@[j as int]);
        i = i + 1;
    }
    proof {
        assert forall|k: int| !occurs_at(hay@, needle@, k) by {
            if 0 <= k <= last {
            }
        }
    }
    false
}

/// Whether `needle` occurs in `hay` (`str::contains`).
pub fn contains_text(hay: &str, needle: &str) -> (r: bool)
    ensures
        r == contains_seq(hay@, needle@),
{
    let h = chars_of(hay);
    let n = chars_of(needle);
    contains_chars(h.as_slice(), n.as_slice())
}

/// Whether `c` has the Unicode `White_Space` property (`char::is_whitespace`).
pub open spec fn is_white_space(c: char) -> bool {
    let u = c as u32;
    ||| 0x9 <= u <= 0xd
    ||| u == 0x20
    ||| u == 0x85
    ||| u == 0xa0
    ||| u == 0x1680
    ||| 0x2000 <= u <= 0x200a
    ||| u == 0x2028
    ||| u == 0x2029
    ||| u == 0x202f
    ||| u == 0x205f
    ||| u == 0x3000
}

/// Whether `c` has the Unicode `White_Space` property.
pub fn white_space(c: char) -> (r: bool)
    ensures
        r == is_white_space(c),
{
    let u = c as u32;
    (0x9 <= u && u <= 0xd) || u == 0x20 || u == 0x85 || u == 0xa0 || u == 0x1680
        || (0x2000 <= u && u <= 0x200a) || u == 0x2028 || u == 0x2029 || u == 0x202f
        || u == 0x205f || u == 0x3000
}

/// `s` without its leading white space.
pub open spec fn trim_start(s: Seq<char>) -> Seq<char>
    decreases s.len(),
{
    if s.len() > 0 && is_white_space(s[0]) {
        trim_start(s.skip(1))
    } else {
        s
    }
}

/// `s` without its trailing white space.
pub open spec fn trim_end(s: Seq<char>) -> Seq<char>
    decreases s.len(),
{
    if s.len() > 0 && is_white_space(s.last()) {
        trim_end(s.drop_last())
    } else {
        s
    }
}

/// `s` without leading and trailing white space (`str::trim`).
pub open spec fn trim(s: Seq<char>) -> Seq<char> {
    trim_end(trim_start(s))
}

/// The characters of `s` without leading and trailing white space.
pub fn trim_chars(s: &[char]) -> (r: Vec<char>)
    ensures
        r@ == trim(s@),
{
    let mut start: usize = 0;
    assert(s@.subrange(0, s@.len() as int) =~= s@);
    while start < s.len() && white_space(s[start])
        invariant
            start <= s@.len(),
            trim_start(s@) == trim_start(s@.subrange(start as int, s@.len() as int)),
        decreases s@.len() - start,
    {
        assert(s@.subrange(start as int, s@.len() as int).skip(1) =~= s@.subrange(start + 1, s@.len() as int));
        start = start + 1;
    }
    let ghost t = s@.subrange(start as int, s@.len() as int);
    assert(trim_start(s@) == t);
    let mut end: usize = s.len();
    while end > start && white_space(s[end - 1])
        invariant
            start <= end <= s@.len(),
            trim_end(t) == trim_end(s@.subrange(start as int, end as int)),
        decreases end,
    {
        assert(s@.subrange(start as int, end as int).drop_last() =~= s@.subrange(start as int, end - 1));
        end = end - 1;
    }
    let mut r: Vec<char> = Vec::new();
    let mut i: usize = start;
    while i < end
        invariant
            start <= i <= end,
            end <= s@.len(),
            r@ == s@.subrange(start as int, i as int),
        decreases end - i,
    {
        r.push(s[i]);
        assert(r@ =~= s@.subrange(start as int, i + 1));
        i = i + 1;
    }
    r
}

/// What `str::to_lowercase` gives for `s` (the Unicode lowercase mapping,
/// which depends on the text alone).
pub uninterp spec fn unicode_lowercase(s: Seq<char>) -> Seq<char>;

/// Lowercases `s` with `str::to_lowercase`; the result is named by
/// `unicode_lowercase`.
#[verifier::external_body]
pub(crate) fn to_lowercase(s: &str) -> (r: String)
    ensures
        r@ == unicode_lowercase(s@),
{
    s.to_lowercase()
}

/// The pieces of `s` between occurrences of `sep`, as `str::split` yields
/// them: `k` separators give `k + 1` pieces, some of them possibly empty.
pub open spec fn split_on(s: Seq<char>, sep: char) -> Seq<Seq<char>>
    decreases s.len(),
{
    if s.len() == 0 {
        seq![Seq::<char>::empty()]
    } else {
        let prev = split_on(s.drop_last(), sep);
        if s.last() == sep {
            prev.push(Seq::<char>::empty())
        } else {
            prev.update(prev.len() - 1, prev.last().push(s.last()))
        }
    }
}

pub proof fn lemma_split_on_nonempty(s: Seq<char>, sep: char)
    ensures
        split_on(s, sep).len() >= 1,
    decreases s.len(),
{
    if s.len() > 0 {
        lemma_split_on_nonempty(s.drop_last(), sep);
    }
}

/// Splits characters at each `sep`, as `str::split` does.
pub fn split_chars(c: &[char], sep: char) -> (r: Vec<Vec<char>>)
    ensures
        r@.len() == split_on(c@, sep).len(),
        forall|k: int| 0 <= k < r@.len() ==> #[trigger] r@[k]@ == split_on(c@, sep)[k],
{
    let mut pieces: Vec<Vec<char>> = Vec::new();
    let mut current: Vec<char> = Vec::new();
    let mut i: usize = 0;
    assert(c@.subrange(0, 0) =~= Seq::<char>::empty());
    while i < c.len()
        invariant
            i <= c@.len(),
            split_on(c@.subrange(0, i as int), sep).len() == pieces@.len() + 1,
            forall|k: int| 0 <= k < pieces@.len() ==>
                #[trigger] pieces@[k]@ == split_on(c@.subrange(0, i as int), sep)[k],
            current@ == split_on(c@.subrange(0, i as int), sep).last(),
        decreases c@.len() - i,
    {
        let ghost before = c@.subrange(0, i as int);
        let ghost after = c@.subrange(0, i + 1);
        assert(after.drop_last() =~= before);
        proof { lemma_split_on_nonempty(before, sep); }
        if c[i] == sep {
            pieces.push(current);
            current = Vec::new();
        } else {
            current.push(c[i]);
        }
        i = i + 1;
    }
    pieces.push(current);
    assert(c@.subrange(0, c@.len() as int) =~= c@);
    pieces
}

/// The pieces that `split_on` yields hold no separator.
pub proof fn lemma_split_on_no_sep(s: Seq<char>, sep: char, i: int)
    requires
        0 <= i < split_on(s, sep).len(),
    ensures
        !split_on(s, sep)[i].contains(sep),
    decreases s.len(),
{
    if s.len() > 0 {
        let prev = split_on(s.drop_last(), sep);
        lemma_split_on_nonempty(s.drop_last(), sep);
        if s.last() == sep {
            if i < prev.len() {
                lemma_split_on_no_sep(s.drop_last(), sep, i);
            } else {
                assert(split_on(s, sep)[i] == Seq::<char>::empty());
            }
        } else if i == prev.len() - 1 {
            lemma_split_on_no_sep(s.drop_last(), sep, i);
            let w = prev.last().push(s.last());
            assert(split_on(s, sep)[i] == w);
            if w.contains(sep) {
                let k = choose|k: int| 0 <= k < w.len() && w[k] == sep;
                if k < prev.last().len() {
                    assert(prev.last()[k] == sep);
                    assert(prev[i].contains(sep));
                }
            }
        } else {
            lemma_split_on_no_sep(s.drop_last(), sep, i);
            assert(split_on(s, sep)[i] == prev[i]);
        }
    }
}

/// Every character of the trimmed text is a character of the text.
pub proof fn lemma_trim_within(s: Seq<char>)
    ensures
        forall|k: int| 0 <= k < trim(s).len() ==> s.contains(#[trigger] trim(s)[k]),
{
    lemma_trim_start_within(s);
    lemma_trim_end_within(trim_start(s));
    assert forall|k: int| 0 <= k < trim(s).len() implies s.contains(#[trigger] trim(s)[k]) by {
        assert(trim_start(s).contains(trim(s)[k]));
        let m = choose|m: int| 0 <= m < trim_start(s).len() && trim_start(s)[m] == trim(s)[k];
        assert(s.contains(trim_start(s)[m]));
    }
}

proof fn lemma_trim_start_within(s: Seq<char>)
    ensures
        forall|k: int| 0 <= k < trim_start(s).len() ==> s.contains(#[trigger] trim_start(s)[k]),
    decreases s.len(),
{
    if s.len() > 0 && is_white_space(s[0]) {
        lemma_trim_start_within(s.skip(1));
        assert(trim_start(s) == trim_start(s.skip(1)));
        assert forall|k: int| 0 <= k < trim_start(s).len() implies s.contains(#[trigger] trim_start(s)[k]) by {
            assert(s.skip(1).contains(trim_start(s)[k]));
            let j = choose|j: int| 0 <= j < s.skip(1).len() && s.skip(1)[j] == trim_start(s)[k];
            assert(s[j + 1] == s.skip(1)[j]);
        }
    } else {
        assert forall|k: int| 0 <= k < trim_start(s).len() implies s.contains(#[trigger] trim_start(s)[k]) by {
            assert(s[k] == trim_start(s)[k]);
        }
    }
}

proof fn lemma_trim_end_within(s: Seq<char>)
    ensures
        forall|k: int| 0 <= k < trim_end(s).len() ==> s.contains(#[trigger] trim_end(s)[k]),
    decreases s.len(),
{
    if s.len() > 0 && is_white_space(s.last()) {
        lemma_trim_end_within(s.drop_last());
        assert(trim_end(s) == trim_end(s.drop_last()));
        assert forall|k: int| 0 <= k < trim_end(s).len() implies s.contains(#[trigger] trim_end(s)[k]) by {
            assert(s.drop_last().contains(trim_end(s)[k]));
            let j = choose|j: int| 0 <= j < s.drop_last().len() && s.drop_last()[j] == trim_end(s)[k];
            assert(s[j] == s.drop_last()[j]);
        }
    } else {
        assert forall|k: int| 0 <= k < trim_end(s).len() implies s.contains(#[trigger] trim_end(s)[k]) by {
            assert(s[k] == trim_end(s)[k]);
        }
    }
}

} // verus!
