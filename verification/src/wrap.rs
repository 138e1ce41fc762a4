//! Word wrapping for the console report.

use crate::codec::starts_with;
use crate::row_writer::utf8;
use crate::text::{is_white_space, push_char, push_str, white_space, chars_of};
use vstd::prelude::*;

verus! {

/// The words of `s`: its maximal runs of characters without white space
/// (`str::split_whitespace`).
pub open spec fn words(s: Seq<char>) -> Seq<Seq<char>>
    decreases s.len(),
{
    if s.len() == 0 {
        Seq::empty()
    } else {
        let prev = words(s.drop_last());
        let c = s.last();
        if is_white_space(c) {
            prev
        } else if s.len() > 1 && !is_white_space(s[s.len() - 2]) {
            prev.update(prev.len() - 1, prev.last().push(c))
        } else {
            prev.push(seq![c])
        }
    }
}

/// The width of text on the console, counted as `str::len` does (bytes).
pub open spec fn width_of(s: Seq<char>) -> int {
    utf8(s).len() as int
}

/// `n` spaces.
pub open spec fn spaces(n: nat) -> Seq<char> {
    Seq::new(n, |i: int| ' ')
}

/// The state of the wrapping after some words: the finished lines, the line
/// being filled, and whether that line is the first.
pub struct WrapState {
    pub lines: Seq<Seq<char>>,
    pub current: Seq<char>,
    pub first: bool,
}

/// A finished line: continuation lines are indented.
pub open spec fn finished_line(st: WrapState, indent: nat) -> Seq<char> {
    if st.first {
        st.current
    } else {
        spaces(indent) + st.current
    }
}

/// Places one word: on the current line when it fits within `width` (with
/// a space before it when the line is not empty), else on a new line.
pub open spec fn place_word(st: WrapState, word: Seq<char>, width: nat, indent: nat) -> WrapState {
    let sep: int = if st.current.len() > 0 { 1 } else { 0 };
    let line_width = if st.first { width_of(st.current) } else { indent + width_of(st.current) };
    if st.current.len() > 0 && line_width + sep + width_of(word) > width {
        WrapState { lines: st.lines.push(finished_line(st, indent)), current: word, first: false }
    } else if st.current.len() > 0 {
        WrapState { lines: st.lines, current: st.current + seq![' '] + word, first: st.first }
    } else {
        WrapState { lines: st.lines, current: word, first: st.first }
    }
}

/// The state after placing the first `n` words.
pub open spec fn wrap_state(ws: Seq<Seq<char>>, n: int, width: nat, indent: nat) -> WrapState
    decreases n,
{
    if n <= 0 {
        WrapState { lines: Seq::empty(), current: Seq::empty(), first: true }
    } else {
        place_word(wrap_state(ws, n - 1, width, indent), ws[n - 1], width, indent)
    }
}

/// The lines of `text` wrapped at `width` bytes, continuation lines indented
/// by `indent` spaces; the text unchanged on one line when `width` leaves no
/// room beyond the indent; a single empty line when there are no words.
pub open spec fn wrapped(text: Seq<char>, width: nat, indent: nat) -> Seq<Seq<char>> {
    if width <= indent {
        seq![text]
    } else {
        let ws = words(text);
        let st = wrap_state(ws, ws.len() as int, width, indent);
        let lines = if st.current.len() > 0 { st.lines.push(finished_line(st, indent)) } else { st.lines };
        if lines.len() == 0 {
            seq![Seq::<char>::empty()]
        } else {
            lines
        }
    }
}

/// The words of a text, as strings.
fn split_words(text: &str) -> (r: Vec<String>)
    ensures
        r@.len() == words(text@).len(),
        forall|k: int| 0 <= k < r@.len() ==> #[trigger] r@[k]@ == words(text@)[k],
{
    let c = chars_of(text);
    let mut out: Vec<String> = Vec::new();
    let mut cur = String::new();
    let mut i: usize = 0;
    while i < c.len()
        invariant
            i <= c@.len(),
            c@ == text@,
            cur@.len() > 0 <==> (i > 0 && !is_white_space(c@[i - 1])),
            cur@.len() > 0 ==> out@.len() + 1 == words(c@.take(i as int)).len()
                && cur@ == words(c@.take(i as int)).last(),
            cur@.len() == 0 ==> out@.len() == words(c@.take(i as int)).len(),
            forall|k: int| 0 <= k < out@.len() ==> #[trigger] out@[k]@ == words(c@.take(i as int))[k],
        decreases c@.len() - i,
    {
        let ghost prefix = c@.take(i as int);
        let ghost next = c@.take(i + 1);
        assert(next.drop_last() =~= prefix);
        assert(next.last() == c@[i as int]);
        if i > 0 {
            assert(next[next.len() - 2] == c@[i - 1]);
        }
        let ch = c[i];
        if white_space(ch) {
            if !cur.as_str().is_empty() {
                out.push(cur);
                cur = String::new();
            }
        } else {
            push_char(&mut cur, ch);
        }
        proof {
            if !is_white_space(ch) && i > 0 && !is_white_space(c@[i - 1]) {
                assert(cur@ =~= words(next).last());
            }
        }
        i = i + 1;
    }
    if !cur.as_str().is_empty() {
        out.push(cur);
    }
    assert(c@.take(c@.len() as int) =~= c@);
    out
}

/// `n` spaces followed by `s`.
fn indented(s: &String, n: usize) -> (r: String)
    ensures
        r@ == spaces(n as nat) + s@,
{
    let mut r = String::new();
    let mut i: usize = 0;
    while i < n
        invariant
            i <= n,
            r@ == spaces(i as nat),
        decreases n - i,
    {
        push_char(&mut r, ' ');
        assert(r@ =~= spaces((i + 1) as nat));
        i = i + 1;
    }
    push_str(&mut r, s.as_str());
    r
}

/// Wraps `text` into lines of at most `width` bytes where the words allow
/// it; continuation lines are indented by `indent` spaces.
pub fn wrap_text(text: &str, width: usize, indent: usize) -> (r: Vec<String>)
    ensures
        r@.len() == wrapped(text@, width as nat, indent as nat).len(),
        forall|k: int| 0 <= k < r@.len() ==> #[trigger] r@[k]@ == wrapped(text@, width as nat, indent as nat)[k],
{
    if width <= indent {
        let mut single: Vec<String> = Vec::new();
        single.push(text.to_owned());
        return single;
    }
    let ws = split_words(text);
    let ghost wsv = words(text@);
    let mut lines: Vec<String> = Vec::new();
    let mut current = String::new();
    let mut is_first_line = true;
    let mut i: usize = 0;
    while i < ws.len()
        invariant
            i <= ws@.len(),
            ws@.len() == wsv.len(),
            wsv == words(text@),
            forall|k: int| 0 <= k < ws@.len() ==> #[trigger] ws@[k]@ == wsv[k],
            indent < width,
            ({
                let st = wrap_state(wsv, i as int, width as nat, indent as nat);
                &&& lines@.len() == st.lines.len()
                &&& forall|k: int| 0 <= k < lines@.len() ==> #[trigger] lines@[k]@ == st.lines[k]
                &&& current@ == st.current
                &&& is_first_line == st.first
            }),
        decreases ws@.len() - i,
    {
        let ghost st = wrap_state(wsv, i as int, width as nat, indent as nat);
        let word = &ws[i];
        let word_len = word.as_str().as_bytes().len();
        let current_len = current.as_str().as_bytes().len();
        let has_text = !current.as_str().is_empty();
        let separator_len: u128 = if has_text { 1 } else { 0 };
        let line_width: u128 = if is_first_line { current_len as u128 } else { indent as u128 + current_len as u128 };
        if has_text && line_width + separator_len + word_len as u128 > width as u128 {
            if is_first_line {
                lines.push(current);
                is_first_line = false;
            } else {
                let line = indented(&current, indent);
                lines.push(line);
            }
            current = word.clone();
        } else {
            if has_text {
                push_char(&mut current, ' ');
            }
            push_str(&mut current, word.as_str());
        }
        proof {
            let next = wrap_state(wsv, i + 1, width as nat, indent as nat);
            assert(next == place_word(st, wsv[i as int], width as nat, indent as nat));
            assert(current@ =~= next.current);
        }
        i = i + 1;
    }
    let ghost st = wrap_state(wsv, wsv.len() as int, width as nat, indent as nat);
    if !current.as_str().is_empty() {
        if is_first_line {
            lines.push(current);
        } else {
            let line = indented(&current, indent);
            lines.push(line);
        }
    }
    if lines.len() == 0 {
        lines.push(String::new());
    }
    lines
}

/// Words are not empty and hold no white space.
pub open spec fn proper_words(ws: Seq<Seq<char>>) -> bool {
    forall|i: int| 0 <= i < ws.len() ==> (#[trigger] ws[i]).len() > 0
        && forall|j: int| 0 <= j < ws[i].len() ==> !is_white_space(#[trigger] ws[i][j])
}

/// The words of a text are proper.
proof fn lemma_words_proper(s: Seq<char>)
    ensures
        proper_words(words(s)),
        s.len() > 0 && !is_white_space(s.last()) ==> words(s).len() > 0,
    decreases s.len(),
{
    if s.len() > 0 {
        lemma_words_proper(s.drop_last());
        if s.len() > 1 {
            assert(s.drop_last().last() == s[s.len() - 2]);
        }
        let prev = words(s.drop_last());
        let c = s.last();
        if !is_white_space(c) {
            if s.len() > 1 && !is_white_space(s[s.len() - 2]) {
                if prev.len() > 0 {
                    let w = prev.last().push(c);
                    assert forall|i: int| 0 <= i < words(s).len() implies (#[trigger] words(s)[i]).len() > 0
                        && forall|j: int| 0 <= j < words(s)[i].len() ==> !is_white_space(#[trigger] words(s)[i][j]) by {
                        if i == prev.len() - 1 {
                            assert(words(s)[i] == w);
                            assert forall|j: int| 0 <= j < w.len() implies !is_white_space(#[trigger] w[j]) by {
                                if j < prev.last().len() {
                                    assert(w[j] == prev[prev.len() - 1][j]);
                                }
                            }
                        } else {
                            assert(words(s)[i] == prev[i]);
                        }
                    }
                }
            } else {
                assert forall|i: int| 0 <= i < words(s).len() implies (#[trigger] words(s)[i]).len() > 0
                    && forall|j: int| 0 <= j < words(s)[i].len() ==> !is_white_space(#[trigger] words(s)[i][j]) by {
                    if i < prev.len() {
                        assert(words(s)[i] == prev[i]);
                    } else {
                        assert(words(s)[i] == seq![c]);
                    }
                }
            }
        }
    }
}

/// The shape of the lines placed so far: there are finished lines exactly
/// when the first line is finished; the lines after the first are indented;
/// lines and the line being filled start with a word.
proof fn lemma_wrap_state_shape(ws: Seq<Seq<char>>, n: int, width: nat, indent: nat)
    requires
        0 <= n <= ws.len(),
        proper_words(ws),
    ensures
        ({
            let st = wrap_state(ws, n, width, indent);
            &&& st.first <==> st.lines.len() == 0
            &&& forall|k: int| 1 <= k < st.lines.len() ==> starts_with(#[trigger] st.lines[k], spaces(indent))
            &&& st.lines.len() > 0 ==> st.lines[0].len() > 0 && !is_white_space(st.lines[0][0])
            &&& st.current.len() > 0 ==> !is_white_space(st.current[0])
            &&& n > 0 ==> st.current.len() > 0
        }),
    decreases n,
{
    if n > 0 {
        lemma_wrap_state_shape(ws, n - 1, width, indent);
        let prev = wrap_state(ws, n - 1, width, indent);
        let st = wrap_state(ws, n, width, indent);
        let w = ws[n - 1];
        assert(w.len() > 0 && !is_white_space(w[0]));
        assert(st == place_word(prev, w, width, indent));
        if prev.current.len() > 0 && st.lines.len() > prev.lines.len() {
            let line = finished_line(prev, indent);
            assert(st.lines == prev.lines.push(line));
            assert forall|k: int| 1 <= k < st.lines.len() implies starts_with(#[trigger] st.lines[k], spaces(indent)) by {
                if k < prev.lines.len() {
                    assert(st.lines[k] == prev.lines[k]);
                } else {
                    assert(!prev.first);
                    assert((spaces(indent) + prev.current).subrange(0, spaces(indent).len() as int) =~= spaces(indent));
                }
            }
            if prev.lines.len() > 0 {
                assert(st.lines[0] == prev.lines[0]);
            } else {
                assert(prev.first);
                assert(st.lines[0] == prev.current);
            }
        } else if prev.current.len() > 0 {
            assert((prev.current + seq![' '] + w)[0] == prev.current[0]);
        }
    }
}

/// Wrapping with room beyond the indent indents every line after the
/// first, and the first line does not start with white space.
pub proof fn lemma_wrapped_indented(text: Seq<char>, width: nat, indent: nat)
    requires
        width > indent,
    ensures
        forall|k: int| 1 <= k < wrapped(text, width, indent).len()
            ==> starts_with(#[trigger] wrapped(text, width, indent)[k], spaces(indent)),
        wrapped(text, width, indent)[0].len() == 0 || !is_white_space(wrapped(text, width, indent)[0][0]),
{
    let ws = words(text);
    lemma_words_proper(text);
    lemma_wrap_state_shape(ws, ws.len() as int, width, indent);
    let st = wrap_state(ws, ws.len() as int, width, indent);
    if st.current.len() > 0 {
        let lines = st.lines.push(finished_line(st, indent));
        assert forall|k: int| 1 <= k < lines.len() implies starts_with(#[trigger] lines[k], spaces(indent)) by {
            if k < st.lines.len() {
                assert(lines[k] == st.lines[k]);
            } else {
                assert(!st.first);
                assert((spaces(indent) + st.current).subrange(0, spaces(indent).len() as int) =~= spaces(indent));
            }
        }
        if st.lines.len() == 0 {
            assert(lines[0] == st.current);
        } else {
            assert(lines[0] == st.lines[0]);
        }
    }
}

/// No character of `s` is white space.
pub open spec fn no_white_space(s: Seq<char>) -> bool {
    forall|j: int| 0 <= j < s.len() ==> !is_white_space(#[trigger] s[j])
}

/// The `k`-th wrapped line fits within `width` bytes, or it holds a single
/// word (after its indent, for the lines after the first) that is too long
/// to fit anywhere.
pub open spec fn line_fits(line: Seq<char>, k: int, width: nat, indent: nat) -> bool {
    let body = if k == 0 { line } else { line.subrange(indent as int, line.len() as int) };
    width_of(line) <= width || no_white_space(body)
}

/// The width the line being filled takes, with its indent.
pub open spec fn current_width(st: WrapState, indent: nat) -> int {
    (if st.first { 0 } else { indent as int }) + width_of(st.current)
}

/// The bytes of two texts one after the other are the bytes of each.
proof fn lemma_utf8_concat(a: Seq<char>, b: Seq<char>)
    ensures
        utf8(a + b) == utf8(a) + utf8(b),
    decreases a.len(),
{
    if a.len() == 0 {
        assert(a + b =~= b);
        assert(utf8(a) =~= Seq::<u8>::empty());
        assert(utf8(a) + utf8(b) =~= utf8(b));
    } else {
        lemma_utf8_concat(a.drop_first(), b);
        assert((a + b).drop_first() =~= a.drop_first() + b);
        assert((a + b)[0] == a[0]);
        assert(utf8(a + b) =~= utf8(a) + utf8(b));
    }
}

/// Spaces take one byte each.
proof fn lemma_width_of_spaces(n: nat)
    ensures
        width_of(spaces(n)) == n,
    decreases n,
{
    if n == 0 {
        assert(spaces(0) =~= Seq::<char>::empty());
    } else {
        lemma_width_of_spaces((n - 1) as nat);
        let s = spaces(n);
        assert(s[0] == ' ');
        assert(s.drop_first() =~= spaces((n - 1) as nat));
    }
}

/// A finished line fits, or holds a single word, when the line being filled
/// did.
proof fn lemma_finish_fits(st: WrapState, width: nat, indent: nat)
    requires
        st.first <==> st.lines.len() == 0,
        current_width(st, indent) <= width || no_white_space(st.current),
    ensures
        line_fits(finished_line(st, indent), st.lines.len() as int, width, indent),
{
    if !st.first {
        let line = spaces(indent) + st.current;
        lemma_utf8_concat(spaces(indent), st.current);
        lemma_width_of_spaces(indent);
        assert(line.subrange(indent as int, line.len() as int) =~= st.current);
    }
}

/// Every line placed so far fits or holds a single word, and so does the
/// line being filled.
proof fn lemma_wrap_state_fits(ws: Seq<Seq<char>>, n: int, width: nat, indent: nat)
    requires
        0 <= n <= ws.len(),
        proper_words(ws),
    ensures
        ({
            let st = wrap_state(ws, n, width, indent);
            &&& forall|k: int| 0 <= k < st.lines.len() ==> line_fits(#[trigger] st.lines[k], k, width, indent)
            &&& current_width(st, indent) <= width || no_white_space(st.current)
        }),
    decreases n,
{
    if n == 0 {
        assert(utf8(Seq::<char>::empty()) =~= Seq::<u8>::empty());
    } else {
        lemma_wrap_state_fits(ws, n - 1, width, indent);
        lemma_wrap_state_shape(ws, n - 1, width, indent);
        let prev = wrap_state(ws, n - 1, width, indent);
        let st = wrap_state(ws, n, width, indent);
        let w = ws[n - 1];
        assert(st == place_word(prev, w, width, indent));
        assert(no_white_space(w));
        let sep: int = if prev.current.len() > 0 { 1 } else { 0 };
        if prev.current.len() > 0 && current_width(prev, indent) + sep + width_of(w) > width {
            lemma_finish_fits(prev, width, indent);
            assert forall|k: int| 0 <= k < st.lines.len() implies line_fits(#[trigger] st.lines[k], k, width, indent) by {
                if k < prev.lines.len() {
                    assert(st.lines[k] == prev.lines[k]);
                }
            }
        } else if prev.current.len() > 0 {
            lemma_utf8_concat(prev.current + seq![' '], w);
            lemma_utf8_concat(prev.current, seq![' ']);
            lemma_width_of_spaces(1);
            assert(spaces(1) =~= seq![' ']);
        }
    }
}

/// Wrapping with room beyond the indent gives lines that fit within the
/// width, except a line that holds one word too long to fit.
pub proof fn lemma_wrapped_fits(text: Seq<char>, width: nat, indent: nat)
    requires
        width > indent,
    ensures
        forall|k: int| 0 <= k < wrapped(text, width, indent).len()
            ==> line_fits(#[trigger] wrapped(text, width, indent)[k], k, width, indent),
{
    let ws = words(text);
    lemma_words_proper(text);
    lemma_wrap_state_shape(ws, ws.len() as int, width, indent);
    lemma_wrap_state_fits(ws, ws.len() as int, width, indent);
    let st = wrap_state(ws, ws.len() as int, width, indent);
    if st.current.len() > 0 {
        lemma_finish_fits(st, width, indent);
        let lines = st.lines.push(finished_line(st, indent));
        assert forall|k: int| 0 <= k < lines.len() implies line_fits(#[trigger] lines[k], k, width, indent) by {
            if k < st.lines.len() {
                assert(lines[k] == st.lines[k]);
            }
        }
    } else if st.lines.len() == 0 {
        assert(utf8(Seq::<char>::empty()) =~= Seq::<u8>::empty());
        assert(line_fits(Seq::<char>::empty(), 0, width, indent));
    }
}

} // verus!
