//! Text rules shared by the report writers: how values, risks, keyword lists
//! and URLs are shown, and how text is escaped for CSV and HTML.

use crate::codec::starts_with;
use crate::cells::string_from_chars;
use crate::text::{
    chars_of, contains_seq, contains_text, join, lemma_join_push, push_char, push_str, split_chars,
    split_on, to_lowercase, trim, trim_chars, unicode_lowercase,
};
use crate::metrics::{MetricValue, Timestamp};
use crate::row_reader::chrono_timestamp_valid;
use crate::row_writer::utf8;
use crate::text::{decimal, u64_to_decimal};
use vstd::prelude::*;

verus! {

/// The risk level an appraisal assigns to a crate.
#[derive(Debug, Clone, Copy, PartialEq, Eq, Structural)]
pub enum Risk {
    Low,
    Medium,
    High,
}

/// The text shown for a risk level.
pub open spec fn risk_status(risk: Risk) -> Seq<char> {
    match risk {
        Risk::Low => seq!['L', 'O', 'W', ' ', 'R', 'I', 'S', 'K'],
        Risk::Medium => seq!['M', 'E', 'D', 'I', 'U', 'M', ' ', 'R', 'I', 'S', 'K'],
        Risk::High => seq!['H', 'I', 'G', 'H', ' ', 'R', 'I', 'S', 'K'],
    }
}

/// Formats a risk level as a consistent string.
pub fn format_risk_status(risk: Risk) -> (r: &'static str)
    ensures
        r@ == risk_status(risk),
{
    match risk {
        Risk::Low => {
            proof { reveal_strlit("LOW RISK"); }
            "LOW RISK"
        },
        Risk::Medium => {
            proof { reveal_strlit("MEDIUM RISK"); }
            "MEDIUM RISK"
        },
        Risk::High => {
            proof { reveal_strlit("HIGH RISK"); }
            "HIGH RISK"
        },
    }
}

/// Whether `s` starts with `prefix` (`str::starts_with`).
pub fn starts_with_text(s: &str, prefix: &str) -> (r: bool)
    ensures
        r == starts_with(s@, prefix@),
{
    let c = chars_of(s);
    let p = chars_of(prefix);
    if p.len() > c.len() {
        return false;
    }
    let mut i: usize = 0;
    while i < p.len()
        invariant
            p@.len() <= c@.len(),
            i <= p@.len(),
            c@ == s@,
            p@ == prefix@,
            forall|k: int| 0 <= k < i ==> c@[k] == p@[k],
        decreases p@.len() - i,
    {
        if c[i] != p[i] {
            assert(c@.subrange(0, p@.len() as int)[i as int] != p@[i as int]);
            return false;
        }
        i = i + 1;
    }
    assert(c@.subrange(0, p@.len() as int) =~= p@);
    true
}

/// The two URL schemes that mark a value as a link.
pub open spec fn http_prefix() -> Seq<char> {
    seq!['h', 't', 't', 'p', ':', '/', '/']
}

pub open spec fn https_prefix() -> Seq<char> {
    seq!['h', 't', 't', 'p', 's', ':', '/', '/']
}

/// Whether a string is a URL: it starts with `http://` or `https://`.
pub fn is_url(s: &str) -> (r: bool)
    ensures
        r == (starts_with(s@, http_prefix()) || starts_with(s@, https_prefix())),
{
    proof {
        reveal_strlit("http://");
        reveal_strlit("https://");
        assert("http://"@ =~= http_prefix());
        assert("https://"@ =~= https_prefix());
    }
    starts_with_text(s, "http://") || starts_with_text(s, "https://")
}

/// Whether a metric name, lowercased, contains `keyword`.
pub fn is_keywords_metric(metric_name: &str) -> (r: bool)
    ensures
        r == contains_seq(unicode_lowercase(metric_name@), seq!['k', 'e', 'y', 'w', 'o', 'r', 'd']),
{
    let lower = to_lowercase(metric_name);
    proof {
        reveal_strlit("keyword");
        assert("keyword"@ =~= seq!['k', 'e', 'y', 'w', 'o', 'r', 'd']);
    }
    contains_text(lower.as_str(), "keyword")
}

/// Whether a metric name, lowercased, contains `categor`.
pub fn is_categories_metric(metric_name: &str) -> (r: bool)
    ensures
        r == contains_seq(unicode_lowercase(metric_name@), seq!['c', 'a', 't', 'e', 'g', 'o', 'r']),
{
    let lower = to_lowercase(metric_name);
    proof {
        reveal_strlit("categor");
        assert("categor"@ =~= seq!['c', 'a', 't', 'e', 'g', 'o', 'r']);
    }
    contains_text(lower.as_str(), "categor")
}

/// Each comma-separated item of `s`, trimmed, with `#` in front.
pub open spec fn hashtag_items(s: Seq<char>) -> Seq<Seq<char>> {
    split_on(s, ',').map_values(|p: Seq<char>| seq!['#'] + trim(p))
}

/// The keyword or category list shown with `#` prefixes: the items joined
/// with `, `, or nothing for empty input.
pub open spec fn hashtag_list(s: Seq<char>) -> Seq<char> {
    if s.len() == 0 {
        Seq::empty()
    } else {
        join(hashtag_items(s), seq![',', ' '])
    }
}

/// Formats keywords or categories with a `#` prefix for each item: the
/// comma-separated items of `value`, trimmed, each with `#` in front, joined
/// with `, `. Empty input gives the empty string.
pub fn format_keywords_or_categories_with_prefix(value: &str) -> (r: String)
    ensures
        r@ == hashtag_list(value@),
{
    if value.is_empty() {
        return String::new();
    }
    let c = chars_of(value);
    let pieces = split_chars(c.as_slice(), ',');
    let ghost items = hashtag_items(value@);
    let mut result = String::new();
    let mut i: usize = 0;
    while i < pieces.len()
        invariant
            i <= pieces@.len(),
            c@ == value@,
            pieces@.len() == split_on(c@, ',').len(),
            forall|k: int| 0 <= k < pieces@.len() ==> #[trigger] pieces@[k]@ == split_on(c@, ',')[k],
            items == hashtag_items(value@),
            items.len() == pieces@.len(),
            result@ == join(items.take(i as int), seq![',', ' ']),
        decreases pieces@.len() - i,
    {
        if i > 0 {
            push_char(&mut result, ',');
            push_char(&mut result, ' ');
        }
        push_char(&mut result, '#');
        let t = trim_chars(pieces[i].as_slice());
        let mut j: usize = 0;
        let ghost before = result@;
        while j < t.len()
            invariant
                j <= t@.len(),
                result@ == before + t@.take(j as int),
            decreases t@.len() - j,
        {
            push_char(&mut result, t[j]);
            assert(t@.take(j + 1) =~= t@.take(j as int).push(t@[j as int]));
            j = j + 1;
        }
        proof {
            assert(t@.take(t@.len() as int) =~= t@);
            assert(items[i as int] == seq!['#'] + trim(pieces@[i as int]@));
            assert(items.take(i + 1) =~= items.take(i as int).push(items[i as int]));
            lemma_join_push(items.take(i as int), seq![',', ' '], items[i as int]);
            if i > 0 {
                assert(result@ =~= join(items.take(i as int), seq![',', ' ']) + seq![',', ' '] + items[i as int]);
            } else {
                assert(result@ =~= items[i as int]);
            }
        }
        i = i + 1;
    }
    assert(items.take(pieces@.len() as int) =~= items);
    result
}

/// `s` with every double quote doubled.
pub open spec fn double_quotes(s: Seq<char>) -> Seq<char>
    decreases s.len(),
{
    if s.len() == 0 {
        Seq::empty()
    } else if s.last() == '"' {
        double_quotes(s.drop_last()) + seq!['"', '"']
    } else {
        double_quotes(s.drop_last()).push(s.last())
    }
}

/// The CSV field for `s`: quoted with inner quotes doubled when it holds a
/// quote, quoted when it holds a comma or a line break, `s` itself otherwise.
pub open spec fn csv_field(s: Seq<char>) -> Seq<char> {
    if s.contains('"') {
        seq!['"'] + double_quotes(s) + seq!['"']
    } else if s.contains(',') || s.contains('\n') || s.contains('\r') {
        seq!['"'] + s + seq!['"']
    } else {
        s
    }
}

/// A text that is either the input itself or a new string.
#[derive(Debug)]
pub enum Escaped<'a> {
    Borrowed(&'a str),
    Owned(String),
}

impl<'a> Escaped<'a> {
    /// The text.
    pub open spec fn text(&self) -> Seq<char> {
        match self {
            Escaped::Borrowed(s) => s@,
            Escaped::Owned(s) => s@,
        }
    }

    /// The text, as a string slice.
    pub fn as_str(&self) -> (r: &str)
        ensures
            r@ == self.text(),
    {
        match self {
            Escaped::Borrowed(s) => s,
            Escaped::Owned(s) => s.as_str(),
        }
    }
}

/// Whether `c` occurs in `s`.
fn has_char(s: &[char], c: char) -> (r: bool)
    ensures
        r == s@.contains(c),
{
    let mut i: usize = 0;
    while i < s.len()
        invariant
            i <= s@.len(),
            forall|k: int| 0 <= k < i ==> s@[k] != c,
        decreases s@.len() - i,
    {
        if s[i] == c {
            assert(s@[i as int] == c);
            return true;
        }
        i = i + 1;
    }
    false
}

/// Escapes a CSV field. The input comes back unchanged (borrowed) when it
/// needs no quoting.
pub fn escape_csv<'a>(s: &'a str) -> (r: Escaped<'a>)
    ensures
        r.text() == csv_field(s@),
        r is Borrowed <==> csv_field(s@) == s@ && !s@.contains('"') && !s@.contains(',')
            && !s@.contains('\n') && !s@.contains('\r'),
{
    let c = chars_of(s);
    if has_char(c.as_slice(), '"') {
        let mut out = String::new();
        push_char(&mut out, '"');
        let mut i: usize = 0;
        while i < c.len()
            invariant
                i <= c@.len(),
                c@ == s@,
                out@ == seq!['"'] + double_quotes(c@.take(i as int)),
            decreases c@.len() - i,
        {
            assert(c@.take(i + 1).drop_last() =~= c@.take(i as int));
            if c[i] == '"' {
                push_char(&mut out, '"');
                push_char(&mut out, '"');
            } else {
                push_char(&mut out, c[i]);
            }
            assert(out@ =~= seq!['"'] + double_quotes(c@.take(i + 1)));
            i = i + 1;
        }
        push_char(&mut out, '"');
        assert(c@.take(c@.len() as int) =~= c@);
        Escaped::Owned(out)
    } else if has_char(c.as_slice(), ',') || has_char(c.as_slice(), '\n') || has_char(c.as_slice(), '\r') {
        let mut out = String::new();
        push_char(&mut out, '"');
        push_str(&mut out, s);
        push_char(&mut out, '"');
        proof {
            assert(seq!['"'] + s@ + seq!['"'] != s@) by {
                assert((seq!['"'] + s@ + seq!['"']).len() != s@.len());
            }
        }
        Escaped::Owned(out)
    } else {
        Escaped::Borrowed(s)
    }
}

/// The HTML entity for a character, or the character itself.
pub open spec fn html_char(c: char) -> Seq<char> {
    if c == '&' {
        seq!['&', 'a', 'm', 'p', ';']
    } else if c == '<' {
        seq!['&', 'l', 't', ';']
    } else if c == '>' {
        seq!['&', 'g', 't', ';']
    } else if c == '"' {
        seq!['&', 'q', 'u', 'o', 't', ';']
    } else if c == '\'' {
        seq!['&', '#', '3', '9', ';']
    } else {
        seq![c]
    }
}

/// `s` with each of `& < > " '` replaced by its HTML entity.
pub open spec fn html_text(s: Seq<char>) -> Seq<char>
    decreases s.len(),
{
    if s.len() == 0 {
        Seq::empty()
    } else {
        html_text(s.drop_last()) + html_char(s.last())
    }
}

/// Escapes text for HTML.
pub fn html_escape(s: &str) -> (r: String)
    ensures
        r@ == html_text(s@),
{
    let c = chars_of(s);
    let mut out = String::new();
    let mut i: usize = 0;
    while i < c.len()
        invariant
            i <= c@.len(),
            c@ == s@,
            out@ == html_text(c@.take(i as int)),
        decreases c@.len() - i,
    {
        assert(c@.take(i + 1).drop_last() =~= c@.take(i as int));
        let ch = c[i];
        if ch == '&' {
            proof { reveal_strlit("&amp;"); }
            push_str(&mut out, "&amp;");
        } else if ch == '<' {
            proof { reveal_strlit("&lt;"); }
            push_str(&mut out, "&lt;");
        } else if ch == '>' {
            proof { reveal_strlit("&gt;"); }
            push_str(&mut out, "&gt;");
        } else if ch == '"' {
            proof { reveal_strlit("&quot;"); }
            push_str(&mut out, "&quot;");
        } else if ch == '\'' {
            proof { reveal_strlit("&#39;"); }
            push_str(&mut out, "&#39;");
        } else {
            push_char(&mut out, ch);
        }
        assert(out@ =~= html_text(c@.take(i + 1)));
        i = i + 1;
    }
    assert(c@.take(c@.len() as int) =~= c@);
    out
}

/// What `chrono` formats with `%Y-%m-%d` for the instant `secs` seconds
/// after the epoch (its date in UTC).
pub uninterp spec fn chrono_date_text(secs: i64) -> Seq<char>;

/// Formats the UTC date of an instant with `chrono`'s
/// `DateTime::format("%Y-%m-%d")`. The contract only names the result; the
/// instant must be one `chrono` represents, which is what
/// `Utc.timestamp_opt(secs, 0).single()` returns.
#[verifier::external_body]
fn date_text(secs: i64) -> (r: String)
    requires
        chrono_timestamp_valid(secs),
    ensures
        r@ == chrono_date_text(secs),
{
    chrono::TimeZone::timestamp_opt(&chrono::Utc, secs, 0).single().unwrap().format("%Y-%m-%d").to_string()
}

/// The text of a metric value.
pub open spec fn value_text(v: MetricValue) -> Seq<char>
    decreases v,
{
    match v {
        MetricValue::UInt(u) => decimal(u as nat),
        MetricValue::Boolean(b) => if b {
            seq!['t', 'r', 'u', 'e']
        } else {
            seq!['f', 'a', 'l', 's', 'e']
        },
        MetricValue::String(s) => s@,
        MetricValue::DateTime(t) => chrono_date_text(t.seconds()),
        MetricValue::List(vs) => list_text(vs@),
    }
}

/// The texts of the values, joined with `, `.
pub open spec fn list_text(vs: Seq<MetricValue>) -> Seq<char>
    decreases vs,
{
    if vs.len() == 0 {
        Seq::empty()
    } else if vs.len() == 1 {
        value_text(vs[0])
    } else {
        list_text(vs.drop_last()) + seq![',', ' '] + value_text(vs.last())
    }
}

/// Formats a metric value: integers in decimal, booleans as `true` or
/// `false`, strings as they are, instants as their UTC date `YYYY-MM-DD`,
/// and lists as their elements' texts joined with `, `.
pub fn format_metric_value(value: &MetricValue) -> (r: String)
    ensures
        r@ == value_text(*value),
    decreases value,
{
    match value {
        MetricValue::UInt(u) => u64_to_decimal(*u),
        MetricValue::Boolean(b) => if *b {
            proof { reveal_strlit("true"); }
            let r = "true".to_string();
            assert(r@ =~= seq!['t', 'r', 'u', 'e']);
            r
        } else {
            proof { reveal_strlit("false"); }
            let r = "false".to_string();
            assert(r@ =~= seq!['f', 'a', 'l', 's', 'e']);
            r
        },
        MetricValue::String(s) => s.clone(),
        MetricValue::DateTime(t) => date_text(t.as_seconds()),
        MetricValue::List(values) => {
            let mut result = String::new();
            let mut i: usize = 0;
            while i < values.len()
                invariant
                    i <= values@.len(),
                    *value == MetricValue::List(*values),
                    result@ == list_text(values@.take(i as int)),
                decreases values@.len() - i,
            {
                proof {
                    assert(decreases_to!(*value => (*value)->List_0));
                    assert(decreases_to!(*values => values@));
                    assert(decreases_to!(values@ => values@[i as int]));
                }
                let text = format_metric_value(&values[i]);
                if i > 0 {
                    push_char(&mut result, ',');
                    push_char(&mut result, ' ');
                }
                push_str(&mut result, text.as_str());
                proof {
                    assert(values@.take(i + 1).drop_last() =~= values@.take(i as int));
                    if i == 0 {
                        assert(result@ =~= list_text(values@.take(i + 1)));
                    } else {
                        assert(result@ =~= list_text(values@.take(i + 1)));
                    }
                }
                i = i + 1;
            }
            assert(values@.take(values@.len() as int) =~= values@);
            result
        },
    }
}

/// The opening line of a spacer row of the HTML table.
pub open spec fn spacer_open() -> Seq<char> {
    "          <tr class=\"category-spacer\">\n"@
}

/// An empty cell line of the HTML table.
pub open spec fn empty_cell() -> Seq<char> {
    "            <td></td>\n"@
}

/// The closing line of a row of the HTML table.
pub open spec fn row_close() -> Seq<char> {
    "          </tr>\n"@
}

/// `n` empty cell lines.
pub open spec fn empty_cells(n: nat) -> Seq<char>
    decreases n,
{
    if n == 0 {
        Seq::empty()
    } else {
        empty_cells((n - 1) as nat) + empty_cell()
    }
}

/// Appends a spacer row to the HTML table: an empty cell for the metric
/// names and one per crate.
pub fn write_spacer_row(out: &mut String, crate_count: usize)
    ensures
        final(out)@ == old(out)@ + spacer_open() + empty_cells(crate_count as nat + 1) + row_close(),
{
    proof {
        reveal_strlit("          <tr class=\"category-spacer\">\n");
        reveal_strlit("            <td></td>\n");
        reveal_strlit("          </tr>\n");
    }
    let ghost start = out@;
    push_str(out, "          <tr class=\"category-spacer\">\n");
    push_str(out, "            <td></td>\n");
    assert(empty_cells(0) =~= Seq::<char>::empty());
    assert(empty_cells(1) =~= empty_cells(0) + empty_cell());
    assert(empty_cells(1) =~= empty_cell());
    let mut i: usize = 0;
    while i < crate_count
        invariant
            i <= crate_count,
            out@ == start + spacer_open() + empty_cells(i as nat + 1),
        decreases crate_count - i,
    {
        push_str(out, "            <td></td>\n");
        assert(out@ =~= start + spacer_open() + empty_cells(i as nat + 2));
        i = i + 1;
    }
    push_str(out, "          </tr>\n");
}

/// Whether a byte is an ASCII letter or digit.
pub open spec fn is_ascii_alphanumeric(b: u8) -> bool {
    (48 <= b <= 57) || (65 <= b <= 90) || (97 <= b <= 122)
}

/// The uppercase hexadecimal digit for a value below sixteen.
pub open spec fn hex_digit(d: int) -> char {
    if d < 10 {
        (48 + d) as char
    } else {
        (55 + d) as char
    }
}

/// Bytes percent-encoded with the `NON_ALPHANUMERIC` set: ASCII letters and
/// digits stay, every other byte becomes `%` and two uppercase hex digits.
pub open spec fn percent_encoded(bytes: Seq<u8>) -> Seq<char>
    decreases bytes.len(),
{
    if bytes.len() == 0 {
        Seq::empty()
    } else {
        let b = bytes.last();
        percent_encoded(bytes.drop_last()) + if is_ascii_alphanumeric(b) {
            seq![b as char]
        } else {
            seq!['%', hex_digit(b as int / 16), hex_digit(b as int % 16)]
        }
    }
}

/// Percent-encodes the UTF-8 bytes of `s` with
/// `percent_encoding::utf8_percent_encode(s, NON_ALPHANUMERIC)`. The crate
/// documents that bytes in the set and all non-ASCII bytes become `%XX` with
/// uppercase hex digits; `NON_ALPHANUMERIC` holds every ASCII byte but the
/// letters and digits.
#[verifier::external_body]
fn percent_encode_text(s: &str) -> (r: String)
    ensures
        r@ == percent_encoded(utf8(s@)),
{
    percent_encoding::utf8_percent_encode(s, percent_encoding::NON_ALPHANUMERIC).to_string()
}

/// The trimmed pieces that are not empty.
pub open spec fn nonempty_items(pieces: Seq<Seq<char>>) -> Seq<Seq<char>>
    decreases pieces.len(),
{
    if pieces.len() == 0 {
        Seq::empty()
    } else if trim(pieces.last()).len() > 0 {
        nonempty_items(pieces.drop_last()).push(trim(pieces.last()))
    } else {
        nonempty_items(pieces.drop_last())
    }
}

/// The link to a keyword or category page of crates.io.
pub open spec fn item_link(url_type: Seq<char>, item: Seq<char>) -> Seq<char> {
    "<a href=\"https://crates.io/"@ + url_type + seq!['/'] + percent_encoded(utf8(item))
        + "\" target=\"_blank\" rel=\"noopener noreferrer\">#"@ + html_text(item) + "</a>"@
}

/// The links of the items, joined with `, `.
pub open spec fn item_links(url_type: Seq<char>, items: Seq<Seq<char>>) -> Seq<char>
    decreases items.len(),
{
    if items.len() == 0 {
        Seq::empty()
    } else if items.len() == 1 {
        item_link(url_type, items[0])
    } else {
        item_links(url_type, items.drop_last()) + seq![',', ' '] + item_link(url_type, items.last())
    }
}

/// The HTML for a keyword or category list: a link per non-empty
/// comma-separated item, or the escaped text when there is none.
pub open spec fn keyword_links(value: Seq<char>, url_type: Seq<char>) -> Seq<char> {
    let items = nonempty_items(split_on(value, ','));
    if items.len() == 0 {
        html_text(value)
    } else {
        item_links(url_type, items)
    }
}

/// Appends the HTML for a keyword or category list: each non-empty
/// comma-separated item, trimmed, as a `#item` link to its crates.io page
/// (of kind `url_type`), joined with `, `; the escaped text when no item is
/// left.
pub fn format_keywords_or_categories(value: &str, url_type: &str, out: &mut String)
    ensures
        final(out)@ == old(out)@ + keyword_links(value@, url_type@),
{
    let c = chars_of(value);
    let pieces = split_chars(c.as_slice(), ',');
    let ghost pv = split_on(value@, ',');
    let mut items: Vec<Vec<char>> = Vec::new();
    let mut i: usize = 0;
    while i < pieces.len()
        invariant
            i <= pieces@.len(),
            c@ == value@,
            pv == split_on(value@, ','),
            pieces@.len() == pv.len(),
            forall|k: int| 0 <= k < pieces@.len() ==> #[trigger] pieces@[k]@ == pv[k],
            items@.len() == nonempty_items(pv.take(i as int)).len(),
            forall|k: int| 0 <= k < items@.len() ==> #[trigger] items@[k]@ == nonempty_items(pv.take(i as int))[k],
        decreases pieces@.len() - i,
    {
        let t = trim_chars(pieces[i].as_slice());
        assert(pv.take(i + 1).drop_last() =~= pv.take(i as int));
        if t.len() > 0 {
            items.push(t);
        }
        i = i + 1;
    }
    assert(pv.take(pieces@.len() as int) =~= pv);
    let ghost iv = nonempty_items(pv);
    if items.len() == 0 {
        let escaped = html_escape(value);
        push_str(out, escaped.as_str());
        return;
    }
    let ghost start = out@;
    let mut k: usize = 0;
    while k < items.len()
        invariant
            k <= items@.len(),
            items@.len() == iv.len(),
            iv.len() > 0,
            forall|j: int| 0 <= j < items@.len() ==> #[trigger] items@[j]@ == iv[j],
            out@ == start + item_links(url_type@, iv.take(k as int)),
        decreases items@.len() - k,
    {
        let ghost before = out@;
        if k > 0 {
            push_char(out, ',');
            push_char(out, ' ');
        }
        let item = string_from_chars(items[k].as_slice());
        let encoded = percent_encode_text(item.as_str());
        let escaped = html_escape(item.as_str());
        proof {
            reveal_strlit("<a href=\"https://crates.io/");
            reveal_strlit("\" target=\"_blank\" rel=\"noopener noreferrer\">#");
            reveal_strlit("</a>");
        }
        push_str(out, "<a href=\"https://crates.io/");
        push_str(out, url_type);
        push_char(out, '/');
        push_str(out, encoded.as_str());
        push_str(out, "\" target=\"_blank\" rel=\"noopener noreferrer\">#");
        push_str(out, escaped.as_str());
        push_str(out, "</a>");
        proof {
            assert(iv.take(k + 1).drop_last() =~= iv.take(k as int));
            assert(iv.take(k + 1).last() == iv[k as int]);
            let link = item_link(url_type@, iv[k as int]);
            if k == 0 {
                assert(iv.take(1) =~= seq![iv[0]]);
                assert(out@ =~= start + link);
            } else {
                assert(out@ =~= start + item_links(url_type@, iv.take(k as int)) + seq![',', ' '] + link);
            }
        }
        k = k + 1;
    }
    assert(iv.take(items@.len() as int) =~= iv);
}

/// Escaped HTML text holds none of `< > " '` itself; they occur only as
/// entities.
pub proof fn lemma_html_text_has_no_markup(s: Seq<char>)
    ensures
        !html_text(s).contains('<'),
        !html_text(s).contains('>'),
        !html_text(s).contains('"'),
        !html_text(s).contains('\''),
    decreases s.len(),
{
    if s.len() > 0 {
        lemma_html_text_has_no_markup(s.drop_last());
        let a = html_text(s.drop_last());
        let b = html_char(s.last());
        assert(html_text(s) == a + b);
        assert forall|c: char| c == '<' || c == '>' || c == '"' || c == '\'' implies !(a + b).contains(c) by {
            if (a + b).contains(c) {
                let k = choose|k: int| 0 <= k < (a + b).len() && (a + b)[k] == c;
                if k < a.len() {
                    assert(a[k] == c);
                } else {
                    assert(b[k - a.len()] == c);
                }
            }
        }
    }
}

/// Each listed keyword or category starts with `#` and holds no comma, so
/// the `, ` between them separates them unambiguously.
pub proof fn lemma_hashtag_items(s: Seq<char>, i: int)
    requires
        0 <= i < hashtag_items(s).len(),
    ensures
        hashtag_items(s)[i][0] == '#',
        !hashtag_items(s)[i].contains(','),
{
    crate::text::lemma_split_on_no_sep(s, ',', i);
    let p = split_on(s, ',')[i];
    crate::text::lemma_trim_within(p);
    let t = trim(p);
    let item = seq!['#'] + t;
    assert(hashtag_items(s)[i] == item);
    if item.contains(',') {
        let k = choose|k: int| 0 <= k < item.len() && item[k] == ',';
        assert(k > 0);
        assert(item[k] == t[k - 1]);
        assert(p.contains(t[k - 1]));
    }
}

/// A CSV field that holds a quote, a comma or a line break is enclosed in
/// quotes; any other field is left as it is.
pub proof fn lemma_csv_field_quoted(s: Seq<char>)
    ensures
        (s.contains('"') || s.contains(',') || s.contains('\n') || s.contains('\r')) ==> {
            let f = csv_field(s);
            f.len() >= 2 && f[0] == '"' && f.last() == '"'
        },
        !(s.contains('"') || s.contains(',') || s.contains('\n') || s.contains('\r')) ==> csv_field(s) == s,
{
}

} // verus!
