//! The reports over the appraised crates: the CSV table and the console
//! listing.

use crate::crate_ref::{format_version, version_text};
use crate::evaluation::EvaluationOutcome;
use crate::grouping::names_in;
use crate::metrics::{category_at, category_name, Metric, MetricCategory, MetricValue};
use crate::report_text::{csv_field, escape_csv, format_metric_value, value_text};
use crate::row_reader::StoredVersion;
use crate::options::ConsoleOutputMode;
use crate::text::{chars_of, join, lemma_join_push, push_char, push_str};
use crate::wrap::{spaces, width_of, wrap_text, wrapped};
use crate::row_writer::utf8;
use crate::codec::starts_with;
use vstd::prelude::*;

verus! {

/// A crate with its metrics and, when it was evaluated, the outcome.
pub struct ReportableCrate {
    pub name: String,
    pub version: StoredVersion,
    pub metrics: Vec<Metric>,
    pub evaluation: Option<EvaluationOutcome>,
}

impl ReportableCrate {
    pub fn new(name: String, version: StoredVersion, metrics: Vec<Metric>, evaluation: Option<EvaluationOutcome>) -> (r: Self)
        ensures
            r.name == name,
            r.version == version,
            r.metrics == metrics,
            r.evaluation == evaluation,
    {
        ReportableCrate { name, version, metrics, evaluation }
    }
}

/// The texts one after the other.
pub open spec fn concat(parts: Seq<Seq<char>>) -> Seq<char>
    decreases parts.len(),
{
    if parts.len() == 0 {
        Seq::empty()
    } else {
        concat(parts.drop_last()) + parts.last()
    }
}

/// One more part appends it.
pub proof fn lemma_concat_take(parts: Seq<Seq<char>>, k: int)
    requires
        0 <= k < parts.len(),
    ensures
        concat(parts.take(k + 1)) == concat(parts.take(k)) + parts[k],
{
    assert(parts.take(k + 1).drop_last() =~= parts.take(k));
}

/// A crate's title: `name vVERSION`.
pub open spec fn crate_title(c: ReportableCrate) -> Seq<char> {
    c.name@ + " v"@ + version_text(c.version.parts())
}

/// The acceptance status shown for an outcome.
pub open spec fn status_text(accepted: bool) -> Seq<char> {
    if accepted { "ACCEPTABLE"@ } else { "NOT ACCEPTABLE"@ }
}

/// The acceptance status shown for an outcome.
pub fn format_acceptance_status(accepted: bool) -> (r: &'static str)
    ensures
        r@ == status_text(accepted),
{
    if accepted { "ACCEPTABLE" } else { "NOT ACCEPTABLE" }
}

/// Whether some crate was evaluated.
pub open spec fn any_evaluated(cs: Seq<ReportableCrate>) -> bool {
    exists|i: int| 0 <= i < cs.len() && (#[trigger] cs[i]).evaluation is Some
}

/// The position of the first metric named `name` from `i` on.
pub open spec fn find_metric(ms: Seq<Metric>, name: Seq<char>, i: int) -> Option<int>
    decreases ms.len() - i,
{
    if i < 0 || i >= ms.len() {
        None
    } else if ms[i].def.name@ == name {
        Some(i)
    } else {
        find_metric(ms, name, i + 1)
    }
}

/// The value of the first metric named `name`, when it has one.
pub open spec fn metric_value(ms: Seq<Metric>, name: Seq<char>) -> Option<MetricValue> {
    match find_metric(ms, name, 0) {
        Some(i) => ms[i].value,
        None => None,
    }
}

/// The CSV cells of the header after `Metric`.
pub open spec fn csv_header_cell(c: ReportableCrate) -> Seq<char> {
    ","@ + csv_field(crate_title(c))
}

/// The CSV cell of a crate's status.
pub open spec fn csv_status_cell(c: ReportableCrate) -> Seq<char> {
    match c.evaluation {
        Some(e) => ","@ + status_text(e.accepted),
        None => ","@,
    }
}

/// The CSV cell of a crate's reasons, joined by `; `.
pub open spec fn csv_reasons_cell(c: ReportableCrate) -> Seq<char> {
    match c.evaluation {
        Some(e) => ","@ + csv_field(join(e.reason_texts(), "; "@)),
        None => ","@,
    }
}

/// The CSV cell of a crate's value of the metric `name`.
pub open spec fn csv_value_cell(c: ReportableCrate, name: Seq<char>) -> Seq<char> {
    match metric_value(c.metrics@, name) {
        Some(v) => ","@ + csv_field(value_text(v)),
        None => ","@,
    }
}

/// The CSV row of the metric `name`.
pub open spec fn csv_metric_row(cs: Seq<ReportableCrate>, name: Seq<char>) -> Seq<char> {
    csv_field(name) + concat(cs.map_values(|c: ReportableCrate| csv_value_cell(c, name))) + "\n"@
}

/// The CSV rows of a category: the metrics of the first crate in it.
pub open spec fn csv_category_rows(cs: Seq<ReportableCrate>, cat: MetricCategory) -> Seq<char> {
    concat(names_in(cs[0].metrics@, cat).map_values(|n: Seq<char>| csv_metric_row(cs, n)))
}

/// The CSV report: a header with a column per crate; a status row and a
/// reasons row when some crate was evaluated; then, category by category,
/// a row per metric of the first crate with each crate's value (empty when
/// the crate lacks the metric or its value).
pub open spec fn csv_document(cs: Seq<ReportableCrate>) -> Seq<char> {
    "Metric"@ + concat(cs.map_values(|c: ReportableCrate| csv_header_cell(c))) + "\n"@
        + (if any_evaluated(cs) {
            "Status"@ + concat(cs.map_values(|c: ReportableCrate| csv_status_cell(c))) + "\n"@
            + "Reasons"@ + concat(cs.map_values(|c: ReportableCrate| csv_reasons_cell(c))) + "\n"@
        } else {
            Seq::empty()
        })
        + (if cs.len() > 0 {
            concat(Seq::new(9, |i: int| csv_category_rows(cs, category_at(i))))
        } else {
            Seq::empty()
        })
}

/// Appends the CSV field of `s`.
fn push_csv(out: &mut String, s: &str)
    ensures
        final(out)@ == old(out)@ + csv_field(s@),
{
    let e = escape_csv(s);
    push_str(out, e.as_str());
}

/// Appends a crate's title.
pub(crate) fn crate_title_text(c: &ReportableCrate) -> (r: String)
    ensures
        r@ == crate_title(*c),
{
    let mut r = String::new();
    push_str(&mut r, c.name.as_str());
    push_str(&mut r, " v");
    let v = format_version(&c.version);
    push_str(&mut r, v.as_str());
    r
}

/// Joins texts with a separator.
fn join_texts(parts: &Vec<String>, sep: &str) -> (r: String)
    ensures
        r@ == join(parts@.map_values(|p: String| p@), sep@),
{
    let ghost ps = parts@.map_values(|p: String| p@);
    let mut r = String::new();
    let mut i: usize = 0;
    while i < parts.len()
        invariant
            i <= parts@.len(),
            ps == parts@.map_values(|p: String| p@),
            r@ == join(ps.take(i as int), sep@),
        decreases parts@.len() - i,
    {
        proof {
            lemma_join_push(ps.take(i as int), sep@, ps[i as int]);
            assert(ps.take(i + 1) =~= ps.take(i as int).push(ps[i as int]));
        }
        if i > 0 {
            push_str(&mut r, sep);
        }
        push_str(&mut r, parts[i].as_str());
        i = i + 1;
    }
    assert(ps.take(parts@.len() as int) =~= ps);
    r
}

/// Whether two texts are equal.
pub(crate) fn same_text(a: &str, b: &str) -> (r: bool)
    ensures
        r == (a@ == b@),
{
    let x = a.to_owned();
    let y = b.to_owned();
    x == y
}

/// The value of the first metric named `name`.
fn find_value<'a>(ms: &'a [Metric], name: &str) -> (r: Option<&'a MetricValue>)
    ensures
        match (r, metric_value(ms@, name@)) {
            (Some(v), Some(w)) => *v == w,
            (None, None) => true,
            _ => false,
        },
{
    let mut i: usize = 0;
    while i < ms.len()
        invariant
            i <= ms@.len(),
            find_metric(ms@, name@, 0) == find_metric(ms@, name@, i as int),
        decreases ms@.len() - i,
    {
        if same_text(ms[i].def.name, name) {
            return match &ms[i].value {
                Some(v) => Some(v),
                None => None,
            };
        }
        i = i + 1;
    }
    None
}

/// Whether some crate was evaluated.
pub(crate) fn has_evaluation(cs: &[ReportableCrate]) -> (r: bool)
    ensures
        r == any_evaluated(cs@),
{
    let mut i: usize = 0;
    while i < cs.len()
        invariant
            i <= cs@.len(),
            forall|j: int| 0 <= j < i ==> cs@[j].evaluation is None,
        decreases cs@.len() - i,
    {
        if cs[i].evaluation.is_some() {
            assert(cs@[i as int].evaluation is Some);
            return true;
        }
        i = i + 1;
    }
    false
}

/// Appends the CSV row of a metric.
fn push_csv_metric_row(out: &mut String, cs: &[ReportableCrate], name: &str)
    ensures
        final(out)@ == old(out)@ + csv_metric_row(cs@, name@),
{
    let ghost start = out@;
    let ghost parts = cs@.map_values(|c: ReportableCrate| csv_value_cell(c, name@));
    push_csv(out, name);
    let mut i: usize = 0;
    while i < cs.len()
        invariant
            i <= cs@.len(),
            parts == cs@.map_values(|c: ReportableCrate| csv_value_cell(c, name@)),
            out@ == start + csv_field(name@) + concat(parts.take(i as int)),
        decreases cs@.len() - i,
    {
        proof { lemma_concat_take(parts, i as int); }
        push_str(out, ",");
        match find_value(cs[i].metrics.as_slice(), name) {
            Some(v) => {
                let t = format_metric_value(v);
                push_csv(out, t.as_str());
            },
            None => {},
        }
        i = i + 1;
    }
    assert(parts.take(cs@.len() as int) =~= parts);
    push_str(out, "\n");
}

/// Appends the CSV rows of a category.
fn push_csv_category_rows(out: &mut String, cs: &[ReportableCrate], cat: MetricCategory)
    requires
        cs@.len() > 0,
    ensures
        final(out)@ == old(out)@ + csv_category_rows(cs@, cat),
{
    let ghost start = out@;
    let ms = &cs[0].metrics;
    let mut i: usize = 0;
    while i < ms.len()
        invariant
            cs@.len() > 0,
            *ms == cs@[0].metrics,
            i <= ms@.len(),
            out@ == start + concat(names_in(ms@.take(i as int), cat).map_values(|n: Seq<char>| csv_metric_row(cs@, n))),
        decreases ms@.len() - i,
    {
        let ghost before = names_in(ms@.take(i as int), cat);
        assert(ms@.take(i + 1).drop_last() =~= ms@.take(i as int));
        if ms[i].def.category == cat {
            push_csv_metric_row(out, cs, ms[i].def.name);
            proof {
                let after = names_in(ms@.take(i + 1), cat);
                assert(after == before.push(ms@[i as int].def.name@));
                let f = |n: Seq<char>| csv_metric_row(cs@, n);
                assert(after.map_values(f) =~= before.map_values(f).push(f(ms@[i as int].def.name@)));
                assert(after.map_values(f).drop_last() =~= before.map_values(f));
            }
        }
        i = i + 1;
    }
    assert(ms@.take(ms@.len() as int) =~= ms@);
}

/// Appends the CSV report of the crates (see `csv_document`).
pub fn csv_report(crates: &[ReportableCrate], out: &mut String)
    ensures
        final(out)@ == old(out)@ + csv_document(crates@),
{
    let ghost start = out@;
    let ghost header = crates@.map_values(|c: ReportableCrate| csv_header_cell(c));
    push_str(out, "Metric");
    let mut i: usize = 0;
    while i < crates.len()
        invariant
            i <= crates@.len(),
            header == crates@.map_values(|c: ReportableCrate| csv_header_cell(c)),
            out@ == start + "Metric"@ + concat(header.take(i as int)),
        decreases crates@.len() - i,
    {
        proof { lemma_concat_take(header, i as int); }
        push_str(out, ",");
        let t = crate_title_text(&crates[i]);
        push_csv(out, t.as_str());
        i = i + 1;
    }
    assert(header.take(crates@.len() as int) =~= header);
    push_str(out, "\n");
    let ghost after_header = out@;
    if has_evaluation(crates) {
        let ghost status = crates@.map_values(|c: ReportableCrate| csv_status_cell(c));
        let ghost reasons = crates@.map_values(|c: ReportableCrate| csv_reasons_cell(c));
        push_str(out, "Status");
        let mut j: usize = 0;
        while j < crates.len()
            invariant
                j <= crates@.len(),
                status == crates@.map_values(|c: ReportableCrate| csv_status_cell(c)),
                out@ == after_header + "Status"@ + concat(status.take(j as int)),
            decreases crates@.len() - j,
        {
            proof { lemma_concat_take(status, j as int); }
            push_str(out, ",");
            match &crates[j].evaluation {
                Some(e) => push_str(out, format_acceptance_status(e.accepted)),
                None => {},
            }
            j = j + 1;
        }
        assert(status.take(crates@.len() as int) =~= status);
        push_str(out, "\n");
        let ghost after_status = out@;
        push_str(out, "Reasons");
        let mut k: usize = 0;
        while k < crates.len()
            invariant
                k <= crates@.len(),
                reasons == crates@.map_values(|c: ReportableCrate| csv_reasons_cell(c)),
                out@ == after_status + "Reasons"@ + concat(reasons.take(k as int)),
            decreases crates@.len() - k,
        {
            proof { lemma_concat_take(reasons, k as int); }
            push_str(out, ",");
            match &crates[k].evaluation {
                Some(e) => {
                    let joined = join_texts(&e.reasons, "; ");
                    push_csv(out, joined.as_str());
                },
                None => {},
            }
            k = k + 1;
        }
        assert(reasons.take(crates@.len() as int) =~= reasons);
        push_str(out, "\n");
    }
    let ghost after_eval = out@;
    if crates.len() > 0 {
        let ghost rows = Seq::new(9, |i: int| csv_category_rows(crates@, category_at(i)));
        let cats = MetricCategory::all();
        let mut m: usize = 0;
        while m < 9
            invariant
                crates@.len() > 0,
                m <= 9,
                cats@.len() == 9,
                forall|i: int| 0 <= i < 9 ==> #[trigger] cats@[i] == category_at(i),
                rows == Seq::new(9, |i: int| csv_category_rows(crates@, category_at(i))),
                out@ == after_eval + concat(rows.take(m as int)),
            decreases 9 - m,
        {
            proof { lemma_concat_take(rows, m as int); }
            push_csv_category_rows(out, crates, cats[m]);
            m = m + 1;
        }
        assert(rows.take(9) =~= rows);
    }
    assert(out@ =~= start + csv_document(crates@));
}

/// The line between two crates of the console report.
pub open spec fn console_separator() -> Seq<char> {
    "\n═══════════════════════════════════════\n\n"@
}

/// Bold text on a terminal (`owo_colors` `bold`): the text between the
/// bold and the reset sequences.
pub open spec fn bold(s: Seq<char>) -> Seq<char> {
    "\x1b[1m"@ + s + "\x1b[0m"@
}

/// Green or red bold text on a terminal (`owo_colors` `green().bold()` or
/// `red().bold()`): bold around the colour and the default-colour sequences.
pub open spec fn bold_colored(green: bool, s: Seq<char>) -> Seq<char> {
    bold((if green { "\x1b[32m"@ } else { "\x1b[31m"@ }) + s + "\x1b[39m"@)
}

/// The acceptance status as the console shows it.
pub open spec fn console_status(accepted: bool, use_colors: bool) -> Seq<char> {
    if use_colors { bold_colored(accepted, status_text(accepted)) } else { status_text(accepted) }
}

/// A reason line.
pub open spec fn reason_line(r: Seq<char>) -> Seq<char> {
    "  - "@ + r + "\n"@
}

/// The console lines of a crate's evaluation: the status when the
/// appraisal section is shown, the reasons when that section is shown and
/// there are any.
pub open spec fn console_evaluation(c: ReportableCrate, mode: ConsoleOutputMode, use_colors: bool) -> Seq<char> {
    match c.evaluation {
        Some(e) => (if mode.appraisal {
            "Evaluation Result: "@ + console_status(e.accepted, use_colors) + "\n"@
        } else {
            Seq::empty()
        }) + (if mode.reasons && e.reasons@.len() > 0 {
            "Reasons          :\n"@ + concat(e.reason_texts().map_values(|r: Seq<char>| reason_line(r)))
        } else {
            Seq::empty()
        }),
        None => Seq::empty(),
    }
}

/// The position of the last metric named `name` among the first `n`.
pub open spec fn last_metric(ms: Seq<Metric>, name: Seq<char>, n: int) -> Option<int>
    decreases n,
{
    if n <= 0 {
        None
    } else if ms[n - 1].def.name@ == name {
        Some(n - 1)
    } else {
        last_metric(ms, name, n - 1)
    }
}

/// The text of the value of the last metric named `name`, `n/a` when it
/// has none.
pub open spec fn console_value(ms: Seq<Metric>, name: Seq<char>) -> Seq<char> {
    match last_metric(ms, name, ms.len() as int) {
        Some(i) => match ms[i].value {
            Some(v) => value_text(v),
            None => "n/a"@,
        },
        None => "n/a"@,
    }
}

/// The widest name, in bytes.
pub open spec fn max_width(names: Seq<Seq<char>>) -> int
    decreases names.len(),
{
    if names.len() == 0 {
        0
    } else {
        let m = max_width(names.drop_last());
        if width_of(names.last()) > m { width_of(names.last()) } else { m }
    }
}

/// `s` padded with spaces to `width` characters (`{:<width$}`).
pub open spec fn pad(s: Seq<char>, width: int) -> Seq<char> {
    if s.len() < width { s + spaces((width - s.len()) as nat) } else { s }
}

/// The console lines of a metric: its name padded to the widest name of
/// its category, then its value wrapped at `width` with continuation lines
/// indented past the names.
pub open spec fn console_metric(ms: Seq<Metric>, name: Seq<char>, name_width: int, width: nat) -> Seq<char> {
    let lines = wrapped(console_value(ms, name), width, (name_width + 5) as nat);
    "  "@ + pad(name, name_width) + " : "@ + lines[0] + "\n"@
        + concat(lines.drop_first().map_values(|l: Seq<char>| l + "\n"@))
}

/// The console lines of a category of a crate, when it has metrics in it.
pub open spec fn console_category(ms: Seq<Metric>, cat: MetricCategory, use_colors: bool, width: nat) -> Seq<char> {
    let names = names_in(ms, cat);
    if names.len() == 0 {
        Seq::empty()
    } else {
        "\n"@ + (if use_colors { bold(category_name(cat)) } else { category_name(cat) }) + "\n"@
            + concat(names.map_values(|n: Seq<char>| console_metric(ms, n, max_width(names), width)))
    }
}

/// The console lines of the `i`-th crate.
pub open spec fn console_crate(cs: Seq<ReportableCrate>, i: int, mode: ConsoleOutputMode, use_colors: bool, width: nat) -> Seq<char> {
    (if i > 0 { console_separator() } else { Seq::empty() })
        + console_evaluation(cs[i], mode, use_colors)
        + (if mode.metrics {
            concat(Seq::new(9, |k: int| console_category(cs[i].metrics@, category_at(k), use_colors, width)))
        } else {
            Seq::empty()
        })
}

/// The console report: the crates one after the other, separated by a line.
pub open spec fn console_document(cs: Seq<ReportableCrate>, mode: ConsoleOutputMode, use_colors: bool, width: nat) -> Seq<char> {
    concat(Seq::new(cs.len(), |i: int| console_crate(cs, i, mode, use_colors, width)))
}

/// Metric names short enough that the indent past them fits a `usize`.
pub open spec fn names_fit(cs: Seq<ReportableCrate>) -> bool {
    forall|i: int, j: int| 0 <= i < cs.len() && 0 <= j < cs[i].metrics@.len()
        ==> width_of(#[trigger] cs[i].metrics@[j].def.name@) + 5 <= usize::MAX
}

/// The console shows an evaluated crate's own status: without colours the
/// status reads `ACCEPTABLE` for an accepted crate and `NOT ACCEPTABLE` for
/// another; with colours it is that same text, bold, in green for an
/// accepted crate and red for another, between the terminal's sequences.
pub proof fn lemma_console_status_is_the_outcome(accepted: bool)
    ensures
        console_status(accepted, false) == (if accepted { "ACCEPTABLE"@ } else { "NOT ACCEPTABLE"@ }),
        console_status(accepted, true) == "\x1b[1m"@ + (if accepted { "\x1b[32m"@ } else { "\x1b[31m"@ })
            + console_status(accepted, false) + "\x1b[39m"@ + "\x1b[0m"@,
        console_status(true, false) != console_status(false, false),
{
    reveal_strlit("ACCEPTABLE");
    reveal_strlit("NOT ACCEPTABLE");
    assert("ACCEPTABLE"@.len() != "NOT ACCEPTABLE"@.len());
    let c = if accepted { "\x1b[32m"@ } else { "\x1b[31m"@ };
    assert(bold_colored(accepted, status_text(accepted))
        =~= "\x1b[1m"@ + c + status_text(accepted) + "\x1b[39m"@ + "\x1b[0m"@);
}

/// The evaluation lines of an evaluated crate, when the appraisal section
/// is shown, start with its status line: `Evaluation Result: ` and the
/// status of its outcome (see `lemma_console_status_is_the_outcome`).
pub proof fn lemma_console_evaluation_starts_with_status(c: ReportableCrate, mode: ConsoleOutputMode, use_colors: bool)
    requires
        c.evaluation is Some,
        mode.appraisal,
    ensures
        starts_with(console_evaluation(c, mode, use_colors),
            "Evaluation Result: "@ + console_status(c.evaluation->0.accepted, use_colors) + "\n"@),
{
    let e = c.evaluation->0;
    let line = "Evaluation Result: "@ + console_status(e.accepted, use_colors) + "\n"@;
    let rest = if mode.reasons && e.reasons@.len() > 0 {
        "Reasons          :\n"@ + concat(e.reason_texts().map_values(|r: Seq<char>| reason_line(r)))
    } else {
        Seq::empty()
    };
    assert(console_evaluation(c, mode, use_colors) == line + rest);
    assert((line + rest).subrange(0, line.len() as int) =~= line);
}

/// Appends the console status.
fn push_console_status(out: &mut String, accepted: bool, use_colors: bool)
    ensures
        final(out)@ == old(out)@ + console_status(accepted, use_colors),
{
    if use_colors {
        push_str(out, "\x1b[1m");
        if accepted {
            push_str(out, "\x1b[32m");
        } else {
            push_str(out, "\x1b[31m");
        }
        push_str(out, format_acceptance_status(accepted));
        push_str(out, "\x1b[39m");
        push_str(out, "\x1b[0m");
    } else {
        push_str(out, format_acceptance_status(accepted));
    }
}

/// Appends the console lines of a crate's evaluation.
fn push_console_evaluation(out: &mut String, c: &ReportableCrate, mode: ConsoleOutputMode, use_colors: bool)
    ensures
        final(out)@ == old(out)@ + console_evaluation(*c, mode, use_colors),
{
    match &c.evaluation {
        Some(e) => {
            let ghost start = out@;
            if mode.appraisal {
                push_str(out, "Evaluation Result: ");
                push_console_status(out, e.accepted, use_colors);
                push_str(out, "\n");
            }
            let ghost mid = out@;
            if mode.reasons && e.reasons.len() > 0 {
                push_str(out, "Reasons          :\n");
                let ghost parts = e.reason_texts().map_values(|r: Seq<char>| reason_line(r));
                let mut i: usize = 0;
                while i < e.reasons.len()
                    invariant
                        i <= e.reasons@.len(),
                        parts == e.reason_texts().map_values(|r: Seq<char>| reason_line(r)),
                        out@ == mid + "Reasons          :\n"@ + concat(parts.take(i as int)),
                    decreases e.reasons@.len() - i,
                {
                    proof { lemma_concat_take(parts, i as int); }
                    push_str(out, "  - ");
                    push_str(out, e.reasons[i].as_str());
                    push_str(out, "\n");
                    i = i + 1;
                }
                assert(parts.take(e.reasons@.len() as int) =~= parts);
            }
        },
        None => {},
    }
}

/// The value text of the last metric named `name`.
fn console_value_text(ms: &[Metric], name: &str) -> (r: String)
    ensures
        r@ == console_value(ms@, name@),
{
    let mut found: Option<usize> = None;
    let mut i: usize = 0;
    while i < ms.len()
        invariant
            i <= ms@.len(),
            match (found, last_metric(ms@, name@, i as int)) {
                (Some(a), Some(b)) => a == b && a < i,
                (None, None) => true,
                _ => false,
            },
        decreases ms@.len() - i,
    {
        if same_text(ms[i].def.name, name) {
            found = Some(i);
        }
        i = i + 1;
    }
    match found {
        Some(k) => match &ms[k].value {
            Some(v) => format_metric_value(v),
            None => "n/a".to_owned(),
        },
        None => "n/a".to_owned(),
    }
}

/// The widest name of a category, in bytes.
fn category_name_width(ms: &[Metric], cat: MetricCategory) -> (r: usize)
    ensures
        r == max_width(names_in(ms@, cat)),
{
    let mut m: usize = 0;
    let mut i: usize = 0;
    while i < ms.len()
        invariant
            i <= ms@.len(),
            m == max_width(names_in(ms@.take(i as int), cat)),
        decreases ms@.len() - i,
    {
        assert(ms@.take(i + 1).drop_last() =~= ms@.take(i as int));
        if ms[i].def.category == cat {
            let w = ms[i].def.name.as_bytes().len();
            proof {
                let names = names_in(ms@.take(i + 1), cat);
                assert(names.drop_last() =~= names_in(ms@.take(i as int), cat));
            }
            if w > m {
                m = w;
            }
        }
        i = i + 1;
    }
    assert(ms@.take(ms@.len() as int) =~= ms@);
    m
}

/// Appends `s` padded to `width` characters.
fn push_padded(out: &mut String, s: &str, width: usize)
    ensures
        final(out)@ == old(out)@ + pad(s@, width as int),
{
    let n = chars_of(s).len();
    push_str(out, s);
    if n < width {
        let ghost mid = out@;
        let mut k: usize = n;
        while k < width
            invariant
                n <= k <= width,
                out@ == mid + spaces((k - n) as nat),
            decreases width - k,
        {
            push_char(out, ' ');
            assert(spaces((k + 1 - n) as nat) =~= spaces((k - n) as nat).push(' '));
            k = k + 1;
        }
    }
}

/// Appends the console lines of a metric.
fn push_console_metric(out: &mut String, ms: &[Metric], name: &str, name_width: usize, width: usize)
    requires
        name_width + 5 <= usize::MAX,
    ensures
        final(out)@ == old(out)@ + console_metric(ms@, name@, name_width as int, width as nat),
{
    let text = console_value_text(ms, name);
    let lines = wrap_text(text.as_str(), width, name_width + 5);
    let ghost ws = wrapped(text@, width as nat, (name_width + 5) as nat);
    assert(ws.len() >= 1);
    push_str(out, "  ");
    push_padded(out, name, name_width);
    push_str(out, " : ");
    push_str(out, lines[0].as_str());
    push_str(out, "\n");
    let ghost mid = out@;
    let ghost parts = ws.drop_first().map_values(|l: Seq<char>| l + "\n"@);
    let mut i: usize = 1;
    while i < lines.len()
        invariant
            1 <= i <= lines@.len(),
            lines@.len() == ws.len(),
            forall|k: int| 0 <= k < lines@.len() ==> #[trigger] lines@[k]@ == ws[k],
            parts == ws.drop_first().map_values(|l: Seq<char>| l + "\n"@),
            out@ == mid + concat(parts.take(i - 1)),
        decreases lines@.len() - i,
    {
        proof { lemma_concat_take(parts, i - 1); }
        push_str(out, lines[i].as_str());
        push_str(out, "\n");
        i = i + 1;
    }
    assert(parts.take(lines@.len() - 1) =~= parts);
}

/// Whether a crate has metrics in a category.
fn has_category(ms: &[Metric], cat: MetricCategory) -> (r: bool)
    ensures
        r == (names_in(ms@, cat).len() > 0),
{
    let mut any = false;
    let mut j: usize = 0;
    while j < ms.len()
        invariant
            j <= ms@.len(),
            any == (names_in(ms@.take(j as int), cat).len() > 0),
        decreases ms@.len() - j,
    {
        assert(ms@.take(j + 1).drop_last() =~= ms@.take(j as int));
        if ms[j].def.category == cat {
            any = true;
        }
        j = j + 1;
    }
    assert(ms@.take(ms@.len() as int) =~= ms@);
    any
}

/// Appends the console lines of the metrics of a category.
fn push_console_rows(out: &mut String, ms: &[Metric], cat: MetricCategory, name_width: usize, width: usize)
    requires
        name_width + 5 <= usize::MAX,
    ensures
        final(out)@ == old(out)@ + concat(names_in(ms@, cat).map_values(|n: Seq<char>| console_metric(ms@, n, name_width as int, width as nat))),
{
    let ghost start = out@;
    let mut i: usize = 0;
    while i < ms.len()
        invariant
            i <= ms@.len(),
            name_width + 5 <= usize::MAX,
            out@ == start + concat(names_in(ms@.take(i as int), cat).map_values(|n: Seq<char>| console_metric(ms@, n, name_width as int, width as nat))),
        decreases ms@.len() - i,
    {
        let ghost before = names_in(ms@.take(i as int), cat);
        assert(ms@.take(i + 1).drop_last() =~= ms@.take(i as int));
        if ms[i].def.category == cat {
            push_console_metric(out, ms, ms[i].def.name, name_width, width);
            proof {
                let after = names_in(ms@.take(i + 1), cat);
                let f = |n: Seq<char>| console_metric(ms@, n, name_width as int, width as nat);
                assert(after.map_values(f).drop_last() =~= before.map_values(f));
            }
        }
        i = i + 1;
    }
    assert(ms@.take(ms@.len() as int) =~= ms@);
}

/// Appends the console lines of a category of a crate.
fn push_console_category(out: &mut String, ms: &[Metric], cat: MetricCategory, use_colors: bool, width: usize)
    requires
        forall|j: int| 0 <= j < ms@.len() ==> width_of(#[trigger] ms@[j].def.name@) + 5 <= usize::MAX,
    ensures
        final(out)@ == old(out)@ + console_category(ms@, cat, use_colors, width as nat),
{
    let name_width = category_name_width(ms, cat);
    proof { lemma_max_width_is_a_width(ms@, cat); }
    if !has_category(ms, cat) {
        return;
    }
    let ghost start = out@;
    push_str(out, "\n");
    if use_colors {
        push_str(out, "\x1b[1m");
        push_str(out, cat.name());
        push_str(out, "\x1b[0m");
    } else {
        push_str(out, cat.name());
    }
    push_str(out, "\n");
    push_console_rows(out, ms, cat, name_width, width);
    assert(out@ =~= start + console_category(ms@, cat, use_colors, width as nat));
}

/// The widest name of a category is the width of one of its names, or
/// zero; the indent past it fits.
proof fn lemma_max_width_is_a_width(ms: Seq<Metric>, cat: MetricCategory)
    requires
        forall|j: int| 0 <= j < ms.len() ==> width_of(#[trigger] ms[j].def.name@) + 5 <= usize::MAX,
    ensures
        max_width(names_in(ms, cat)) + 5 <= usize::MAX,
        max_width(names_in(ms, cat)) >= 0,
    decreases ms.len(),
{
    if ms.len() > 0 {
        lemma_max_width_is_a_width(ms.drop_last(), cat);
        assert(width_of(ms[ms.len() - 1].def.name@) + 5 <= usize::MAX);
        let names = names_in(ms, cat);
        if ms.last().def.category == cat {
            assert(names.drop_last() =~= names_in(ms.drop_last(), cat));
        }
    }
}

/// Appends the console lines of the `i`-th crate.
fn push_console_crate(out: &mut String, crates: &[ReportableCrate], i: usize, mode: ConsoleOutputMode, use_colors: bool, width: usize)
    requires
        i < crates@.len(),
        names_fit(crates@),
    ensures
        final(out)@ == old(out)@ + console_crate(crates@, i as int, mode, use_colors, width as nat),
{
    let ghost before = out@;
    if i > 0 {
        push_str(out, "\n═══════════════════════════════════════\n\n");
    }
    push_console_evaluation(out, &crates[i], mode, use_colors);
    let ghost mid = out@;
    if mode.metrics {
        let cats = MetricCategory::all();
        let ms = crates[i].metrics.as_slice();
        let ghost rows = Seq::new(9, |k: int| console_category(crates@[i as int].metrics@, category_at(k), use_colors, width as nat));
        assert forall|j: int| 0 <= j < ms@.len() implies width_of(#[trigger] ms@[j].def.name@) + 5 <= usize::MAX by {
            assert(ms@[j] == crates@[i as int].metrics@[j]);
        }
        let mut m: usize = 0;
        while m < 9
            invariant
                m <= 9,
                forall|j: int| 0 <= j < ms@.len() ==> width_of(#[trigger] ms@[j].def.name@) + 5 <= usize::MAX,
                ms@ == crates@[i as int].metrics@,
                cats@.len() == 9,
                forall|k: int| 0 <= k < 9 ==> #[trigger] cats@[k] == category_at(k),
                rows == Seq::new(9, |k: int| console_category(crates@[i as int].metrics@, category_at(k), use_colors, width as nat)),
                out@ == mid + concat(rows.take(m as int)),
            decreases 9 - m,
        {
            proof { lemma_concat_take(rows, m as int); }
            push_console_category(out, ms, cats[m], use_colors, width);
            m = m + 1;
        }
        assert(rows.take(9) =~= rows);
    }
    assert(out@ =~= before + console_crate(crates@, i as int, mode, use_colors, width as nat));
}

/// Appends the console report of the crates (see `console_document`).
pub fn console_report(crates: &[ReportableCrate], mode: ConsoleOutputMode, use_colors: bool, width: usize, out: &mut String)
    requires
        names_fit(crates@),
    ensures
        final(out)@ == old(out)@ + console_document(crates@, mode, use_colors, width as nat),
{
    let ghost start = out@;
    let ghost parts = Seq::new(crates@.len(), |i: int| console_crate(crates@, i, mode, use_colors, width as nat));
    let mut i: usize = 0;
    while i < crates.len()
        invariant
            i <= crates@.len(),
            names_fit(crates@),
            parts == Seq::new(crates@.len(), |i: int| console_crate(crates@, i, mode, use_colors, width as nat)),
            out@ == start + concat(parts.take(i as int)),
        decreases crates@.len() - i,
    {
        proof { lemma_concat_take(parts, i as int); }
        push_console_crate(out, crates, i, mode, use_colors, width);
        i = i + 1;
    }
    assert(parts.take(crates@.len() as int) =~= parts);
}

} // verus!
