//! What a run tells besides its reports: the messages on crates that could
//! not be analyzed, whether crates are evaluated at all, and whether the run
//! fails because of the risks found.

use crate::crate_ref::{format_version, version_text};
use crate::options::ConsoleOutputMode;
use crate::report_text::Risk;
use crate::row_reader::StoredVersion;
use crate::text::{decimal, join, lemma_join_push, push_str, u64_to_decimal};
use vstd::prelude::*;

verus! {

/// A text between single quotes.
pub open spec fn quoted(s: Seq<char>) -> Seq<char> {
    "'"@ + s + "'"@
}

/// The quoted forms of some texts.
pub open spec fn all_quoted(s: Seq<Seq<char>>) -> Seq<Seq<char>> {
    s.map_values(|x: Seq<char>| quoted(x))
}

/// The question that offers other crate names: one, two joined by "or", or
/// a list that ends with ", or".
pub open spec fn suggestion_text(s: Seq<Seq<char>>) -> Seq<char> {
    if s.len() == 1 {
        "Did you mean "@ + quoted(s[0]) + "?"@
    } else if s.len() == 2 {
        "Did you mean "@ + quoted(s[0]) + " or "@ + quoted(s[1]) + "?"@
    } else {
        "Did you mean "@ + join(all_quoted(s.drop_last()), ", "@) + ", or "@ + quoted(s.last()) + "?"@
    }
}

/// The views of some strings.
pub open spec fn texts(s: Seq<String>) -> Seq<Seq<char>> {
    s.map_values(|x: String| x@)
}

/// The message for a crate that the index does not know, with the names it
/// suggests instead, if any.
pub open spec fn crate_not_found_text(name: Seq<char>, suggestions: Seq<Seq<char>>) -> Seq<char> {
    if suggestions.len() == 0 {
        "  Could not find information on crate '"@ + name + "'"@
    } else {
        "  Could not find information on crate '"@ + name + "'. "@ + suggestion_text(suggestions)
    }
}

/// Appends `'s'` to `out`.
fn push_quoted(out: &mut String, s: &str)
    ensures
        final(out)@ == old(out)@ + quoted(s@),
{
    push_str(out, "'");
    push_str(out, s);
    push_str(out, "'");
}

/// The question that offers the suggested names (see `suggestion_text`).
pub fn format_suggestions(suggestions: &[String]) -> (r: String)
    requires
        suggestions@.len() > 0,
    ensures
        r@ == suggestion_text(texts(suggestions@)),
{
    let ghost s = texts(suggestions@);
    let n = suggestions.len();
    let mut r = String::new();
    push_str(&mut r, "Did you mean ");
    if n == 1 {
        push_quoted(&mut r, suggestions[0].as_str());
    } else if n == 2 {
        push_quoted(&mut r, suggestions[0].as_str());
        push_str(&mut r, " or ");
        push_quoted(&mut r, suggestions[1].as_str());
    } else {
        let mut i: usize = 0;
        while i < n - 1
            invariant
                n == suggestions@.len(),
                n > 2,
                i <= n - 1,
                s == texts(suggestions@),
                r@ == "Did you mean "@ + join(all_quoted(s.take(i as int)), ", "@),
            decreases n - 1 - i,
        {
            proof {
                lemma_join_push(all_quoted(s.take(i as int)), ", "@, quoted(s[i as int]));
                assert(all_quoted(s.take(i + 1)) =~= all_quoted(s.take(i as int)).push(quoted(s[i as int])));
            }
            if i > 0 {
                push_str(&mut r, ", ");
            }
            push_quoted(&mut r, suggestions[i].as_str());
            i = i + 1;
        }
        assert(s.take((n - 1) as int) =~= s.drop_last());
        push_str(&mut r, ", or ");
        push_quoted(&mut r, suggestions[n - 1].as_str());
    }
    push_str(&mut r, "?");
    r
}

/// The message for a crate that the index does not know.
pub fn crate_not_found_message(name: &str, suggestions: &[String]) -> (r: String)
    ensures
        r@ == crate_not_found_text(name@, texts(suggestions@)),
{
    let mut r = String::new();
    push_str(&mut r, "  Could not find information on crate '");
    push_str(&mut r, name);
    if suggestions.len() == 0 {
        push_str(&mut r, "'");
    } else {
        push_str(&mut r, "'. ");
        let s = format_suggestions(suggestions);
        push_str(&mut r, s.as_str());
    }
    r
}

/// The message for a version of a crate that the index does not know.
pub fn version_not_found_message(name: &str, version: &StoredVersion) -> (r: String)
    ensures
        r@ == "  Could not find information on version "@ + version_text(version.parts()) + " of crate `"@ + name@ + "`"@,
{
    let mut r = String::new();
    push_str(&mut r, "  Could not find information on version ");
    let text = format_version(version);
    push_str(&mut r, text.as_str());
    push_str(&mut r, " of crate `");
    push_str(&mut r, name);
    push_str(&mut r, "`");
    assert(r@ =~= "  Could not find information on version "@ + version_text(version.parts()) + " of crate `"@ + name@ + "`"@);
    r
}

/// The heading over the messages on crates that could not be analyzed.
pub fn unable_to_analyze_heading(count: usize) -> (r: String)
    ensures
        r@ == "\nUnable to analyze "@ + decimal(count as nat) + " crate(s)"@,
{
    let mut r = String::new();
    push_str(&mut r, "\nUnable to analyze ");
    let n = u64_to_decimal(count as u64);
    push_str(&mut r, n.as_str());
    push_str(&mut r, " crate(s)");
    r
}

/// The message for a crate whose facts could not be gathered: the crate
/// specifier and the error's text.
pub fn gather_failed_message(spec: &str, error: &str) -> (r: String)
    ensures
        r@ == "  Could not gather information for crate '"@ + spec@ + "': "@ + error@,
{
    let mut r = String::new();
    push_str(&mut r, "  Could not gather information for crate '");
    push_str(&mut r, spec);
    push_str(&mut r, "': ");
    push_str(&mut r, error);
    r
}

/// The console sections printed: those asked for; when none were asked for,
/// every section, unless reports are written to files or the run fails on
/// risk, in which case the console shows nothing.
pub fn report_console_mode(console: Option<ConsoleOutputMode>, generating_reports: bool, error_if_risk: bool) -> (r: Option<ConsoleOutputMode>)
    ensures
        r == match console {
            Some(m) => Some(m),
            None => if !generating_reports && !error_if_risk {
                Some(ConsoleOutputMode { appraisal: true, reasons: true, metrics: true })
            } else {
                None
            },
        },
{
    match console {
        Some(m) => Some(m),
        None => if !generating_reports && !error_if_risk {
            Some(ConsoleOutputMode { appraisal: true, reasons: true, metrics: true })
        } else {
            None
        },
    }
}

/// Whether the console report is printed: when it has sections to show and
/// there are crates to report.
pub fn prints_console_report(mode: Option<ConsoleOutputMode>, crate_count: usize) -> (r: bool)
    ensures
        r == (mode is Some && crate_count > 0),
{
    mode.is_some() && crate_count > 0
}

/// Whether the crates are evaluated: when there are expressions to
/// evaluate, or when the run fails on risk.
pub fn should_evaluate(has_high_risk_expressions: bool, has_eval_expressions: bool, error_if_high_risk: bool, error_if_medium_risk: bool) -> (r: bool)
    ensures
        r == (has_high_risk_expressions || has_eval_expressions || error_if_high_risk || error_if_medium_risk),
{
    has_high_risk_expressions || has_eval_expressions || error_if_high_risk || error_if_medium_risk
}

/// Whether some crate was appraised with a risk that `flagged` accepts.
pub open spec fn any_risk(risks: Seq<Option<Risk>>, medium_counts: bool) -> bool {
    exists|i: int| 0 <= i < risks.len() && (risks[i] == Some(Risk::High) || (medium_counts && risks[i] == Some(Risk::Medium)))
}

/// The error that fails the run on the crates' risks: with
/// `error_if_medium_risk`, any crate of medium or high risk; else, with
/// `error_if_high_risk`, any crate of high risk. Crates without an appraisal
/// do not count.
pub fn risk_gate(error_if_medium_risk: bool, error_if_high_risk: bool, risks: &[Option<Risk>]) -> (r: Result<(), String>)
    ensures
        error_if_medium_risk && any_risk(risks@, true)
            ==> (r matches Err(e) && e@ == "one or more crates were flagged as medium or high risk"@),
        !(error_if_medium_risk && any_risk(risks@, true)) && error_if_high_risk && any_risk(risks@, false)
            ==> (r matches Err(e) && e@ == "one or more crates were flagged as high risk"@),
        !(error_if_medium_risk && any_risk(risks@, true)) && !(error_if_high_risk && any_risk(risks@, false))
            ==> r is Ok,
{
    if error_if_medium_risk && has_risk(risks, true) {
        return Err("one or more crates were flagged as medium or high risk".to_owned());
    }
    if error_if_high_risk && has_risk(risks, false) {
        return Err("one or more crates were flagged as high risk".to_owned());
    }
    Ok(())
}

/// Whether some crate has high risk, or, when `medium_counts`, medium risk.
fn has_risk(risks: &[Option<Risk>], medium_counts: bool) -> (r: bool)
    ensures
        r == any_risk(risks@, medium_counts),
{
    let mut i: usize = 0;
    while i < risks.len()
        invariant
            i <= risks@.len(),
            forall|j: int| 0 <= j < i ==> !(risks@[j] == Some(Risk::High) || (medium_counts && risks@[j] == Some(Risk::Medium))),
        decreases risks@.len() - i,
    {
        match risks[i] {
            Some(Risk::High) => return true,
            Some(Risk::Medium) => {
                if medium_counts {
                    return true;
                }
            },
            _ => {},
        }
        i = i + 1;
    }
    false
}

/// Why a crate could not be analyzed: the index does not know it (with the
/// names it suggests instead), it does not know that version, or gathering
/// its facts failed (with the error's text).
pub enum CrateFailure {
    CrateNotFound(Vec<String>),
    VersionNotFound,
    Error(String),
}

/// A crate that could not be analyzed: its name, its version, its specifier
/// as written, and why.
pub struct FailedCrate {
    pub name: String,
    pub version: StoredVersion,
    pub spec: String,
    pub failure: CrateFailure,
}

/// The line on a crate that could not be analyzed.
pub open spec fn failure_text(f: FailedCrate) -> Seq<char> {
    match f.failure {
        CrateFailure::CrateNotFound(s) => crate_not_found_text(f.name@, texts(s@)),
        CrateFailure::VersionNotFound => "  Could not find information on version "@ + version_text(f.version.parts())
            + " of crate `"@ + f.name@ + "`"@,
        CrateFailure::Error(e) => "  Could not gather information for crate '"@ + f.spec@ + "': "@ + e@,
    }
}

/// The lines the run writes to its error stream on the crates that could
/// not be analyzed: none when there are none; else the heading with their
/// count, then a line per crate, in order.
pub fn failure_lines(failed: &[FailedCrate]) -> (r: Vec<String>)
    ensures
        failed@.len() == 0 ==> r@.len() == 0,
        failed@.len() > 0 ==> r@.len() == failed@.len() + 1
            && r@[0]@ == "\nUnable to analyze "@ + decimal(failed@.len()) + " crate(s)"@
            && forall|i: int| 0 <= i < failed@.len() ==> #[trigger] r@[i + 1]@ == failure_text(failed@[i]),
{
    let mut r: Vec<String> = Vec::new();
    if failed.len() == 0 {
        return r;
    }
    r.push(unable_to_analyze_heading(failed.len()));
    let mut i: usize = 0;
    while i < failed.len()
        invariant
            i <= failed@.len(),
            failed@.len() > 0,
            r@.len() == i + 1,
            r@[0]@ == "\nUnable to analyze "@ + decimal(failed@.len()) + " crate(s)"@,
            forall|k: int| 0 <= k < i ==> #[trigger] r@[k + 1]@ == failure_text(failed@[k]),
        decreases failed@.len() - i,
    {
        let f = &failed[i];
        let line = match &f.failure {
            CrateFailure::CrateNotFound(s) => crate_not_found_message(f.name.as_str(), s.as_slice()),
            CrateFailure::VersionNotFound => version_not_found_message(f.name.as_str(), &f.version),
            CrateFailure::Error(e) => gather_failed_message(f.spec.as_str(), e.as_str()),
        };
        r.push(line);
        i = i + 1;
    }
    r
}

/// The risk of an evaluated crate: low when accepted, high when not.
pub fn outcome_risk(accepted: bool) -> (r: Risk)
    ensures
        r == (if accepted { Risk::Low } else { Risk::High }),
{
    if accepted { Risk::Low } else { Risk::High }
}

} // verus!
