//! The policy decision: whether a crate is accepted, from the outcomes of
//! the deny-if-any, accept-if-any and accept-if-all expressions.
//!
//! Expressions are CEL programs, compiled here with `cel_interpreter`.
//! Running them is left to the program around the library, whose context
//! holds fractional numbers; it hands their results back: `evaluate`
//! says, from the results of the expressions run so far, which expression
//! runs next or what the decision is, and `decide` is the decision over the
//! verdicts of the three lists.

use crate::text::push_str;
use vstd::prelude::*;

verus! {

/// The outcome of evaluating a crate against policy expressions.
#[derive(Debug, Clone)]
pub struct EvaluationOutcome {
    pub accepted: bool,
    pub reasons: Vec<String>,
}

impl EvaluationOutcome {
    /// The texts of the reasons.
    pub open spec fn reason_texts(&self) -> Seq<Seq<char>> {
        self.reasons@.map_values(|r: String| r@)
    }

    pub fn new(accepted: bool, reasons: Vec<String>) -> (r: Self)
        ensures
            r.accepted == accepted,
            r.reasons@ == reasons@,
    {
        EvaluationOutcome { accepted, reasons }
    }
}

/// The outcome of evaluating a single expression.
#[derive(Debug, Clone)]
pub struct ExpressionOutcome {
    pub name: String,
    pub description: String,
    pub result: bool,
}

/// The text of an expression outcome: `name: description`, with
/// ` (failed)` after the name when the expression did not hold.
pub open spec fn outcome_text(name: Seq<char>, description: Seq<char>, result: bool) -> Seq<char> {
    if result {
        name + seq![':', ' '] + description
    } else {
        name + seq![' ', '(', 'f', 'a', 'i', 'l', 'e', 'd', ')', ':', ' '] + description
    }
}

impl ExpressionOutcome {
    pub fn new(name: String, description: String, result: bool) -> (r: Self)
        ensures
            r.name@ == name@,
            r.description@ == description@,
            r.result == result,
    {
        ExpressionOutcome { name, description, result }
    }

    /// The outcome as text (what the report shows for it).
    pub fn to_text(&self) -> (r: String)
        ensures
            r@ == outcome_text(self.name@, self.description@, self.result),
    {
        let mut r = self.name.clone();
        if self.result {
            proof { reveal_strlit(": "); }
            push_str(&mut r, ": ");
        } else {
            proof { reveal_strlit(" (failed): "); }
            push_str(&mut r, " (failed): ");
        }
        push_str(&mut r, self.description.as_str());
        r
    }
}

#[verifier::external_type_specification]
#[verifier::external_body]
pub struct ExProgram(cel_interpreter::Program);

/// What `cel_interpreter::Program::compile` gives for a source text: nothing
/// when it parses, the text of the parse errors otherwise.
pub uninterp spec fn cel_parse_errors(text: Seq<char>) -> Option<Seq<char>>;

/// Compiles a CEL program with `Program::compile`; on failure, keeps the
/// text of the parse errors (their `Display`). The contract names the
/// outcome, which depends on the text alone. It does not say that the
/// parser returns on every text: that was not settled by reading its source.
#[verifier::external_body]
fn cel_compile(text: &str) -> (r: Result<cel_interpreter::Program, String>)
    ensures
        r is Ok <==> cel_parse_errors(text@) is None,
        r matches Err(e) ==> cel_parse_errors(text@) == Some(e@),
{
    cel_interpreter::Program::compile(text).map_err(|e| e.to_string())
}

/// A boolean expression, compiled once, that is evaluated against a crate's
/// metrics.
pub struct Expression {
    name: String,
    description: Option<String>,
    points: Option<u32>,
    program: cel_interpreter::Program,
    expression_string: String,
}

/// The error for an expression that does not parse.
pub open spec fn parse_error_text(name: Seq<char>, errors: Seq<char>) -> Seq<char> {
    seq!['C', 'o', 'u', 'l', 'd', ' ', 'n', 'o', 't', ' ', 'p', 'a', 'r', 's', 'e', ' ', 'e', 'x', 'p', 'r', 'e',
        's', 's', 'i', 'o', 'n', ' ', '\''] + name + seq!['\'', ':', ' '] + errors
}

impl Expression {
    pub closed spec fn spec_name(&self) -> Seq<char> {
        self.name@
    }

    pub closed spec fn spec_description(&self) -> Option<Seq<char>> {
        match self.description {
            Some(d) => Some(d@),
            None => None,
        }
    }

    pub closed spec fn spec_points(&self) -> Option<u32> {
        self.points
    }

    pub closed spec fn spec_expression(&self) -> Seq<char> {
        self.expression_string@
    }

    /// Creates an expression by compiling its text; fails exactly when the
    /// text is not a CEL program, with the parse errors.
    pub fn new(name: String, description: Option<String>, expression: String, points: Option<u32>) -> (r: Result<Self, String>)
        ensures
            r is Ok <==> cel_parse_errors(expression@) is None,
            r matches Ok(e) ==> e.spec_name() == name@ && e.spec_expression() == expression@
                && e.spec_points() == points
                && e.spec_description() == (match description { Some(d) => Some(d@), None => None::<Seq<char>> }),
            r matches Err(m) ==> m@ == parse_error_text(name@, cel_parse_errors(expression@)->0),
    {
        match cel_compile(expression.as_str()) {
            Ok(program) => Ok(Expression { name, description, points, program, expression_string: expression }),
            Err(errs) => {
                proof { reveal_strlit("Could not parse expression '"); reveal_strlit("': "); }
                let mut m = String::new();
                push_str(&mut m, "Could not parse expression '");
                push_str(&mut m, name.as_str());
                push_str(&mut m, "': ");
                push_str(&mut m, errs.as_str());
                assert(m@ =~= parse_error_text(name@, errs@));
                Err(m)
            },
        }
    }

    /// The compiled program.
    pub closed spec fn spec_program(&self) -> cel_interpreter::Program {
        self.program
    }

    /// The compiled program, which the program around the library runs.
    pub fn program(&self) -> (r: &cel_interpreter::Program)
        ensures
            *r == self.spec_program(),
    {
        &self.program
    }

    pub fn name(&self) -> (r: &str)
        ensures
            r@ == self.spec_name(),
    {
        self.name.as_str()
    }

    pub fn description(&self) -> (r: Option<&str>)
        ensures
            r matches Some(d) ==> self.spec_description() == Some(d@),
            r is None ==> self.spec_description() is None,
    {
        match &self.description {
            Some(d) => Some(d.as_str()),
            None => None,
        }
    }

    pub fn points(&self) -> (r: Option<u32>)
        ensures
            r == self.spec_points(),
    {
        self.points
    }

    pub fn expression(&self) -> (r: &str)
        ensures
            r@ == self.spec_expression(),
    {
        self.expression_string.as_str()
    }

    /// The reason given when this expression decides: `name: description`,
    /// or `name: expression` when there is no description.
    pub open spec fn spec_reason(&self) -> Seq<char> {
        self.spec_name() + seq![':', ' '] + match self.spec_description() {
            Some(d) => d,
            None => self.spec_expression(),
        }
    }

    /// The reason given when this expression decides.
    pub fn reason(&self) -> (r: String)
        ensures
            r@ == self.spec_reason(),
    {
        let mut r = self.name.clone();
        proof { reveal_strlit(": "); }
        push_str(&mut r, ": ");
        match &self.description {
            Some(d) => push_str(&mut r, d.as_str()),
            None => push_str(&mut r, self.expression_string.as_str()),
        }
        r
    }
}

/// What running a CEL program gave: a boolean, or another value (by its
/// debug text).
pub enum CelValue {
    Bool(bool),
    Other(String),
}

/// The error for an expression that could not be evaluated.
pub open spec fn execution_error_text(name: Seq<char>, cause: Seq<char>) -> Seq<char> {
    seq!['C', 'o', 'u', 'l', 'd', ' ', 'n', 'o', 't', ' ', 'e', 'v', 'a', 'l', 'u', 'a', 't', 'e', ' ', 'e', 'x',
        'p', 'r', 'e', 's', 's', 'i', 'o', 'n', ' ', '\''] + name + seq!['\'', ':', ' '] + cause
}

/// The error for an expression that gave something other than a boolean.
pub open spec fn not_boolean_text(name: Seq<char>, value: Seq<char>) -> Seq<char> {
    seq!['E', 'x', 'p', 'r', 'e', 's', 's', 'i', 'o', 'n', ' ', '\''] + name
        + seq!['\'', ' ', 'd', 'i', 'd', ' ', 'n', 'o', 't', ' ', 'r', 'e', 't', 'u', 'r', 'n', ' ', 'a', ' ', 'b',
        'o', 'o', 'l', 'e', 'a', 'n', ',', ' ', 'g', 'o', 't', ' ', '\''] + value
        + seq!['\'', ' ', 'i', 'n', 's', 't', 'e', 'a', 'd']
}

/// What an expression's run means for the decision: the boolean it gave, or
/// an error naming the expression.
pub open spec fn verdict_of(name: Seq<char>, run: Result<CelValue, String>) -> Result<bool, Seq<char>> {
    match run {
        Ok(CelValue::Bool(b)) => Ok(b),
        Ok(CelValue::Other(v)) => Err(not_boolean_text(name, v@)),
        Err(e) => Err(execution_error_text(name, e@)),
    }
}

/// The verdict of an expression: the boolean its program gave, or an error
/// naming the expression.
pub fn expression_verdict(name: &str, run: &Result<CelValue, String>) -> (r: Result<bool, String>)
    ensures
        match (r, verdict_of(name@, *run)) {
            (Ok(b), Ok(c)) => b == c,
            (Err(m), Err(t)) => m@ == t,
            _ => false,
        },
{
    match run {
        Ok(CelValue::Bool(b)) => Ok(*b),
        Ok(CelValue::Other(v)) => {
            proof {
                reveal_strlit("Expression '");
                reveal_strlit("' did not return a boolean, got '");
                reveal_strlit("' instead");
            }
            let mut m = String::new();
            push_str(&mut m, "Expression '");
            push_str(&mut m, name);
            push_str(&mut m, "' did not return a boolean, got '");
            push_str(&mut m, v.as_str());
            push_str(&mut m, "' instead");
            assert(m@ =~= not_boolean_text(name@, v@));
            Err(m)
        },
        Err(e) => {
            proof {
                reveal_strlit("Could not evaluate expression '");
                reveal_strlit("': ");
            }
            let mut m = String::new();
            push_str(&mut m, "Could not evaluate expression '");
            push_str(&mut m, name);
            push_str(&mut m, "': ");
            push_str(&mut m, e.as_str());
            assert(m@ =~= execution_error_text(name@, e@));
            Err(m)
        },
    }
}

/// An expression's reason text and its verdict.
pub struct Verdict {
    pub reason: String,
    pub result: Result<bool, String>,
}

/// The verdict as plain values.
pub open spec fn verdict_view(v: Verdict) -> (Seq<char>, Result<bool, Seq<char>>) {
    (v.reason@, match v.result {
        Ok(b) => Ok(b),
        Err(e) => Err(e@),
    })
}

/// The first position from `i` on whose verdict is not `Ok(value)`.
pub open spec fn first_other(vs: Seq<(Seq<char>, Result<bool, Seq<char>>)>, value: bool, i: int) -> Option<int>
    decreases vs.len() - i,
{
    if i < 0 || i >= vs.len() {
        None
    } else if vs[i].1 == Ok::<bool, Seq<char>>(value) {
        first_other(vs, value, i + 1)
    } else {
        Some(i)
    }
}

/// The reason given when no expression is defined.
pub open spec fn no_expressions_text() -> Seq<char> {
    seq!['N', 'o', ' ', 'e', 'v', 'a', 'l', 'u', 'a', 't', 'i', 'o', 'n', ' ', 'e', 'x', 'p', 'r', 'e', 's', 's',
        'i', 'o', 'n', 's', ' ', 'd', 'e', 'f', 'i', 'n', 'e', 'd']
}

/// The decision, as plain values: acceptance and reasons, or the error.
///
/// 1. The first deny-if-any expression that holds denies the crate.
/// 2. Otherwise the first accept-if-any expression that holds accepts it.
/// 3. Otherwise, with no expressions at all, the crate is not accepted.
/// 4. Otherwise the first accept-if-all expression that does not hold
///    denies it; when all hold, it is accepted with all their reasons.
///
/// An expression that fails before one decides makes the decision fail.
pub open spec fn decision(
    deny: Seq<(Seq<char>, Result<bool, Seq<char>>)>,
    any: Seq<(Seq<char>, Result<bool, Seq<char>>)>,
    all: Seq<(Seq<char>, Result<bool, Seq<char>>)>,
) -> Result<(bool, Seq<Seq<char>>), Seq<char>> {
    match first_other(deny, false, 0) {
        Some(i) => match deny[i].1 {
            Err(e) => Err(e),
            Ok(_) => Ok((false, seq![deny[i].0])),
        },
        None => match first_other(any, false, 0) {
            Some(i) => match any[i].1 {
                Err(e) => Err(e),
                Ok(_) => Ok((true, seq![any[i].0])),
            },
            None => if deny.len() == 0 && any.len() == 0 && all.len() == 0 {
                Ok((false, seq![no_expressions_text()]))
            } else {
                match first_other(all, true, 0) {
                    Some(i) => match all[i].1 {
                        Err(e) => Err(e),
                        Ok(_) => Ok((false, seq![all[i].0])),
                    },
                    None => Ok((true, all.map_values(|v: (Seq<char>, Result<bool, Seq<char>>)| v.0))),
                }
            },
        },
    }
}

/// The outcome as plain values.
pub open spec fn outcome_view(r: Result<EvaluationOutcome, String>) -> Result<(bool, Seq<Seq<char>>), Seq<char>> {
    match r {
        Ok(o) => Ok((o.accepted, o.reason_texts())),
        Err(e) => Err(e@),
    }
}

/// Looks for the first verdict from `start` on that is not `Ok(value)`.
fn find_other(vs: &[Verdict], value: bool) -> (r: Option<usize>)
    ensures
        r matches Some(i) ==> i < vs@.len(),
        match (r, first_other(vs@.map_values(|v: Verdict| verdict_view(v)), value, 0)) {
            (Some(i), Some(j)) => i == j,
            (None, None) => true,
            _ => false,
        },
{
    let ghost views = vs@.map_values(|v: Verdict| verdict_view(v));
    let mut i: usize = 0;
    while i < vs.len()
        invariant
            i <= vs@.len(),
            views == vs@.map_values(|v: Verdict| verdict_view(v)),
            first_other(views, value, 0) == first_other(views, value, i as int),
        decreases vs@.len() - i,
    {
        let matches = match &vs[i].result {
            Ok(b) => *b == value,
            Err(_) => false,
        };
        assert(views[i as int] == verdict_view(vs@[i as int]));
        if !matches {
            return Some(i);
        }
        i = i + 1;
    }
    None
}

/// The decision over the verdicts of the three lists of expressions (see
/// `decision`).
pub fn decide(deny: &[Verdict], any: &[Verdict], all: &[Verdict]) -> (r: Result<EvaluationOutcome, String>)
    ensures
        outcome_view(r) == decision(
            deny@.map_values(|v: Verdict| verdict_view(v)),
            any@.map_values(|v: Verdict| verdict_view(v)),
            all@.map_values(|v: Verdict| verdict_view(v)),
        ),
{
    let ghost dv = deny@.map_values(|v: Verdict| verdict_view(v));
    let ghost av = any@.map_values(|v: Verdict| verdict_view(v));
    let ghost lv = all@.map_values(|v: Verdict| verdict_view(v));
    match find_other(deny, false) {
        Some(i) => {
            assert(dv[i as int] == verdict_view(deny@[i as int]));
            return match &deny[i].result {
                Err(e) => Err(e.clone()),
                Ok(_) => {
                    let reasons = vec![deny[i].reason.clone()];
                    assert(reasons@.map_values(|r: String| r@) =~= seq![dv[i as int].0]);
                    Ok(EvaluationOutcome::new(false, reasons))
                },
            };
        },
        None => {},
    }
    match find_other(any, false) {
        Some(i) => {
            assert(av[i as int] == verdict_view(any@[i as int]));
            return match &any[i].result {
                Err(e) => Err(e.clone()),
                Ok(_) => {
                    let reasons = vec![any[i].reason.clone()];
                    assert(reasons@.map_values(|r: String| r@) =~= seq![av[i as int].0]);
                    Ok(EvaluationOutcome::new(true, reasons))
                },
            };
        },
        None => {},
    }
    if deny.len() == 0 && any.len() == 0 && all.len() == 0 {
        proof { reveal_strlit("No evaluation expressions defined"); }
        let text = "No evaluation expressions defined".to_owned();
        assert(text@ =~= no_expressions_text());
        let reasons = vec![text];
        assert(reasons@.map_values(|r: String| r@) =~= seq![no_expressions_text()]);
        return Ok(EvaluationOutcome::new(false, reasons));
    }
    match find_other(all, true) {
        Some(i) => {
            assert(lv[i as int] == verdict_view(all@[i as int]));
            match &all[i].result {
                Err(e) => Err(e.clone()),
                Ok(_) => {
                    let reasons = vec![all[i].reason.clone()];
                    assert(reasons@.map_values(|r: String| r@) =~= seq![lv[i as int].0]);
                    Ok(EvaluationOutcome::new(false, reasons))
                },
            }
        },
        None => {
            let mut reasons: Vec<String> = Vec::new();
            let mut k: usize = 0;
            while k < all.len()
                invariant
                    k <= all@.len(),
                    lv == all@.map_values(|v: Verdict| verdict_view(v)),
                    reasons@.len() == k,
                    forall|j: int| 0 <= j < k ==> #[trigger] reasons@[j]@ == lv[j].0,
                decreases all@.len() - k,
            {
                assert(lv[k as int] == verdict_view(all@[k as int]));
                reasons.push(all[k].reason.clone());
                k = k + 1;
            }
            assert(reasons@.map_values(|r: String| r@) =~= lv.map_values(|v: (Seq<char>, Result<bool, Seq<char>>)| v.0));
            Ok(EvaluationOutcome::new(true, reasons))
        },
    }
}

/// Two lists of verdicts agree but for the texts of their errors.
pub open spec fn same_shape(a: Seq<(Seq<char>, Result<bool, Seq<char>>)>, b: Seq<(Seq<char>, Result<bool, Seq<char>>)>) -> bool {
    &&& a.len() == b.len()
    &&& forall|i: int| 0 <= i < a.len() ==> (#[trigger] a[i]).0 == b[i].0
        && (a[i].1 is Ok <==> b[i].1 is Ok)
        && (a[i].1 is Ok ==> a[i].1 == b[i].1)
}

/// Two decisions agree but for the text of an error.
pub open spec fn same_outcome(a: Result<(bool, Seq<Seq<char>>), Seq<char>>, b: Result<(bool, Seq<Seq<char>>), Seq<char>>) -> bool {
    match (a, b) {
        (Ok(x), Ok(y)) => x == y,
        (Err(_), Err(_)) => true,
        _ => false,
    }
}

/// `first_other` looks only at whether verdicts are `Ok(value)`.
proof fn lemma_first_other_shape(a: Seq<(Seq<char>, Result<bool, Seq<char>>)>, b: Seq<(Seq<char>, Result<bool, Seq<char>>)>, value: bool, i: int)
    requires
        same_shape(a, b),
    ensures
        first_other(a, value, i) == first_other(b, value, i),
    decreases a.len() - i,
{
    if 0 <= i < a.len() {
        assert(a[i].0 == b[i].0);
        lemma_first_other_shape(a, b, value, i + 1);
    }
}

/// Decisions over verdicts that agree but for error texts agree but for
/// the text of an error.
pub proof fn lemma_decision_shape(
    d1: Seq<(Seq<char>, Result<bool, Seq<char>>)>,
    a1: Seq<(Seq<char>, Result<bool, Seq<char>>)>,
    l1: Seq<(Seq<char>, Result<bool, Seq<char>>)>,
    d2: Seq<(Seq<char>, Result<bool, Seq<char>>)>,
    a2: Seq<(Seq<char>, Result<bool, Seq<char>>)>,
    l2: Seq<(Seq<char>, Result<bool, Seq<char>>)>,
)
    requires
        same_shape(d1, d2),
        same_shape(a1, a2),
        same_shape(l1, l2),
    ensures
        same_outcome(decision(d1, a1, l1), decision(d2, a2, l2)),
{
    lemma_first_other_shape(d1, d2, false, 0);
    lemma_first_other_shape(a1, a2, false, 0);
    lemma_first_other_shape(l1, l2, true, 0);
    lemma_first_other(d1, false, 0);
    lemma_first_other(a1, false, 0);
    lemma_first_other(l1, true, 0);
    if let Some(i) = first_other(d1, false, 0) {
        assert(d1[i].0 == d2[i].0);
    } else if let Some(i) = first_other(a1, false, 0) {
        assert(a1[i].0 == a2[i].0);
    } else if let Some(i) = first_other(l1, true, 0) {
        assert(l1[i].0 == l2[i].0);
    } else {
        assert(l1.map_values(|v: (Seq<char>, Result<bool, Seq<char>>)| v.0) =~= l2.map_values(|v: (Seq<char>, Result<bool, Seq<char>>)| v.0));
    }
}

/// The three lists of expressions.
#[derive(Debug, Clone, Copy, PartialEq, Eq, Structural)]
pub enum ExpressionList {
    DenyIfAny,
    AcceptIfAny,
    AcceptIfAll,
}

/// What an evaluation does next: run the expression at a position of a list
/// and hand its result back, or nothing more, with the decision.
#[derive(Debug)]
pub enum EvaluationStep {
    Run(ExpressionList, usize),
    Done(Result<EvaluationOutcome, String>),
}

/// The next step as plain values.
pub enum StepView {
    Run(ExpressionList, nat),
    Done(Result<(bool, Seq<Seq<char>>), Seq<char>>),
}

pub open spec fn step_view(r: EvaluationStep) -> StepView {
    match r {
        EvaluationStep::Run(list, k) => StepView::Run(list, k as nat),
        EvaluationStep::Done(o) => StepView::Done(outcome_view(o)),
    }
}

/// The results from position `n` on (none when there are not that many).
pub open spec fn results_from(runs: Seq<Result<CelValue, String>>, n: int) -> Seq<Result<CelValue, String>> {
    if runs.len() <= n { Seq::empty() } else { runs.skip(n) }
}

/// The verdicts of the expressions of a list that have a result: each
/// expression's reason and what its result means (see `verdict_of`).
pub open spec fn verdicts(exprs: Seq<Expression>, runs: Seq<Result<CelValue, String>>) -> Seq<(Seq<char>, Result<bool, Seq<char>>)> {
    Seq::new(
        if exprs.len() <= runs.len() { exprs.len() } else { runs.len() },
        |i: int| (exprs[i].spec_reason(), verdict_of(exprs[i].spec_name(), runs[i])),
    )
}

/// The step after the results `runs` of the expressions run so far, in run
/// order: the deny-if-any expressions, then the accept-if-any ones, then the
/// accept-if-all ones. A list runs in order until one of its expressions
/// decides (see `decision`) or fails; the next list runs only when the
/// earlier ones ran out without deciding. Once nothing more needs to run,
/// the step is the decision over the verdicts of the expressions that ran.
pub open spec fn next_step(
    deny: Seq<Expression>,
    any: Seq<Expression>,
    all: Seq<Expression>,
    runs: Seq<Result<CelValue, String>>,
) -> StepView {
    let dv = verdicts(deny, runs);
    let av = verdicts(any, results_from(runs, deny.len() as int));
    let lv = verdicts(all, results_from(runs, (deny.len() + any.len()) as int));
    if first_other(dv, false, 0) is None && dv.len() < deny.len() {
        StepView::Run(ExpressionList::DenyIfAny, dv.len())
    } else if first_other(dv, false, 0) is None && first_other(av, false, 0) is None && av.len() < any.len() {
        StepView::Run(ExpressionList::AcceptIfAny, av.len())
    } else if first_other(dv, false, 0) is None && first_other(av, false, 0) is None
        && first_other(lv, true, 0) is None && lv.len() < all.len() {
        StepView::Run(ExpressionList::AcceptIfAll, lv.len())
    } else {
        StepView::Done(decision(dv, av, lv))
    }
}

/// The verdicts of the expressions of a list whose results start at `start`.
fn verdicts_of(exprs: &[Expression], runs: &[Result<CelValue, String>], start: usize) -> (r: Vec<Verdict>)
    ensures
        r@.map_values(|v: Verdict| verdict_view(v)) == verdicts(exprs@, results_from(runs@, start as int)),
        r@.len() <= exprs@.len(),
{
    let ghost rs = results_from(runs@, start as int);
    let avail: usize = if runs.len() <= start { 0 } else { runs.len() - start };
    let n: usize = if exprs.len() <= avail { exprs.len() } else { avail };
    let mut out: Vec<Verdict> = Vec::new();
    let mut k: usize = 0;
    while k < n
        invariant
            k <= n,
            n <= exprs@.len(),
            n == (if exprs@.len() <= rs.len() { exprs@.len() } else { rs.len() }),
            rs == results_from(runs@, start as int),
            n > 0 ==> start + n <= runs@.len() && rs == runs@.skip(start as int),
            runs@.len() <= usize::MAX,
            out@.len() == k,
            forall|j: int| 0 <= j < k ==> verdict_view(#[trigger] out@[j])
                == (exprs@[j].spec_reason(), verdict_of(exprs@[j].spec_name(), rs[j])),
        decreases n - k,
    {
        let result = expression_verdict(exprs[k].name(), &runs[start + k]);
        assert(rs[k as int] == runs@[start + k]);
        out.push(Verdict { reason: exprs[k].reason(), result });
        k = k + 1;
    }
    assert(out@.map_values(|v: Verdict| verdict_view(v)) =~= verdicts(exprs@, rs));
    out
}

/// Whether a verdict is not `Ok(value)`.
fn decides(vs: &Vec<Verdict>, value: bool) -> (r: bool)
    ensures
        r == (first_other(vs@.map_values(|v: Verdict| verdict_view(v)), value, 0) is Some),
{
    find_other(vs.as_slice(), value).is_some()
}

/// The next step of the evaluation of the three lists of expressions, from
/// the results of the expressions run so far (see `next_step`). The program
/// around the library runs what a `Run` step names, against the crate's
/// variables (see `policy_variables`), adds the result and asks again; a
/// `Done` step holds the decision.
pub fn evaluate(
    deny_if_any: &[Expression],
    accept_if_any: &[Expression],
    accept_if_all: &[Expression],
    runs: &[Result<CelValue, String>],
) -> (r: EvaluationStep)
    ensures
        step_view(r) == next_step(deny_if_any@, accept_if_any@, accept_if_all@, runs@),
{
    let rl = runs.len();
    let dv = verdicts_of(deny_if_any, runs, 0);
    proof { assert(results_from(runs@, 0) =~= runs@); }
    let av = verdicts_of(accept_if_any, runs, deny_if_any.len());
    let lv = match deny_if_any.len().checked_add(accept_if_any.len()) {
        Some(start) => verdicts_of(accept_if_all, runs, start),
        None => {
            let v: Vec<Verdict> = Vec::new();
            assert(results_from(runs@, (deny_if_any@.len() + accept_if_any@.len()) as int) =~= Seq::<Result<CelValue, String>>::empty());
            assert(v@.map_values(|x: Verdict| verdict_view(x)) =~= verdicts(accept_if_all@, Seq::<Result<CelValue, String>>::empty()));
            v
        },
    };
    let d_open = !decides(&dv, false);
    let a_open = !decides(&av, false);
    let l_open = !decides(&lv, true);
    if d_open && dv.len() < deny_if_any.len() {
        EvaluationStep::Run(ExpressionList::DenyIfAny, dv.len())
    } else if d_open && a_open && av.len() < accept_if_any.len() {
        EvaluationStep::Run(ExpressionList::AcceptIfAny, av.len())
    } else if d_open && a_open && l_open && lv.len() < accept_if_all.len() {
        EvaluationStep::Run(ExpressionList::AcceptIfAll, lv.len())
    } else {
        EvaluationStep::Done(decide(dv.as_slice(), av.as_slice(), lv.as_slice()))
    }
}

/// Once every expression has a result, the step is the decision over the
/// verdicts of all the expressions.
pub proof fn lemma_all_ran(
    deny: Seq<Expression>,
    any: Seq<Expression>,
    all: Seq<Expression>,
    runs: Seq<Result<CelValue, String>>,
)
    requires
        runs.len() >= deny.len() + any.len() + all.len(),
    ensures
        next_step(deny, any, all, runs) == StepView::Done(decision(
            verdicts(deny, runs),
            verdicts(any, runs.skip(deny.len() as int)),
            verdicts(all, runs.skip((deny.len() + any.len()) as int)),
        )),
        verdicts(deny, runs).len() == deny.len(),
        verdicts(any, runs.skip(deny.len() as int)).len() == any.len(),
        verdicts(all, runs.skip((deny.len() + any.len()) as int)).len() == all.len(),
{
    if runs.len() <= deny.len() {
        assert(any.len() == 0 && all.len() == 0);
        assert(results_from(runs, deny.len() as int) =~= runs.skip(deny.len() as int));
        assert(results_from(runs, (deny.len() + any.len()) as int) =~= runs.skip((deny.len() + any.len()) as int));
    }
    if runs.len() <= deny.len() + any.len() {
        assert(all.len() == 0);
        assert(results_from(runs, (deny.len() + any.len()) as int) =~= runs.skip((deny.len() + any.len()) as int));
    }
}

/// The verdicts of a list over more results start with its verdicts over
/// fewer.
proof fn lemma_verdicts_prefix(exprs: Seq<Expression>, runs: Seq<Result<CelValue, String>>, more: Seq<Result<CelValue, String>>, n: int)
    requires
        0 <= n,
    ensures
        verdicts(exprs, results_from(runs, n)).len() <= verdicts(exprs, results_from(runs + more, n)).len(),
        forall|i: int| 0 <= i < verdicts(exprs, results_from(runs, n)).len()
            ==> #[trigger] verdicts(exprs, results_from(runs, n))[i] == verdicts(exprs, results_from(runs + more, n))[i],
        verdicts(exprs, results_from(runs, n)).len() < exprs.len()
            ==> verdicts(exprs, results_from(runs, n)).len() == (if runs.len() <= n { 0 } else { runs.len() - n }),
{
    let a = results_from(runs, n);
    let b = results_from(runs + more, n);
    assert forall|i: int| 0 <= i < a.len() implies a[i] == b[i] by {
        assert(a[i] == runs[n + i]);
        assert(b[i] == (runs + more)[n + i]);
    }
}

/// A first verdict other than `Ok(value)` among the first verdicts of a list
/// is the first one among all of them.
proof fn lemma_first_other_prefix(
    small: Seq<(Seq<char>, Result<bool, Seq<char>>)>,
    big: Seq<(Seq<char>, Result<bool, Seq<char>>)>,
    value: bool,
)
    requires
        small.len() <= big.len(),
        forall|i: int| 0 <= i < small.len() ==> #[trigger] small[i] == big[i],
    ensures
        first_other(small, value, 0) is Some ==> first_other(big, value, 0) == first_other(small, value, 0),
        small.len() == big.len() ==> small == big,
{
    lemma_first_other(small, value, 0);
    lemma_first_other(big, value, 0);
    if small.len() == big.len() {
        assert(small =~= big);
    }
    if let Some(i) = first_other(small, value, 0) {
        assert(small[i] == big[i]);
        if let Some(j) = first_other(big, value, 0) {
            if j < i {
                assert(small[j] == big[j]);
            }
        }
    }
}

/// Expressions that were not reached do not matter: once the step after
/// some results is the decision, more results leave it unchanged.
pub proof fn lemma_unreached_do_not_matter(
    deny: Seq<Expression>,
    any: Seq<Expression>,
    all: Seq<Expression>,
    runs: Seq<Result<CelValue, String>>,
    more: Seq<Result<CelValue, String>>,
)
    requires
        next_step(deny, any, all, runs) is Done,
    ensures
        next_step(deny, any, all, runs + more) == next_step(deny, any, all, runs),
{
    let nd = deny.len() as int;
    let nl = (deny.len() + any.len()) as int;
    assert(results_from(runs, 0) =~= runs);
    assert(results_from(runs + more, 0) =~= runs + more);
    lemma_verdicts_prefix(deny, runs, more, 0);
    lemma_verdicts_prefix(any, runs, more, nd);
    lemma_verdicts_prefix(all, runs, more, nl);
    let dv = verdicts(deny, runs);
    let av = verdicts(any, results_from(runs, nd));
    let lv = verdicts(all, results_from(runs, nl));
    let dv2 = verdicts(deny, runs + more);
    let av2 = verdicts(any, results_from(runs + more, nd));
    let lv2 = verdicts(all, results_from(runs + more, nl));
    lemma_first_other_prefix(dv, dv2, false);
    lemma_first_other_prefix(av, av2, false);
    lemma_first_other_prefix(lv, lv2, true);
    lemma_first_other(dv, false, 0);
    lemma_first_other(av, false, 0);
    lemma_first_other(lv, true, 0);
    if first_other(dv, false, 0) is Some {
        let i = first_other(dv, false, 0)->0;
        assert(dv[i] == dv2[i]);
    } else {
        assert(dv.len() == deny.len());
        assert(dv == dv2);
        if first_other(av, false, 0) is Some {
            let i = first_other(av, false, 0)->0;
            assert(av[i] == av2[i]);
        } else {
            assert(av.len() == any.len());
            assert(av == av2);
            if first_other(lv, true, 0) is Some {
                let i = first_other(lv, true, 0)->0;
                assert(lv[i] == lv2[i]);
            } else {
                assert(lv.len() == all.len());
                assert(lv == lv2);
            }
        }
    }
}
/// `first_other` finds the first position from `i` on whose verdict is not
/// `Ok(value)`: every position before it has that verdict.
proof fn lemma_first_other(vs: Seq<(Seq<char>, Result<bool, Seq<char>>)>, value: bool, i: int)
    requires
        0 <= i,
    ensures
        match first_other(vs, value, i) {
            Some(j) => i <= j < vs.len() && vs[j].1 != Ok::<bool, Seq<char>>(value)
                && forall|m: int| i <= m < j ==> vs[m].1 == Ok::<bool, Seq<char>>(value),
            None => forall|m: int| i <= m < vs.len() ==> vs[m].1 == Ok::<bool, Seq<char>>(value),
        },
    decreases vs.len() - i,
{
    if i < vs.len() && vs[i].1 == Ok::<bool, Seq<char>>(value) {
        lemma_first_other(vs, value, i + 1);
    }
}

/// A crate is accepted only when no deny-if-any expression held and either
/// an accept-if-any expression held or every accept-if-all expression held;
/// all expressions before the deciding one ran without error.
pub proof fn lemma_accepted_only_when_allowed(
    deny: Seq<(Seq<char>, Result<bool, Seq<char>>)>,
    any: Seq<(Seq<char>, Result<bool, Seq<char>>)>,
    all: Seq<(Seq<char>, Result<bool, Seq<char>>)>,
)
    ensures
        decision(deny, any, all) matches Ok((accepted, _)) && accepted ==> {
            &&& forall|m: int| 0 <= m < deny.len() ==> deny[m].1 == Ok::<bool, Seq<char>>(false)
            &&& (exists|m: int| 0 <= m < any.len() && any[m].1 == Ok::<bool, Seq<char>>(true))
                || (forall|m: int| 0 <= m < all.len() ==> all[m].1 == Ok::<bool, Seq<char>>(true))
        },
{
    lemma_first_other(deny, false, 0);
    lemma_first_other(any, false, 0);
    lemma_first_other(all, true, 0);
    if let Some(j) = first_other(any, false, 0) {
        if any[j].1 is Ok {
            let b = any[j].1->Ok_0;
            assert(any[j].1 == Ok::<bool, Seq<char>>(b));
            assert(b);
            assert(any[j].1 == Ok::<bool, Seq<char>>(true));
        }
    }
}

/// The first deny-if-any expression that holds, after expressions that ran
/// and did not hold, denies the crate with its reason, whatever the other
/// expressions give.
pub proof fn lemma_deny_decides(
    deny: Seq<(Seq<char>, Result<bool, Seq<char>>)>,
    any: Seq<(Seq<char>, Result<bool, Seq<char>>)>,
    all: Seq<(Seq<char>, Result<bool, Seq<char>>)>,
    i: int,
)
    requires
        0 <= i < deny.len(),
        deny[i].1 == Ok::<bool, Seq<char>>(true),
        forall|m: int| 0 <= m < i ==> deny[m].1 == Ok::<bool, Seq<char>>(false),
    ensures
        decision(deny, any, all) == Ok::<(bool, Seq<Seq<char>>), Seq<char>>((false, seq![deny[i].0])),
{
    lemma_first_other(deny, false, 0);
    let j = first_other(deny, false, 0)->0;
    if j < i {
    } else if j > i {
    }
}

} // verus!
