//! Checking one record against a rule set.
use crate::collections::{flag_items, FlagSet};
use crate::expr::{eval, eval_spec, Expr};
use crate::record::{is_skipped, label_bindings, record_bindings, skipped_by_flags, Record};
use crate::text::{int_text, join, join_with, push_int};
use vstd::prelude::*;
use vstd::string::*;

verus! {

/// The outcome of a record that raised no error.
#[derive(Clone, Copy, Debug, PartialEq, Eq, Structural)]
pub enum CheckResult {
    /// The flag gate left the record out: no rule was evaluated.
    Skipped,
    /// Every rule held.
    Passed,
}

/// Why a record failed.
#[derive(Debug, PartialEq, Eq)]
pub enum CheckError {
    FileNotFound,
    InvalidJson(String),
    /// One rule failed: its text and its two operand values.
    EvaluatedFalse(String, (isize, isize)),
    /// Several rules failed, in the order of the rule set.
    EvaluatedMultipleFalses(Vec<(String, (isize, isize))>),
}

/// A failed rule: its text and the two operand values of its comparison.
pub type Failure = (Seq<char>, (isize, isize));

pub open spec fn failure_view(list: Seq<(String, (isize, isize))>) -> Seq<Failure> {
    list.map_values(|f: (String, (isize, isize))| (f.0@, f.1))
}

/// The rules among the first `n` that fail under `vars`, in order.
pub open spec fn failures_upto(
    rules: Seq<String>,
    asts: Seq<Expr>,
    vars: Seq<(Seq<char>, isize)>,
    n: int,
) -> Seq<Failure>
    decreases n,
{
    if n <= 0 {
        Seq::empty()
    } else {
        let prev = failures_upto(rules, asts, vars, n - 1);
        match eval_spec(asts[n - 1], vars) {
            Ok(_) => prev,
            Err(vals) => prev.push((rules[n - 1]@, vals)),
        }
    }
}

/// The rules that fail under `vars`; each rule text is paired with the
/// expression at the same position, and unpaired entries are not checked.
pub open spec fn failures(
    rules: Seq<String>,
    asts: Seq<Expr>,
    vars: Seq<(Seq<char>, isize)>,
) -> Seq<Failure> {
    failures_upto(
        rules,
        asts,
        vars,
        if rules.len() < asts.len() {
            rules.len() as int
        } else {
            asts.len() as int
        },
    )
}

/// `r` reports the failures `f`: `Passed` when there are none, `EvaluatedFalse`
/// for exactly one, and `EvaluatedMultipleFalses` with all of them otherwise.
pub open spec fn reports(r: Result<CheckResult, CheckError>, f: Seq<Failure>) -> bool {
    match r {
        Ok(CheckResult::Passed) => f.len() == 0,
        Ok(CheckResult::Skipped) => false,
        Err(CheckError::EvaluatedFalse(rule, vals)) => f.len() == 1 && f[0] == (rule@, vals),
        Err(CheckError::EvaluatedMultipleFalses(list)) => f.len() >= 2 && failure_view(list@)
            == f,
        Err(_) => false,
    }
}

/// The verdict on a record that has been read.
pub open spec fn verdict_holds(
    r: Result<CheckResult, CheckError>,
    rules: Seq<String>,
    asts: Seq<Expr>,
    record: Record,
    required: Seq<Seq<char>>,
    ignored: Seq<Seq<char>>,
) -> bool {
    if skipped_by_flags(record.flags@, required, ignored) {
        r == Ok::<CheckResult, CheckError>(CheckResult::Skipped)
    } else {
        reports(r, failures(rules, asts, record_bindings(record.shapes@)))
    }
}

/// Checks a record against a rule set.
///
/// `rules[i]` is the text of the rule whose expression is `asts[i]`. A record
/// that the flag gate leaves out is `Skipped`; otherwise every rule is
/// evaluated under the record's bindings and the failures are reported.
pub fn check_json(
    rules: &Vec<String>,
    asts: &Vec<Expr>,
    json_data: Record,
    flags: &FlagSet,
    ignores: &FlagSet,
) -> (r: Result<CheckResult, CheckError>)
    requires
        json_data.shapes@.len() <= isize::MAX,
    ensures
        verdict_holds(r, rules@, asts@, json_data, flag_items(*flags), flag_items(*ignores)),
{
    if is_skipped(&json_data.flags, flags, ignores) {
        return Ok(CheckResult::Skipped);
    }
    let vars = label_bindings(&json_data.shapes);
    let ghost bound = record_bindings(json_data.shapes@);
    let n = if rules.len() < asts.len() {
        rules.len()
    } else {
        asts.len()
    };
    let mut errors: Vec<(String, (isize, isize))> = Vec::new();
    let mut i: usize = 0;
    while i < n
        invariant
            i <= n,
            n <= rules@.len(),
            n <= asts@.len(),
            n == (if rules@.len() < asts@.len() {
                rules@.len()
            } else {
                asts@.len()
            }),
            crate::expr::bindings_view(vars@) == bound,
            failure_view(errors@) == failures_upto(rules@, asts@, bound, i as int),
        decreases n - i,
    {
        let ghost before = errors@;
        match eval(&asts[i], &vars) {
            Ok(_) => {},
            Err(vals) => {
                errors.push((rules[i].clone(), vals));
                assert(failure_view(errors@) =~= failure_view(before).push((rules@[i as int]@, vals)));
            },
        }
        i = i + 1;
    }
    if errors.len() == 0 {
        Ok(CheckResult::Passed)
    } else if errors.len() == 1 {
        let ghost all = errors@;
        match errors.pop() {
            Some((rule, vals)) => {
                assert(failure_view(all)[0] == (rule@, vals));
                Err(CheckError::EvaluatedFalse(rule, vals))
            },
            None => Ok(CheckResult::Passed),
        }
    } else {
        Err(CheckError::EvaluatedMultipleFalses(errors))
    }
}

/// The name given to how a string reads when written with `{:?}`: in double
/// quotes, with special characters escaped.
pub uninterp spec fn debug_text(s: Seq<char>) -> Seq<char>;

/// Relies on `<str as Debug>::fmt`: the quoted, escaped form of `s` depends on
/// its characters alone.
#[verifier::external_body]
fn debug_quote(s: &String) -> (r: String)
    ensures
        r@ == debug_text(s@),
{
    format!("{:?}", s)
}

/// `"rule": lhs vs. rhs`
pub open spec fn failure_text(rule: Seq<char>, vals: (isize, isize)) -> Seq<char> {
    "\""@ + rule + "\": "@ + int_text(vals.0 as int) + " vs. "@ + int_text(vals.1 as int)
}

/// The message of an error, as it is shown for a record.
pub open spec fn error_text(e: CheckError) -> Seq<char> {
    match e {
        CheckError::FileNotFound => "FileNotFound"@,
        CheckError::InvalidJson(detail) => "InvalidJson("@ + debug_text(detail@) + ")"@,
        CheckError::EvaluatedFalse(rule, vals) => "Unsatisfied rule; "@ + failure_text(rule@, vals),
        CheckError::EvaluatedMultipleFalses(list) => "Unsatisfied rules;"@ + join_with(
            failure_view(list@).map_values(|f: Failure| " "@ + failure_text(f.0, f.1)),
            ", "@,
        ),
    }
}

fn push_failure(out: &mut String, rule: &String, vals: (isize, isize))
    ensures
        final(out)@ == old(out)@ + failure_text(rule@, vals),
{
    out.append("\"");
    out.append(rule.as_str());
    out.append("\": ");
    push_int(out, vals.0);
    out.append(" vs. ");
    push_int(out, vals.1);
    assert(final(out)@ =~= old(out)@ + failure_text(rule@, vals));
}

impl CheckError {
    /// The message shown for this error.
    pub fn message(&self) -> (r: String)
        ensures
            r@ == error_text(*self),
    {
        match self {
            CheckError::FileNotFound => "FileNotFound".to_owned(),
            CheckError::InvalidJson(detail) => {
                let mut out = "InvalidJson(".to_owned();
                out.append(debug_quote(detail).as_str());
                out.append(")");
                out
            },
            CheckError::EvaluatedFalse(rule, vals) => {
                let mut out = "Unsatisfied rule; ".to_owned();
                push_failure(&mut out, rule, *vals);
                out
            },
            CheckError::EvaluatedMultipleFalses(list) => {
                let ghost items = failure_view(list@).map_values(
                    |f: Failure| " "@ + failure_text(f.0, f.1),
                );
                let mut parts: Vec<String> = Vec::new();
                let mut i: usize = 0;
                while i < list.len()
                    invariant
                        i <= list@.len(),
                        items == failure_view(list@).map_values(
                            |f: Failure| " "@ + failure_text(f.0, f.1),
                        ),
                        parts@.map_values(|p: String| p@) =~= items.subrange(0, i as int),
                    decreases list@.len() - i,
                {
                    let mut part = " ".to_owned();
                    push_failure(&mut part, &list[i].0, list[i].1);
                    let ghost before = parts@;
                    parts.push(part);
                    proof {
                        assert(failure_view(list@)[i as int] == (list@[i as int].0@, list@[i as int].1));
                        assert(items.subrange(0, i + 1) =~= items.subrange(0, i as int).push(
                            items[i as int],
                        ));
                        assert(parts@.map_values(|p: String| p@) =~= before.map_values(
                            |p: String| p@,
                        ).push(part@));
                    }
                    i = i + 1;
                }
                let joined = join(&parts, ", ");
                let mut out = "Unsatisfied rules;".to_owned();
                out.append(joined.as_str());
                assert(items.subrange(0, i as int) =~= items);
                out
            },
        }
    }
}

} // verus!
