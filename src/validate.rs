//! The decisions of a validation run over many files: which line a file
//! prints, how files are shared among workers, and the running counts.
use crate::check::{error_text, CheckError, CheckResult};
use crate::text::{nat_text, push_usize};
use vstd::prelude::*;
use vstd::string::*;

verus! {

/// The line printed for a file, if any: nothing for a skipped file, the path
/// and a comma for a file that passed when `verbosity` is above 0, and the
/// path, a comma and the message for a file that failed.
pub open spec fn report_text(
    path: Seq<char>,
    outcome: Result<CheckResult, CheckError>,
    verbosity: u8,
) -> Option<Seq<char>> {
    match outcome {
        Ok(CheckResult::Skipped) => None,
        Ok(CheckResult::Passed) => if verbosity > 0 {
            Some(path + ",\n"@)
        } else {
            None
        },
        Err(e) => Some(path + ","@ + error_text(e) + "\n"@),
    }
}

/// The line printed for a file with display path `path`, if any.
pub fn report_line(path: &str, outcome: &Result<CheckResult, CheckError>, verbosity: u8) -> (r:
    Option<String>)
    ensures
        match r {
            Some(line) => report_text(path@, *outcome, verbosity) == Some(line@),
            None => report_text(path@, *outcome, verbosity) is None,
        },
{
    match outcome {
        Ok(CheckResult::Skipped) => None,
        Ok(CheckResult::Passed) => if verbosity > 0 {
            let mut line = path.to_owned();
            line.append(",\n");
            Some(line)
        } else {
            None
        },
        Err(e) => {
            let mut line = path.to_owned();
            line.append(",");
            line.append(e.message().as_str());
            line.append("\n");
            assert(line@ =~= path@ + ","@ + error_text(*e) + "\n"@);
            Some(line)
        },
    }
}

/// Whether a record with this outcome counts as checked: every one that was
/// not skipped, failures included.
pub open spec fn is_checked(outcome: Result<CheckResult, CheckError>) -> bool {
    outcome != Ok::<CheckResult, CheckError>(CheckResult::Skipped)
}

/// Whether a record with this outcome counts as valid: it passed.
pub open spec fn is_valid(outcome: Result<CheckResult, CheckError>) -> bool {
    outcome == Ok::<CheckResult, CheckError>(CheckResult::Passed)
}

/// How many of `outcomes` count as checked.
pub open spec fn count_checked(outcomes: Seq<Result<CheckResult, CheckError>>) -> nat
    decreases outcomes.len(),
{
    if outcomes.len() == 0 {
        0
    } else {
        count_checked(outcomes.drop_last()) + if is_checked(outcomes.last()) {
            1nat
        } else {
            0nat
        }
    }
}

/// How many of `outcomes` count as valid.
pub open spec fn count_valid(outcomes: Seq<Result<CheckResult, CheckError>>) -> nat
    decreases outcomes.len(),
{
    if outcomes.len() == 0 {
        0
    } else {
        count_valid(outcomes.drop_last()) + if is_valid(outcomes.last()) {
            1nat
        } else {
            0nat
        }
    }
}

/// However the outcomes of a run fall, no more records are valid than were
/// checked, and the checked ones are exactly those that were not skipped.
pub proof fn lemma_valid_within_checked(outcomes: Seq<Result<CheckResult, CheckError>>)
    ensures
        count_valid(outcomes) <= count_checked(outcomes),
        count_checked(outcomes) == outcomes.filter(
            |o: Result<CheckResult, CheckError>| is_checked(o),
        ).len(),
    decreases outcomes.len(),
{
    reveal(Seq::filter);
    if outcomes.len() > 0 {
        lemma_valid_within_checked(outcomes.drop_last());
    }
}

/// The running counts of a validation run.
pub struct Tally {
    pub checked: usize,
    pub valid: usize,
}

impl Tally {
    pub fn new() -> (r: Tally)
        ensures
            r.checked == 0,
            r.valid == 0,
    {
        Tally { checked: 0, valid: 0 }
    }

    /// Counts the outcome of one more record.
    pub fn record(&mut self, outcome: &Result<CheckResult, CheckError>)
        requires
            old(self).valid <= old(self).checked < usize::MAX,
        ensures
            final(self).checked == old(self).checked + if is_checked(*outcome) {
                1int
            } else {
                0int
            },
            final(self).valid == old(self).valid + if is_valid(*outcome) {
                1int
            } else {
                0int
            },
            final(self).valid <= final(self).checked,
    {
        match outcome {
            Ok(CheckResult::Skipped) => {},
            Ok(CheckResult::Passed) => {
                self.checked = self.checked + 1;
                self.valid = self.valid + 1;
            },
            Err(_) => {
                self.checked = self.checked + 1;
            },
        }
    }

    /// `"{valid} / {checked} annotations are valid."`
    pub fn summary(&self) -> (r: String)
        ensures
            r@ == nat_text(self.valid as nat) + " / "@ + nat_text(self.checked as nat)
                + " annotations are valid."@,
    {
        let mut out = String::new();
        push_usize(&mut out, self.valid);
        out.append(" / ");
        push_usize(&mut out, self.checked);
        out.append(" annotations are valid.");
        assert(out@ =~= nat_text(self.valid as nat) + " / "@ + nat_text(self.checked as nat)
            + " annotations are valid."@);
        out
    }
}

/// Counts the outcomes of a run.
pub fn tally(outcomes: &Vec<Result<CheckResult, CheckError>>) -> (t: Tally)
    ensures
        t.checked == count_checked(outcomes@),
        t.valid == count_valid(outcomes@),
        t.valid <= t.checked,
{
    let mut t = Tally::new();
    let mut i: usize = 0;
    while i < outcomes.len()
        invariant
            i <= outcomes@.len(),
            t.checked == count_checked(outcomes@.subrange(0, i as int)),
            t.valid == count_valid(outcomes@.subrange(0, i as int)),
            t.valid <= t.checked <= i,
        decreases outcomes@.len() - i,
    {
        assert(outcomes@.subrange(0, i + 1).drop_last() =~= outcomes@.subrange(0, i as int));
        t.record(&outcomes[i]);
        i = i + 1;
    }
    assert(outcomes@.subrange(0, i as int) =~= outcomes@);
    t
}

/// The number of workers: `requested`, or `physical` when `requested` is 0,
/// and never fewer than one.
pub fn worker_count(requested: usize, physical: usize) -> (r: usize)
    ensures
        r == if requested > 0 {
            requested
        } else if physical > 0 {
            physical
        } else {
            1
        },
{
    if requested > 0 {
        requested
    } else if physical > 0 {
        physical
    } else {
        1
    }
}

/// The ids below `n` that worker `worker` of `workers` takes: `worker`,
/// `worker + workers`, `worker + 2 * workers`, and so on.
pub fn worker_share(worker: usize, workers: usize, n: usize) -> (r: Vec<usize>)
    requires
        workers > 0,
    ensures
        forall|k: int| 0 <= k < r@.len() ==> #[trigger] r@[k] == worker + k * workers && r@[k] < n,
        worker + r@.len() * workers >= n,
{
    let mut ids: Vec<usize> = Vec::new();
    if worker >= n {
        return ids;
    }
    let mut id = worker;
    assert(ids@.len() * workers == 0) by (nonlinear_arith)
        requires
            ids@.len() == 0,
    ;
    loop
        invariant
            workers > 0,
            worker <= id < n,
            id == worker + ids@.len() * workers,
            forall|k: int|
                0 <= k < ids@.len() ==> #[trigger] ids@[k] == worker + k * workers && ids@[k] < n,
        decreases n - id,
    {
        let ghost len = ids@.len();
        ids.push(id);
        assert(worker + (len + 1) * workers == worker + len * workers + workers) by (nonlinear_arith);
        if n - id <= workers {
            return ids;
        }
        id = id + workers;
    }
}

} // verus!
