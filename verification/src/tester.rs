//! The tester: a failure flag and the checks that set it.

use vstd::prelude::*;
use crate::binary64::{is_within, within};
use crate::comparison::Comparison;
use crate::diagnostic::{describe, failure_text, Mismatch};

verus! {

/// The state of a tester.
#[derive(Clone, Copy, Debug, PartialEq, Eq, Structural)]
pub enum Status {
    /// No check has failed since the tester was made or last reset.
    Passing,
    /// At least one check has failed since then.
    Failed,
}

impl Status {
    /// The state after one check. A mismatch leads to `Failed`; a check
    /// that passes changes nothing.
    pub open spec fn after_check(self, mismatch: bool) -> Status {
        if mismatch {
            Status::Failed
        } else {
            self
        }
    }

    /// The state after a run of checks, given for each whether it found a
    /// mismatch.
    pub open spec fn after_checks(self, mismatches: Seq<bool>) -> Status
        decreases mismatches.len(),
    {
        if mismatches.len() == 0 {
            self
        } else {
            self.after_checks(mismatches.drop_last()).after_check(mismatches.last())
        }
    }

    /// The state after a reset.
    pub open spec fn after_reset(self) -> Status {
        Status::Passing
    }
}

/// What a check on a single value finds: nothing where the difference is
/// within the tolerance, a mismatch in every other case, a NaN on either
/// side included.
pub open spec fn scalar_verdict(difference: u64, tolerance: u64) -> Option<Mismatch> {
    if within(difference, tolerance) {
        None
    } else {
        Some(Mismatch::Scalar)
    }
}

/// Whether `report` is what a check with this verdict hands back: nothing
/// for a check that passed, the diagnostic for one that failed.
pub open spec fn announces(
    report: Option<String>,
    message: Seq<char>,
    verdict: Option<Mismatch>,
) -> bool {
    match verdict {
        Some(mismatch) => report matches Some(text) && text@ == failure_text(message, mismatch),
        None => report is None,
    }
}

/// Compares values within a tolerance and remembers whether any
/// comparison failed.
///
/// A failed check does not stop the caller. It hands back the text to
/// print and sets the flag, so that the checks after it still run; the
/// caller asks for the flag when the test is over.
pub struct MCAPTester {
    test_failed_flag: bool,
}

impl View for MCAPTester {
    type V = Status;

    closed spec fn view(&self) -> Status {
        if self.test_failed_flag {
            Status::Failed
        } else {
            Status::Passing
        }
    }
}

impl MCAPTester {
    /// A tester that has seen no failure.
    pub fn new() -> (tester: Self)
        ensures
            tester@ == Status::Passing,
    {
        MCAPTester { test_failed_flag: false }
    }

    /// Whether a check has failed since the tester was made or last reset.
    pub fn has_failed(&self) -> (failed: bool)
        ensures
            failed == (self@ == Status::Failed),
    {
        self.test_failed_flag
    }

    /// Takes note of the verdict of one check.
    fn record(&mut self, verdict: Option<Mismatch>, message: &str) -> (report: Option<String>)
        ensures
            announces(report, message@, verdict),
            final(self)@ == old(self)@.after_check(verdict is Some),
    {
        match verdict {
            Some(mismatch) => {
                self.test_failed_flag = true;
                Some(describe(message, mismatch))
            },
            None => None,
        }
    }

    /// Checks a single value, given by the difference `actual - expected`.
    /// The check passes where `|difference| <= tolerance`: it then hands
    /// back nothing and leaves the tester as it was. In every other case
    /// it hands back the diagnostic and the tester has failed.
    pub fn expect_near_scalar(&mut self, difference: u64, tolerance: u64, message: &str) -> (report:
        Option<String>)
        ensures
            announces(report, message@, scalar_verdict(difference, tolerance)),
            final(self)@ == old(self)@.after_check(!within(difference, tolerance)),
            within(difference, tolerance) ==> report is None && final(self)@ == old(self)@,
            !within(difference, tolerance) ==> report is Some && final(self)@ == Status::Failed,
    {
        let verdict = if is_within(difference, tolerance) {
            None
        } else {
            Some(Mismatch::Scalar)
        };
        self.record(verdict, message)
    }

    /// Checks two arrays without saying where they differ. Where the
    /// shapes differ, the diagnostic says so and no difference is read.
    /// Otherwise the check fails if any difference exceeds the tolerance.
    pub fn expect_near(&mut self, comparison: &Comparison, tolerance: u64, message: &str) -> (report:
        Option<String>)
        ensures
            announces(report, message@, comparison@.bulk_verdict(tolerance)),
            final(self)@ == old(self)@.after_check(comparison@.bulk_verdict(tolerance) is Some),
            report is Some <==> comparison@.bulk_verdict(tolerance) is Some,
    {
        let verdict = comparison.bulk_verdict(tolerance);
        self.record(verdict, message)
    }

    /// Checks two arrays and names the first element that differs. Where
    /// the shapes differ, the diagnostic says so and no difference is
    /// read. Otherwise the check fails at the first difference, in
    /// row-major order, that exceeds the tolerance, and the diagnostic
    /// gives its row and column.
    pub fn expect_near_2d(
        &mut self,
        comparison: &Comparison,
        tolerance: u64,
        message: &str,
    ) -> (report: Option<String>)
        ensures
            announces(report, message@, comparison@.located_verdict(tolerance)),
            final(self)@ == old(self)@.after_check(comparison@.located_verdict(tolerance) is Some),
            report is Some <==> comparison@.located_verdict(tolerance) is Some,
    {
        let verdict = comparison.located_verdict(tolerance);
        self.record(verdict, message)
    }

    /// What to abort the test with: the notice `Test failed.` once a check
    /// has failed, nothing before.
    pub fn failure_notice(&self) -> (notice: Option<String>)
        ensures
            self@ == Status::Failed ==> (notice matches Some(text) && text@ == "Test failed."@),
            self@ == Status::Passing ==> notice is None,
    {
        if self.test_failed_flag {
            Some(String::from_str("Test failed."))
        } else {
            None
        }
    }

    /// Lets a test that has passed go on. A test that has failed must not
    /// get here: it is aborted with [`MCAPTester::failure_notice`].
    pub fn throw_error_if_test_failed(&self)
        requires
            self@ == Status::Passing,
    {
    }

    /// Forgets every failure.
    pub fn reset_test_failed_flag(&mut self)
        ensures
            final(self)@ == old(self)@.after_reset(),
            final(self)@ == Status::Passing,
    {
        self.test_failed_flag = false;
    }
}

impl Default for MCAPTester {
    fn default() -> (tester: Self)
        ensures
            tester@ == Status::Passing,
    {
        MCAPTester::new()
    }
}

/// Resetting twice is resetting once: the tester is `Passing` after the
/// first reset and after the second.
pub proof fn lemma_reset_is_idempotent(status: Status)
    ensures
        status.after_reset() == Status::Passing,
        status.after_reset().after_reset() == status.after_reset(),
{
}

/// A failure stays: once a tester has failed, no run of checks, whatever
/// they find, makes it pass again.
pub proof fn lemma_failure_is_kept(status: Status, mismatches: Seq<bool>)
    requires
        status == Status::Failed,
    ensures
        status.after_checks(mismatches) == Status::Failed,
    decreases mismatches.len(),
{
    if mismatches.len() > 0 {
        lemma_failure_is_kept(status, mismatches.drop_last());
    }
}

/// A run of checks that all pass leaves the tester as it was.
pub proof fn lemma_passing_checks_change_nothing(status: Status, mismatches: Seq<bool>)
    requires
        forall|k: int| 0 <= k < mismatches.len() ==> !mismatches[k],
    ensures
        status.after_checks(mismatches) == status,
    decreases mismatches.len(),
{
    if mismatches.len() > 0 {
        lemma_passing_checks_change_nothing(status, mismatches.drop_last());
    }
}

} // verus!
