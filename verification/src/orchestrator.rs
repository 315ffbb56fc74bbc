//! The acquisition orchestrator: a state machine that walks the manifest
//! one package at a time, driving one fetch and one integrity check per
//! package.  Checksum mismatches are soft failures, tallied and gated
//! behind an operator confirmation at the end of the pass; a transport
//! failure or an unreadable download aborts the whole run at once.
//!
//! The machine itself performs no I/O.  The surrounding program asks
//! `next_action` what to do, performs the fetch, check or prompt, and
//! reports the outcome back through `on_fetch_result`, `on_verify_result`
//! and `on_confirmation`.

use vstd::prelude::*;

verus! {

/// A per-run tally: how many packages completed the fetch + verify pass,
/// and how many of them failed their integrity check.
#[derive(Clone, Copy, Debug, PartialEq, Eq, Structural)]
pub struct AcquisitionReport {
    pub attempted: u32,
    pub failed: u32,
}

/// Where the run stands.
#[derive(Clone, Copy, Debug, PartialEq, Eq, Structural)]
pub enum Phase {
    /// The package at the current index still has to be fetched.
    Fetching,
    /// The package at the current index was fetched and still has to be
    /// checked against its declared checksum.
    Verifying,
    /// Every package was processed and at least one check failed: the
    /// operator must decide whether to proceed regardless.
    Confirming,
    /// The run finished.
    Complete,
    /// The run was halted by a fatal failure or a declined confirmation.
    Aborted,
}

/// The outcome of checking one downloaded package.
#[derive(Clone, Copy, Debug, PartialEq, Eq, Structural)]
pub enum VerifyOutcome {
    /// The computed digest equals the declared one.
    Match,
    /// The digests differ: a soft failure.
    Mismatch,
    /// The downloaded file could not be read back: fatal.
    Unreadable,
}

/// What the surrounding program has to do next.
#[derive(Clone, Copy, Debug, PartialEq, Eq, Structural)]
pub enum Action {
    /// Fetch the package at this manifest index.
    FetchPackage(u32),
    /// Check the package at this manifest index against its checksum.
    VerifyPackage(u32),
    /// Ask the operator whether to proceed despite failed checks.
    AskConfirmation,
    /// Nothing: the run is over, successfully.
    Finished,
    /// Nothing: the run was halted.
    Halted,
}

/// The orchestrator of one acquisition run over a manifest of `total`
/// packages.
#[derive(Clone, Copy, Debug, PartialEq, Eq, Structural)]
pub struct Orchestrator {
    /// How many packages the manifest holds.
    pub total: u32,
    /// The index of the package being processed, equal to `total` once
    /// the pass is over.
    pub current: u32,
    /// The running tally.
    pub report: AcquisitionReport,
    /// Where the run stands.
    pub phase: Phase,
}

impl Orchestrator {
    /// The internal consistency of the machine: the tally never gets
    /// ahead of the pass, and the phase agrees with the position.
    pub open spec fn wf(&self) -> bool {
        &&& self.report.failed <= self.report.attempted
        &&& self.report.attempted <= self.current
        &&& self.current <= self.total
        &&& (self.phase == Phase::Fetching || self.phase == Phase::Verifying)
            ==> (self.current < self.total && self.report.attempted == self.current)
        &&& self.phase == Phase::Confirming
            ==> (self.current == self.total && self.report.attempted == self.total
                && self.report.failed > 0)
        &&& self.phase == Phase::Complete
            ==> (self.current == self.total && self.report.attempted == self.total)
    }

    /// Starts a run over a manifest of `total` packages.  An empty
    /// manifest completes at once; otherwise the first package is up for
    /// fetching.
    pub fn new(total: u32) -> (r: Orchestrator)
        ensures
            r.wf(),
            r.total == total,
            r.current == 0,
            r.report.attempted == 0,
            r.report.failed == 0,
            total == 0 ==> r.phase == Phase::Complete,
            total > 0 ==> r.phase == Phase::Fetching,
    {
        Orchestrator {
            total,
            current: 0,
            report: AcquisitionReport { attempted: 0, failed: 0 },
            phase: if total == 0 { Phase::Complete } else { Phase::Fetching },
        }
    }

    /// What the surrounding program has to do next, given where the run
    /// stands.
    pub fn next_action(&self) -> (r: Action)
        requires
            self.wf(),
        ensures
            self.phase == Phase::Fetching ==> r == Action::FetchPackage(self.current),
            self.phase == Phase::Verifying ==> r == Action::VerifyPackage(self.current),
            self.phase == Phase::Confirming ==> r == Action::AskConfirmation,
            self.phase == Phase::Complete ==> r == Action::Finished,
            self.phase == Phase::Aborted ==> r == Action::Halted,
    {
        match self.phase {
            Phase::Fetching => Action::FetchPackage(self.current),
            Phase::Verifying => Action::VerifyPackage(self.current),
            Phase::Confirming => Action::AskConfirmation,
            Phase::Complete => Action::Finished,
            Phase::Aborted => Action::Halted,
        }
    }

    /// Records the outcome of fetching the current package.  A successful
    /// transfer moves the same package on to verification.  A transport
    /// failure is fatal: the whole run aborts at once, nothing is added
    /// to the tally, and no further package is fetched or verified.
    pub fn on_fetch_result(&mut self, ok: bool)
        requires
            old(self).wf(),
            old(self).phase == Phase::Fetching,
        ensures
            final(self).wf(),
            final(self).total == old(self).total,
            final(self).current == old(self).current,
            final(self).report == old(self).report,
            ok ==> final(self).phase == Phase::Verifying,
            !ok ==> final(self).phase == Phase::Aborted,
    {
        if ok {
            self.phase = Phase::Verifying;
        } else {
            self.phase = Phase::Aborted;
        }
    }

    /// Records the outcome of checking the current package.  A match or a
    /// mismatch counts the package as attempted, a mismatch adds exactly
    /// one soft failure, and in either case the run continues with the
    /// next package (or, after the last one, finishes — behind a
    /// confirmation gate when any check failed).  An unreadable download
    /// is fatal: the run aborts and the tally is left as it was.
    pub fn on_verify_result(&mut self, outcome: VerifyOutcome)
        requires
            old(self).wf(),
            old(self).phase == Phase::Verifying,
        ensures
            final(self).wf(),
            final(self).total == old(self).total,
            outcome == VerifyOutcome::Unreadable ==> {
                &&& final(self).phase == Phase::Aborted
                &&& final(self).report == old(self).report
                &&& final(self).current == old(self).current
            },
            outcome != VerifyOutcome::Unreadable ==> {
                &&& final(self).current == old(self).current + 1
                &&& final(self).report.attempted == old(self).report.attempted + 1
                &&& final(self).report.failed == old(self).report.failed
                    + (if outcome == VerifyOutcome::Mismatch { 1int } else { 0int })
                &&& final(self).phase != Phase::Aborted
                &&& (final(self).current < final(self).total
                    ==> final(self).phase == Phase::Fetching)
                &&& (final(self).current == final(self).total
                    ==> (final(self).phase == if final(self).report.failed > 0 {
                        Phase::Confirming
                    } else {
                        Phase::Complete
                    }))
            },
    {
        match outcome {
            VerifyOutcome::Unreadable => {
                self.phase = Phase::Aborted;
            },
            VerifyOutcome::Match | VerifyOutcome::Mismatch => {
                self.report.attempted = self.report.attempted + 1;
                if matches!(outcome, VerifyOutcome::Mismatch) {
                    self.report.failed = self.report.failed + 1;
                }
                self.current = self.current + 1;
                if self.current < self.total {
                    self.phase = Phase::Fetching;
                } else if self.report.failed > 0 {
                    self.phase = Phase::Confirming;
                } else {
                    self.phase = Phase::Complete;
                }
            },
        }
    }

    /// Records the operator's decision at the confirmation gate: agreeing
    /// completes the run despite the recorded failures, declining aborts
    /// it.
    pub fn on_confirmation(&mut self, proceed: bool)
        requires
            old(self).wf(),
            old(self).phase == Phase::Confirming,
        ensures
            final(self).wf(),
            final(self).total == old(self).total,
            final(self).current == old(self).current,
            final(self).report == old(self).report,
            proceed ==> final(self).phase == Phase::Complete,
            !proceed ==> final(self).phase == Phase::Aborted,
    {
        if proceed {
            self.phase = Phase::Complete;
        } else {
            self.phase = Phase::Aborted;
        }
    }
}

} // verus!
