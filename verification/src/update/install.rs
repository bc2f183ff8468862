//! The order of an installation run: files are downloaded and their hashes
//! checked before they are installed, a failed check or installation stops
//! the run, and the version record is written last, after every file is in
//! place.

use vstd::prelude::*;

verus! {

/// How downloads and installations interleave.
#[derive(Clone, Copy, Debug, PartialEq, Eq, Structural)]
pub enum InstallOrder {
    /// Every file is downloaded and checked before the first is installed
    /// (the application update).
    VerifyAllFirst,
    /// Each file is installed right after its own download is checked (data
    /// files and module libraries).
    OneByOne,
}

/// Where a run stands.
#[derive(Clone, Copy, Debug, PartialEq, Eq, Structural)]
pub enum RunPhase {
    /// Files remain to be downloaded or installed.
    Transferring,
    /// Every file is installed; the record remains to be written.
    Recording,
    /// The record is written.
    Done,
    /// A check or an installation failed; nothing more is done.
    Aborted,
}

/// The state of an installation run of `total` files: the first `verified`
/// files are downloaded with a matching hash, the first `installed` are in
/// place.
#[derive(Clone, Copy, Debug, PartialEq, Eq, Structural)]
pub struct InstallRun {
    pub order: InstallOrder,
    pub total: usize,
    pub verified: usize,
    pub installed: usize,
    pub phase: RunPhase,
}

/// What the caller does next.
#[derive(Clone, Copy, Debug, PartialEq, Eq, Structural)]
pub enum InstallAction {
    /// Download file `i` and check its hash.
    Download(usize),
    /// Install file `i` from its checked download.
    Install(usize),
    /// Write the version record.
    WriteRecord,
    /// The run succeeded.
    Finish,
    /// The run failed; install nothing and write no record.
    Abort,
}

/// What the caller reports back.
#[derive(Clone, Copy, Debug, PartialEq, Eq, Structural)]
pub enum InstallEvent {
    /// The requested download finished; `true` when its hash matched.
    Downloaded(bool),
    /// The requested installation finished; `true` when it succeeded.
    Installed(bool),
    /// The record was written.
    RecordWritten,
}

/// The consistent states: counts within the total, nothing installed
/// before it is verified, and the order's rule on when installing starts.
pub open spec fn run_wf(s: InstallRun) -> bool {
    &&& s.installed <= s.verified <= s.total
    &&& s.order == InstallOrder::OneByOne ==> s.verified <= s.installed + 1
    &&& s.order == InstallOrder::VerifyAllFirst && s.installed > 0 ==> s.verified == s.total
    &&& (s.phase == RunPhase::Recording || s.phase == RunPhase::Done) ==> s.installed == s.total
    &&& s.phase == RunPhase::Transferring ==> s.installed < s.total
}

/// The phase once the counts are as given and nothing failed.
pub open spec fn phase_after(total: usize, installed: usize) -> RunPhase {
    if installed == total { RunPhase::Recording } else { RunPhase::Transferring }
}

/// A new run of `total` files.
pub open spec fn run_start(order: InstallOrder, total: usize) -> InstallRun {
    InstallRun { order, total, verified: 0, installed: 0, phase: phase_after(total, 0) }
}

/// The next action of a run.
pub open spec fn run_action(s: InstallRun) -> InstallAction {
    match s.phase {
        RunPhase::Aborted => InstallAction::Abort,
        RunPhase::Done => InstallAction::Finish,
        RunPhase::Recording => InstallAction::WriteRecord,
        RunPhase::Transferring => if s.verified > s.installed && (s.order == InstallOrder::OneByOne
            || s.verified == s.total) {
            InstallAction::Install(s.installed)
        } else {
            InstallAction::Download(s.verified)
        },
    }
}

/// The run after an event answering its current action; an event that does
/// not answer the current action leaves the run as it is.
pub open spec fn run_next(s: InstallRun, e: InstallEvent) -> InstallRun {
    match (run_action(s), e) {
        (InstallAction::Download(_), InstallEvent::Downloaded(ok)) => if ok {
            InstallRun { verified: (s.verified + 1) as usize, ..s }
        } else {
            InstallRun { phase: RunPhase::Aborted, ..s }
        },
        (InstallAction::Install(_), InstallEvent::Installed(ok)) => if ok {
            InstallRun {
                installed: (s.installed + 1) as usize,
                phase: phase_after(s.total, (s.installed + 1) as usize),
                ..s
            }
        } else {
            InstallRun { phase: RunPhase::Aborted, ..s }
        },
        (InstallAction::WriteRecord, InstallEvent::RecordWritten) => InstallRun { phase: RunPhase::Done, ..s },
        _ => s,
    }
}

impl InstallRun {
    /// A new run of `total` files in the given order.
    pub fn start(order: InstallOrder, total: usize) -> (r: Self)
        ensures
            r == run_start(order, total),
            run_wf(r),
    {
        let phase = if total == 0 { RunPhase::Recording } else { RunPhase::Transferring };
        InstallRun { order, total, verified: 0, installed: 0, phase }
    }

    /// The next action (see `run_action`).
    pub fn action(&self) -> (r: InstallAction)
        ensures
            r == run_action(*self),
    {
        match self.phase {
            RunPhase::Aborted => InstallAction::Abort,
            RunPhase::Done => InstallAction::Finish,
            RunPhase::Recording => InstallAction::WriteRecord,
            RunPhase::Transferring => {
                let all_first = match self.order {
                    InstallOrder::OneByOne => false,
                    InstallOrder::VerifyAllFirst => true,
                };
                if self.verified > self.installed && (!all_first || self.verified == self.total) {
                    InstallAction::Install(self.installed)
                } else {
                    InstallAction::Download(self.verified)
                }
            },
        }
    }

    /// The run after an event (see `run_next`).
    pub fn on_event(&self, e: InstallEvent) -> (r: Self)
        requires
            run_wf(*self),
        ensures
            r == run_next(*self, e),
            run_wf(r),
    {
        proof {
            lemma_run_step(*self, e);
        }
        let a = self.action();
        match (a, e) {
            (InstallAction::Download(_), InstallEvent::Downloaded(ok)) => if ok {
                InstallRun { verified: self.verified + 1, ..*self }
            } else {
                InstallRun { phase: RunPhase::Aborted, ..*self }
            },
            (InstallAction::Install(_), InstallEvent::Installed(ok)) => if ok {
                let installed = self.installed + 1;
                let phase = if installed == self.total { RunPhase::Recording } else { RunPhase::Transferring };
                InstallRun { installed, phase, ..*self }
            } else {
                InstallRun { phase: RunPhase::Aborted, ..*self }
            },
            (InstallAction::WriteRecord, InstallEvent::RecordWritten) => InstallRun { phase: RunPhase::Done, ..*self },
            _ => *self,
        }
    }
}

/// Every step keeps a run consistent, and a new run is consistent.
pub proof fn lemma_run_step(s: InstallRun, e: InstallEvent)
    requires
        run_wf(s),
    ensures
        run_wf(run_next(s, e)),
        run_wf(run_start(s.order, s.total)),
{
}

/// A file is installed only from a checked download: an install action
/// names the next file to install, whose download matched its hash, and in
/// the order that checks every file first, every download has matched.
pub proof fn lemma_install_after_check(s: InstallRun, i: usize)
    requires
        run_wf(s),
        run_action(s) == InstallAction::Install(i),
    ensures
        i == s.installed,
        i < s.verified <= s.total,
        s.order == InstallOrder::VerifyAllFirst ==> s.verified == s.total,
{
}

/// Downloads come in file order, each file once: a download action names
/// the first file not yet checked, and in the one-by-one order every
/// checked file is installed before the next download.
pub proof fn lemma_download_in_order(s: InstallRun, i: usize)
    requires
        run_wf(s),
        run_action(s) == InstallAction::Download(i),
    ensures
        i == s.verified,
        i < s.total,
        s.order == InstallOrder::OneByOne ==> s.installed == s.verified,
{
}

/// The record is written last: only when every file is installed, and the
/// run then finishes.
pub proof fn lemma_record_last(s: InstallRun)
    requires
        run_wf(s),
        run_action(s) == InstallAction::WriteRecord,
    ensures
        s.installed == s.total,
        s.verified == s.total,
        run_action(run_next(s, InstallEvent::RecordWritten)) == InstallAction::Finish,
{
}

/// A failed check or installation aborts the run, and an aborted run
/// installs nothing more and writes no record, whatever is reported.
pub proof fn lemma_failure_aborts(s: InstallRun, e: InstallEvent)
    requires
        run_wf(s),
    ensures
        (run_action(s) is Download && e == InstallEvent::Downloaded(false)) ==> run_action(run_next(s, e))
            == InstallAction::Abort,
        (run_action(s) is Install && e == InstallEvent::Installed(false)) ==> run_action(run_next(s, e))
            == InstallAction::Abort,
        run_action(s) == InstallAction::Abort ==> run_next(s, e) == s,
{
}

} // verus!
