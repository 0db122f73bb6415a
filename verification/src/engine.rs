//! The orchestration engine: collects one outcome per probe in completion
//! order, keeps the run of successful reports, and sequences the fix phase —
//! one confirmation at a time, a fix only where the run permits one. The
//! host performs the I/O around it and reports every outcome back; every
//! decision is taken here.

use crate::output::Output;
use crate::output::rendered;
use crate::text::affirmative;
use crate::text::is_affirmative;
use vstd::prelude::*;

verus! {

/// A probe failure, as reported by the host: the check could not inspect the
/// environment, or the fix failed partway.
pub struct ProbeError {
    pub message: String,
}

impl ProbeError {
    pub fn new(message: String) -> (e: ProbeError)
        ensures
            e.message == message,
    {
        ProbeError { message }
    }

    /// The error line printed when a check fails.
    pub fn check_failure_line(&self) -> (r: String)
        ensures
            r@ == "Failed to run command: "@ + self.message@,
    {
        let mut r = "Failed to run command: ".to_owned();
        r.append(self.message.as_str());
        proof {
            assert(r@ =~= "Failed to run command: "@ + self.message@);
        }
        r
    }

    /// The error line printed when applying a fix fails.
    pub fn fix_failure_line(&self) -> (r: String)
        ensures
            r@ == "Failed to apply fix: "@ + self.message@,
    {
        let mut r = "Failed to apply fix: ".to_owned();
        r.append(self.message.as_str());
        proof {
            assert(r@ =~= "Failed to apply fix: "@ + self.message@);
        }
        r
    }
}

/// The confirmation prompt shown before a fix.
pub fn confirm_prompt() -> (r: String)
    ensures
        r@ == "\u{1b}[33mConfirm? [y/N]:\u{1b}[0m "@,
{
    "\u{1b}[33mConfirm? [y/N]:\u{1b}[0m ".to_owned()
}

/// The line printed when the user declines a fix.
pub fn skip_marker() -> (r: String)
    ensures
        r@ == "\u{1b}[31mSkipped\u{1b}[0m\n"@,
{
    "\u{1b}[31mSkipped\u{1b}[0m\n".to_owned()
}

/// The line printed when a fix ran to completion.
pub fn done_marker() -> (r: String)
    ensures
        r@ == "\u{1b}[32mDone\u{1b}[0m\n"@,
{
    "\u{1b}[32mDone\u{1b}[0m\n".to_owned()
}

/// Where one collected probe stands in the fix phase.
#[derive(Clone, Copy, Debug, PartialEq, Eq, Structural)]
pub enum FixState {
    /// Check succeeded; the fix phase has not reached this entry.
    Collected,
    /// Visited: no fix on offer, or applying was not requested.
    NotRequested,
    /// The user is being asked for confirmation.
    AwaitingConfirm,
    /// Confirmed: the host is applying the fix now.
    Applying,
    /// The fix ran to completion.
    Fixed,
    /// The fix failed partway.
    FixFailed,
    /// The user declined, or confirmation could no longer be read.
    Skipped,
}

/// A probe in confirmation or mid-fix.
pub open spec fn entry_active(s: FixState) -> bool {
    s == FixState::AwaitingConfirm || s == FixState::Applying
}

/// A state the fix phase has finished with.
pub open spec fn entry_terminal(s: FixState) -> bool {
    s == FixState::NotRequested || s == FixState::Fixed || s == FixState::FixFailed || s
        == FixState::Skipped
}

/// The fix was started (and possibly finished).
pub open spec fn fix_started(s: FixState) -> bool {
    s == FixState::Applying || s == FixState::Fixed || s == FixState::FixFailed
}

/// One retained run entry: the report a successful check produced, the handle
/// of the probe that produced it (the host later calls back into that same
/// probe, which holds the state its fix needs), and the entry's fix state.
pub struct RunEntry {
    pub probe: usize,
    pub output: Output,
    pub state: FixState,
}

/// What the engine tells the host to do next in the fix phase.
#[derive(Clone, Copy, Debug, PartialEq, Eq, Structural)]
pub enum FixAction {
    /// The fix phase is over.
    Done,
    /// The entry at hand needs no fix (or none was requested); move on.
    Pass,
    /// Show this probe's fix and ask the user for confirmation.
    Prompt(usize),
}

/// The run: per-probe outcomes in completion order, and the fix cursor.
pub struct Engine {
    /// Whether applying fixes was requested at all.
    pub apply: bool,
    /// The retained reports of successful checks, in arrival order.
    pub run: Vec<RunEntry>,
    /// How many check failures were reported.
    pub errors: Ghost<int>,
    /// How many outcomes were collected in all.
    pub messages: Ghost<int>,
    /// The fix phase's position in `run`: everything before it is settled.
    pub cursor: usize,
    /// Confirmation could not be read; no further fix may be assumed wanted.
    pub aborted: bool,
}

impl Engine {
    /// The engine's invariant: the tally balances, everything behind the
    /// cursor is settled, everything ahead untouched, and a fix is only ever
    /// in flight at the cursor, with the apply flag set and a fix on offer.
    pub open spec fn wf(&self) -> bool {
        &&& self.cursor <= self.run@.len()
        &&& self.messages@ == self.run@.len() + self.errors@
        &&& self.errors@ >= 0
        &&& forall|i: int| 0 <= i < self.cursor ==> entry_terminal(#[trigger] self.run@[i].state)
        &&& forall|i: int|
            self.cursor < i < self.run@.len() ==> (#[trigger] self.run@[i].state)
                == FixState::Collected
        &&& (self.cursor < self.run@.len() ==> (self.run@[self.cursor as int].state
            == FixState::Collected || entry_active(self.run@[self.cursor as int].state)))
        &&& forall|i: int|
            0 <= i < self.run@.len() && (entry_active(#[trigger] self.run@[i].state) || fix_started(
                self.run@[i].state,
            )) ==> self.apply && self.run@[i].output.fix_available
    }

    pub fn new(apply: bool) -> (e: Engine)
        ensures
            e.wf(),
            e.apply == apply,
            e.run@.len() == 0,
            e.errors@ == 0,
            e.messages@ == 0,
            e.cursor == 0,
            e.aborted == false,
    {
        Engine {
            apply,
            run: Vec::new(),
            errors: Ghost(0),
            messages: Ghost(0),
            cursor: 0,
            aborted: false,
        }
    }

    /// Takes one successful check outcome: retains the probe's report at the
    /// end of the run and hands back the rendered block to print.
    pub fn collect_ok(&mut self, probe: usize, output: Output) -> (block: String)
        requires
            old(self).wf(),
        ensures
            final(self).wf(),
            block@ == rendered(output.title@, output.content@, output.fix_available),
            final(self).run@ == old(self).run@.push(
                RunEntry { probe, output, state: FixState::Collected },
            ),
            final(self).errors@ == old(self).errors@,
            final(self).messages@ == old(self).messages@ + 1,
            final(self).apply == old(self).apply,
            final(self).cursor == old(self).cursor,
            final(self).aborted == old(self).aborted,
    {
        let block = output.render();
        self.run.push(RunEntry { probe, output, state: FixState::Collected });
        self.messages = Ghost(self.messages@ + 1);
        block
    }

    /// Takes one failed check outcome: the probe stays out of the run for
    /// good, only the error line to print comes back.
    pub fn collect_err(&mut self, error: &ProbeError) -> (line: String)
        requires
            old(self).wf(),
        ensures
            final(self).wf(),
            line@ == "Failed to run command: "@ + error.message@,
            final(self).run@ == old(self).run@,
            final(self).errors@ == old(self).errors@ + 1,
            final(self).messages@ == old(self).messages@ + 1,
            final(self).apply == old(self).apply,
            final(self).cursor == old(self).cursor,
            final(self).aborted == old(self).aborted,
    {
        self.errors = Ghost(self.errors@ + 1);
        self.messages = Ghost(self.messages@ + 1);
        error.check_failure_line()
    }

    /// The fix runner's next step. Entries are visited strictly in run
    /// order: an entry with no fix on offer, or with applying not requested,
    /// is passed over; otherwise the host is told to prompt. After an abort,
    /// and after the last entry, the phase is over.
    pub fn next_action(&mut self) -> (a: FixAction)
        requires
            old(self).wf(),
        ensures
            final(self).wf(),
            final(self).apply == old(self).apply,
            final(self).errors@ == old(self).errors@,
            final(self).messages@ == old(self).messages@,
            final(self).aborted == old(self).aborted,
            (a == FixAction::Done) == (old(self).aborted || old(self).cursor >= old(
                self,
            ).run@.len()),
            a == FixAction::Done ==> *final(self) == *old(self),
            a == FixAction::Pass ==> {
                let cur = old(self).cursor as int;
                &&& old(self).run@[cur].state == FixState::Collected
                &&& !(old(self).apply && old(self).run@[cur].output.fix_available)
                &&& final(self).cursor == old(self).cursor + 1
                &&& final(self).run@ == old(self).run@.update(
                    cur,
                    RunEntry { state: FixState::NotRequested, ..old(self).run@[cur] },
                )
            },
            a matches FixAction::Prompt(p) ==> {
                let cur = old(self).cursor as int;
                &&& p == old(self).run@[cur].probe
                &&& old(self).apply && old(self).run@[cur].output.fix_available
                &&& final(self).cursor == old(self).cursor
                &&& final(self).run@ == old(self).run@.update(
                    cur,
                    RunEntry {
                        state: if old(self).run@[cur].state == FixState::Applying {
                            FixState::Applying
                        } else {
                            FixState::AwaitingConfirm
                        },
                        ..old(self).run@[cur]
                    },
                )
            },
    {
        if self.aborted || self.cursor >= self.run.len() {
            return FixAction::Done;
        }
        let cur = self.cursor;
        let state = self.run[cur].state;
        if state == FixState::Collected && !(self.apply && self.run[cur].output.fix_available) {
            self.run[cur].state = FixState::NotRequested;
            self.cursor = cur + 1;
            proof {
                assert(final(self).run@ == old(self).run@.update(
                    cur as int,
                    RunEntry { state: FixState::NotRequested, ..old(self).run@[cur as int] },
                ));
            }
            FixAction::Pass
        } else {
            if state != FixState::Applying {
                self.run[cur].state = FixState::AwaitingConfirm;
            }
            let probe = self.run[cur].probe;
            proof {
                assert(final(self).run@ =~= old(self).run@.update(
                    cur as int,
                    RunEntry {
                        state: if old(self).run@[cur as int].state == FixState::Applying {
                            FixState::Applying
                        } else {
                            FixState::AwaitingConfirm
                        },
                        ..old(self).run@[cur as int]
                    },
                ));
            }
            FixAction::Prompt(probe)
        }
    }

    /// Takes the user's answer to the pending confirmation. Anything but an
    /// explicit affirmative declines: the entry is skipped for good and the
    /// runner moves on. On an affirmative the host applies the fix and
    /// reports back through [`Self::fix_result`]. Without a pending
    /// confirmation the call changes nothing.
    pub fn confirm(&mut self, answer: &str) -> (go: bool)
        requires
            old(self).wf(),
        ensures
            final(self).wf(),
            final(self).apply == old(self).apply,
            final(self).errors@ == old(self).errors@,
            final(self).messages@ == old(self).messages@,
            final(self).aborted == old(self).aborted,
            if old(self).cursor < old(self).run@.len() && old(self).run@[old(
                self,
            ).cursor as int].state == FixState::AwaitingConfirm {
                let cur = old(self).cursor as int;
                if affirmative(answer@) {
                    &&& go == true
                    &&& final(self).cursor == old(self).cursor
                    &&& final(self).run@ == old(self).run@.update(
                        cur,
                        RunEntry { state: FixState::Applying, ..old(self).run@[cur] },
                    )
                } else {
                    &&& go == false
                    &&& final(self).cursor == old(self).cursor + 1
                    &&& final(self).run@ == old(self).run@.update(
                        cur,
                        RunEntry { state: FixState::Skipped, ..old(self).run@[cur] },
                    )
                }
            } else {
                go == false && *final(self) == *old(self)
            },
    {
        if self.cursor < self.run.len() && self.run[self.cursor].state
            == FixState::AwaitingConfirm {
            let cur = self.cursor;
            if is_affirmative(answer) {
                self.run[cur].state = FixState::Applying;
                true
            } else {
                self.run[cur].state = FixState::Skipped;
                self.cursor = cur + 1;
                false
            }
        } else {
            false
        }
    }

    /// Takes the host's report on the fix it just applied; the entry is
    /// settled either way and the runner moves on. Without a fix in flight
    /// the call changes nothing.
    pub fn fix_result(&mut self, success: bool)
        requires
            old(self).wf(),
        ensures
            final(self).wf(),
            final(self).apply == old(self).apply,
            final(self).errors@ == old(self).errors@,
            final(self).messages@ == old(self).messages@,
            final(self).aborted == old(self).aborted,
            if old(self).cursor < old(self).run@.len() && old(self).run@[old(
                self,
            ).cursor as int].state == FixState::Applying {
                let cur = old(self).cursor as int;
                &&& final(self).cursor == old(self).cursor + 1
                &&& final(self).run@ == old(self).run@.update(
                    cur,
                    RunEntry {
                        state: if success {
                            FixState::Fixed
                        } else {
                            FixState::FixFailed
                        },
                        ..old(self).run@[cur]
                    },
                )
            } else {
                *final(self) == *old(self)
            },
    {
        if self.cursor < self.run.len() && self.run[self.cursor].state == FixState::Applying {
            let cur = self.cursor;
            self.run[cur].state = if success {
                FixState::Fixed
            } else {
                FixState::FixFailed
            };
            self.cursor = cur + 1;
        }
    }

    /// Confirmation can no longer be read: no further consent may be
    /// assumed, so the remaining fix phase is abandoned. Fixes already
    /// applied stay applied; a pending confirmation counts as declined.
    pub fn abort_confirmations(&mut self)
        requires
            old(self).wf(),
        ensures
            final(self).wf(),
            final(self).apply == old(self).apply,
            final(self).errors@ == old(self).errors@,
            final(self).messages@ == old(self).messages@,
            final(self).aborted == true,
            if old(self).cursor < old(self).run@.len() && old(self).run@[old(
                self,
            ).cursor as int].state == FixState::AwaitingConfirm {
                let cur = old(self).cursor as int;
                &&& final(self).cursor == old(self).cursor + 1
                &&& final(self).run@ == old(self).run@.update(
                    cur,
                    RunEntry { state: FixState::Skipped, ..old(self).run@[cur] },
                )
            } else {
                final(self).cursor == old(self).cursor && final(self).run@ == old(self).run@
            },
    {
        if self.cursor < self.run.len() && self.run[self.cursor].state
            == FixState::AwaitingConfirm {
            let cur = self.cursor;
            self.run[cur].state = FixState::Skipped;
            self.cursor = cur + 1;
        }
        self.aborted = true;
    }

    pub fn run_len(&self) -> (n: usize)
        ensures
            n == self.run@.len(),
    {
        self.run.len()
    }

    pub fn entry_state(&self, i: usize) -> (s: FixState)
        requires
            i < self.run@.len(),
        ensures
            s == self.run@[i as int].state,
    {
        self.run[i].state
    }

    pub fn entry_probe(&self, i: usize) -> (p: usize)
        requires
            i < self.run@.len(),
        ensures
            p == self.run@[i as int].probe,
    {
        self.run[i].probe
    }
}

/// Every collected outcome is accounted for, exactly once: the retained run
/// entries and the reported check failures together tally with the messages
/// taken in. (Together with `collect_err` leaving the run unchanged, this is
/// why a probe whose check failed is never seen again.)
pub proof fn lemma_messages_accounted(e: &Engine)
    requires
        e.wf(),
    ensures
        e.messages@ == e.run@.len() + e.errors@,
{
}

/// The fix phase is serialized: no two entries are ever in confirmation or
/// mid-fix at once, so no two prompts can interleave.
pub proof fn lemma_fix_serialized(e: &Engine, i: int, j: int)
    requires
        e.wf(),
        0 <= i < e.run@.len(),
        0 <= j < e.run@.len(),
        entry_active(e.run@[i].state),
        entry_active(e.run@[j].state),
    ensures
        i == j,
{
    assert(!entry_terminal(e.run@[i].state));
    assert(!entry_terminal(e.run@[j].state));
}

/// Without the apply flag, no fix is ever started — and none even reaches
/// confirmation — whatever the probes reported.
pub proof fn lemma_no_fix_without_flag(e: &Engine, i: int)
    requires
        e.wf(),
        !e.apply,
        0 <= i < e.run@.len(),
    ensures
        !fix_started(e.run@[i].state),
        !entry_active(e.run@[i].state),
{
}

/// A fix is only ever started for an entry of the run — a probe whose check
/// succeeded — whose report offered a fix, and only when applying was
/// requested.
pub proof fn lemma_fix_only_when_offered(e: &Engine, i: int)
    requires
        e.wf(),
        0 <= i < e.run@.len(),
        fix_started(e.run@[i].state),
    ensures
        e.apply,
        e.run@[i].output.fix_available,
{
}

} // verus!
