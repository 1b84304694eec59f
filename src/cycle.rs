use vstd::prelude::*;

use crate::counters::Counters;
use crate::device::{bump, counters_le, route, Device, State};
use crate::tty::Command;

verus! {

/// Seconds the device needs to boot after a reboot.
pub const BOOT_SECONDS: u64 = 60;

/// Seconds the BP cuff runs before its state is read again.
pub const BP_RUN_SECONDS: u64 = 75;

/// The byte that ends the lifecycle menu's banner.
pub const BANNER_END: u8 = 91;

/// What the caller does next for a running test cycle.
#[derive(Debug)]
pub enum Action {
    /// Write each command, dropping one response after each.
    Send(Vec<Command>),
    /// Write the commands, dropping a response after each but the last; then
    /// read answers to the last through `bp_answer` until one settles.
    AskBp(Vec<Command>),
    /// As `AskBp`, with `temp_answer`.
    AskTemp(Vec<Command>),
    /// Wait this many seconds.
    Sleep(u64),
    /// Read and drop output up to this byte.
    DrainUntil(u8),
    /// Drive the relay high.
    RelayHigh,
    /// Drive the relay low.
    RelayLow,
    /// Write the counter file.
    Save,
    /// Nothing to do; ask for the next step.
    Continue,
    /// The cycle is over.
    Done,
}

/// Where a test cycle stands. A phase that carries a flag holds the reading
/// taken before the stimulus.
#[derive(Clone, Copy, Debug, PartialEq, Eq, Structural)]
pub enum Phase {
    Boot,
    Wait,
    Enter,
    Banner,
    BpBefore,
    BpStimulus,
    BpSettle(bool),
    BpAfter(bool),
    BpRecord(bool),
    TempHigh,
    TempBefore,
    TempLow,
    TempAfter(bool),
    TempRecord(bool),
    Finish,
    Persist,
    Done,
}

/// One run of the test sequence: reboot, enter the lifecycle menu, the BP
/// tests, the temperature tests, and a final reboot.
#[derive(Clone, Copy, Debug)]
pub struct TestCycle {
    phase: Phase,
    bp_left: u64,
    temp_left: u64,
}

/// The phase that follows the banner and each test: the next BP test, else
/// the next temperature test, else the final reboot.
pub open spec fn next_test(bp_left: u64, temp_left: u64) -> Phase {
    if bp_left > 0 {
        Phase::BpBefore
    } else if temp_left > 0 {
        Phase::TempHigh
    } else {
        Phase::Finish
    }
}

/// The steps that remain after the banner.
pub open spec fn after_banner(bp_left: nat, temp_left: nat) -> nat {
    5 * bp_left + 5 * temp_left + 2
}

/// The phase that follows `p`, given the answer to the last query and the
/// tests left before the step.
pub open spec fn next_phase(p: Phase, answer: bool, bp_left: u64, temp_left: u64) -> Phase {
    match p {
        Phase::Boot => Phase::Wait,
        Phase::Wait => Phase::Enter,
        Phase::Enter => Phase::Banner,
        Phase::Banner => next_test(bp_left, temp_left),
        Phase::BpBefore => Phase::BpStimulus,
        Phase::BpStimulus => Phase::BpSettle(answer),
        Phase::BpSettle(b) => Phase::BpAfter(b),
        Phase::BpAfter(b) => Phase::BpRecord(b),
        Phase::BpRecord(_) => next_test((bp_left - 1) as u64, temp_left),
        Phase::TempHigh => Phase::TempBefore,
        Phase::TempBefore => Phase::TempLow,
        Phase::TempLow => Phase::TempAfter(answer),
        Phase::TempAfter(b) => Phase::TempRecord(b),
        Phase::TempRecord(_) => next_test(bp_left, (temp_left - 1) as u64),
        Phase::Finish => Phase::Persist,
        Phase::Persist => Phase::Done,
        Phase::Done => Phase::Done,
    }
}

/// Whether a step in phase `p` counts a test: the readings around the
/// stimulus differ.
pub open spec fn counts(p: Phase, answer: bool) -> bool {
    match p {
        Phase::BpRecord(before) | Phase::TempRecord(before) => before != answer,
        _ => false,
    }
}

/// The action that a step in phase `p` returns, for a device that stood in
/// menu `from`; `counted` says whether a test was just counted.
pub open spec fn action_fits(p: Phase, from: State, counted: bool, r: Action) -> bool {
    match p {
        Phase::Boot => r matches Action::Send(c) && c@ == route(from, State::LoginPrompt),
        Phase::Wait => r matches Action::Sleep(n) && n == BOOT_SECONDS,
        Phase::Enter => r matches Action::Send(c) && c@ == route(from, State::LifecycleMenu),
        Phase::Banner => r matches Action::DrainUntil(b) && b == BANNER_END,
        Phase::BpBefore | Phase::BpAfter(_) => r matches Action::AskBp(c) && c@ == route(
            from,
            State::LifecycleMenu,
        ).push(Command::CheckBPState),
        Phase::BpStimulus => r matches Action::Send(c) && c@ == route(
            from,
            State::LifecycleMenu,
        ).push(Command::StartBP),
        Phase::BpSettle(_) => r matches Action::Sleep(n) && n == BP_RUN_SECONDS,
        Phase::TempHigh => r is RelayHigh,
        Phase::TempLow => r is RelayLow,
        Phase::TempBefore | Phase::TempAfter(_) => r matches Action::AskTemp(c) && c@ == route(
            from,
            State::LifecycleMenu,
        ).push(Command::ReadTemp),
        Phase::BpRecord(_) | Phase::TempRecord(_) => if counted {
            r is Save
        } else {
            r is Continue
        },
        Phase::Finish => r matches Action::Send(c) && c@ == route(from, State::LoginPrompt),
        Phase::Persist => r is Save,
        Phase::Done => r is Done,
    }
}

impl TestCycle {
    pub closed spec fn phase_spec(&self) -> Phase {
        self.phase
    }

    pub closed spec fn bp_left_spec(&self) -> u64 {
        self.bp_left
    }

    pub closed spec fn temp_left_spec(&self) -> u64 {
        self.temp_left
    }

    /// A BP phase has a BP test left; a temperature phase has no BP test left
    /// and a temperature test left.
    pub closed spec fn wf(&self) -> bool {
        match self.phase {
            Phase::BpBefore | Phase::BpStimulus | Phase::BpSettle(_) | Phase::BpAfter(_)
            | Phase::BpRecord(_) => self.bp_left > 0,
            Phase::TempHigh | Phase::TempBefore | Phase::TempLow | Phase::TempAfter(_)
            | Phase::TempRecord(_) => self.bp_left == 0 && self.temp_left > 0,
            _ => true,
        }
    }

    /// How many steps remain before the cycle is done.
    pub closed spec fn steps_left(&self) -> nat {
        let rest = after_banner(self.bp_left as nat, self.temp_left as nat);
        match self.phase {
            Phase::Boot => rest + 4,
            Phase::Wait => rest + 3,
            Phase::Enter => rest + 2,
            Phase::Banner => rest + 1,
            Phase::BpBefore | Phase::TempHigh => rest,
            Phase::BpStimulus | Phase::TempBefore => (rest - 1) as nat,
            Phase::BpSettle(_) | Phase::TempLow => (rest - 2) as nat,
            Phase::BpAfter(_) | Phase::TempAfter(_) => (rest - 3) as nat,
            Phase::BpRecord(_) | Phase::TempRecord(_) => (rest - 4) as nat,
            Phase::Finish => 2,
            Phase::Persist => 1,
            Phase::Done => 0,
        }
    }

    /// A cycle with `bp_cycles` BP tests (3 when not given) and `temp_cycles`
    /// temperature tests (2 when not given).
    pub fn new(bp_cycles: Option<u64>, temp_cycles: Option<u64>) -> (r: TestCycle)
        ensures
            r.wf(),
            r.phase_spec() == Phase::Boot,
            r.bp_left_spec() == (match bp_cycles {
                Some(n) => n,
                None => 3,
            }),
            r.temp_left_spec() == (match temp_cycles {
                Some(n) => n,
                None => 2,
            }),
    {
        let bp_left = match bp_cycles {
            Some(n) => n,
            None => 3,
        };
        let temp_left = match temp_cycles {
            Some(n) => n,
            None => 2,
        };
        TestCycle { phase: Phase::Boot, bp_left, temp_left }
    }

    pub fn phase(&self) -> (r: Phase)
        ensures
            r == self.phase_spec(),
    {
        self.phase
    }

    pub fn is_done(&self) -> (r: bool)
        ensures
            r == (self.phase_spec() == Phase::Done),
    {
        match self.phase {
            Phase::Done => true,
            _ => false,
        }
    }
}

fn next_test_exec(bp_left: u64, temp_left: u64) -> (r: Phase)
    ensures
        r == next_test(bp_left, temp_left),
{
    if bp_left > 0 {
        Phase::BpBefore
    } else if temp_left > 0 {
        Phase::TempHigh
    } else {
        Phase::Finish
    }
}

impl Device {
    /// Advances a test cycle by one step and returns what the caller does
    /// next. `answer` is the reading settled by the last `AskBp` or `AskTemp`;
    /// other steps ignore it. A BP test counts when the readings before and
    /// after the cuff starts differ, a temperature test when those with the
    /// relay high and low differ; the closing reboot is counted by `reboot`.
    pub fn test_cycle(&mut self, cycle: &mut TestCycle, answer: bool) -> (r: Action)
        requires
            old(cycle).wf(),
        ensures
            final(cycle).wf(),
            final(cycle).phase_spec() == next_phase(
                old(cycle).phase_spec(),
                answer,
                old(cycle).bp_left_spec(),
                old(cycle).temp_left_spec(),
            ),
            final(cycle).bp_left_spec() == (if old(cycle).phase_spec() is BpRecord {
                (old(cycle).bp_left_spec() - 1) as u64
            } else {
                old(cycle).bp_left_spec()
            }),
            final(cycle).temp_left_spec() == (if old(cycle).phase_spec() is TempRecord {
                (old(cycle).temp_left_spec() - 1) as u64
            } else {
                old(cycle).temp_left_spec()
            }),
            action_fits(
                old(cycle).phase_spec(),
                old(self).state_spec(),
                counts(old(cycle).phase_spec(), answer),
                r,
            ),
            old(cycle).phase_spec() != Phase::Done ==> final(cycle).steps_left() < old(cycle).steps_left(),
            old(cycle).phase_spec() == Phase::Done ==> (r is Done && *final(cycle) == *old(cycle)),
            counters_le(old(self).counters_spec(), final(self).counters_spec()),
            final(self).serial_spec() == old(self).serial_spec(),
            final(self).relay_spec() == old(self).relay_spec(),
            old(cycle).phase_spec() matches Phase::BpRecord(before) ==> final(self).counters_spec() == (Counters {
                bps: if before != answer {
                    bump(old(self).counters_spec().bps)
                } else {
                    old(self).counters_spec().bps
                },
                ..old(self).counters_spec()
            }),
            old(cycle).phase_spec() matches Phase::TempRecord(before) ==> final(self).counters_spec() == (Counters {
                temps: if before != answer {
                    bump(old(self).counters_spec().temps)
                } else {
                    old(self).counters_spec().temps
                },
                ..old(self).counters_spec()
            }),
            old(cycle).phase_spec() == Phase::Finish ==> final(self).counters_spec() == (Counters {
                reboots: if old(self).state_spec() == State::LoginPrompt {
                    old(self).counters_spec().reboots
                } else {
                    bump(old(self).counters_spec().reboots)
                },
                ..old(self).counters_spec()
            }),
            !(old(cycle).phase_spec() is Finish || old(cycle).phase_spec() is BpRecord
                || old(cycle).phase_spec() is TempRecord) ==> final(self).counters_spec() == old(self).counters_spec(),
            old(cycle).phase_spec() == Phase::Finish ==> final(self).state_spec()
                == State::LoginPrompt,
    {
        match cycle.phase {
            Phase::Boot => {
                let c = self.go_to(State::LoginPrompt);
                cycle.phase = Phase::Wait;
                Action::Send(c)
            },
            Phase::Wait => {
                cycle.phase = Phase::Enter;
                Action::Sleep(BOOT_SECONDS)
            },
            Phase::Enter => {
                let c = self.go_to(State::LifecycleMenu);
                cycle.phase = Phase::Banner;
                Action::Send(c)
            },
            Phase::Banner => {
                cycle.phase = next_test_exec(cycle.bp_left, cycle.temp_left);
                Action::DrainUntil(BANNER_END)
            },
            Phase::BpBefore => {
                let c = self.is_bp_running();
                cycle.phase = Phase::BpStimulus;
                Action::AskBp(c)
            },
            Phase::BpStimulus => {
                let c = self.start_bp();
                cycle.phase = Phase::BpSettle(answer);
                Action::Send(c)
            },
            Phase::BpSettle(before) => {
                cycle.phase = Phase::BpAfter(before);
                Action::Sleep(BP_RUN_SECONDS)
            },
            Phase::BpAfter(before) => {
                let c = self.is_bp_running();
                cycle.phase = Phase::BpRecord(before);
                Action::AskBp(c)
            },
            Phase::BpRecord(before) => {
                let counted = self.record_bp(before, answer);
                cycle.bp_left = cycle.bp_left - 1;
                cycle.phase = next_test_exec(cycle.bp_left, cycle.temp_left);
                if counted {
                    Action::Save
                } else {
                    Action::Continue
                }
            },
            Phase::TempHigh => {
                cycle.phase = Phase::TempBefore;
                Action::RelayHigh
            },
            Phase::TempBefore => {
                let c = self.is_temp_running();
                cycle.phase = Phase::TempLow;
                Action::AskTemp(c)
            },
            Phase::TempLow => {
                cycle.phase = Phase::TempAfter(answer);
                Action::RelayLow
            },
            Phase::TempAfter(before) => {
                let c = self.is_temp_running();
                cycle.phase = Phase::TempRecord(before);
                Action::AskTemp(c)
            },
            Phase::TempRecord(before) => {
                let counted = self.record_temp(before, answer);
                cycle.temp_left = cycle.temp_left - 1;
                cycle.phase = next_test_exec(cycle.bp_left, cycle.temp_left);
                if counted {
                    Action::Save
                } else {
                    Action::Continue
                }
            },
            Phase::Finish => {
                let c = self.reboot();
                cycle.phase = Phase::Persist;
                Action::Send(c)
            },
            Phase::Persist => {
                cycle.phase = Phase::Done;
                Action::Save
            },
            Phase::Done => Action::Done,
        }
    }
}

} // verus!
