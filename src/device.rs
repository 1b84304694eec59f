use vstd::prelude::*;

use crate::counters::{parse, parse_spec, render, render_spec, Counters};
use crate::gpio_facade::{relay_inventory, GpioFacade, Relay};
use crate::tty::{Command, Response};

verus! {

/// The menu that the driver believes the device is showing.
#[derive(Clone, Copy, Debug, PartialEq, Eq, Structural)]
pub enum State {
    LoginPrompt,
    DebugMenu,
    LifecycleMenu,
    BrightnessMenu,
}

/// The menu a device is in, judged from the first line it answered with.
pub open spec fn initial_state_spec(response: Option<Response>) -> State {
    match response {
        Some(Response::BPOn) | Some(Response::BPOff) | Some(Response::TempSuccess) | Some(
            Response::TempFailed,
        ) => State::LifecycleMenu,
        Some(Response::DebugMenuReady) | Some(Response::DebugMenuWithContinuedMessage) => {
            State::DebugMenu
        },
        _ => State::LoginPrompt,
    }
}

/// One row of the transition table: from `from`, the commands that move one
/// menu closer to `to`, and the menu they lead to. Only asked where `from != to`.
pub open spec fn row(from: State, to: State) -> (Seq<Command>, State) {
    if to == State::LoginPrompt {
        (seq![Command::Quit], State::LoginPrompt)
    } else {
        match from {
            State::LoginPrompt => (seq![Command::Login, Command::DebugMenu], State::DebugMenu),
            State::DebugMenu => (seq![Command::LifecycleMenu], State::LifecycleMenu),
            State::LifecycleMenu => if to == State::BrightnessMenu {
                (seq![Command::BrightnessMenu], State::BrightnessMenu)
            } else {
                (seq![Command::UpMenuLevel], State::DebugMenu)
            },
            State::BrightnessMenu => (seq![Command::UpMenuLevel], State::LifecycleMenu),
        }
    }
}

/// How many rows of the table lie between two menus.
pub open spec fn rows(from: State, to: State) -> nat {
    if from == to {
        0
    } else if to == State::LoginPrompt {
        1
    } else {
        match (from, to) {
            (State::LoginPrompt, State::DebugMenu) => 1,
            (State::LoginPrompt, State::LifecycleMenu) => 2,
            (State::LoginPrompt, State::BrightnessMenu) => 3,
            (State::DebugMenu, State::BrightnessMenu) => 2,
            (State::BrightnessMenu, State::DebugMenu) => 2,
            _ => 1,
        }
    }
}

/// The commands that take the device from one menu to another, row after row.
pub open spec fn route(from: State, to: State) -> Seq<Command> {
    if from == to {
        seq![]
    } else if to == State::LoginPrompt {
        seq![Command::Quit]
    } else {
        match (from, to) {
            (State::LoginPrompt, State::DebugMenu) => seq![Command::Login, Command::DebugMenu],
            (State::LoginPrompt, State::LifecycleMenu) => seq![
                Command::Login,
                Command::DebugMenu,
                Command::LifecycleMenu,
            ],
            (State::LoginPrompt, State::BrightnessMenu) => seq![
                Command::Login,
                Command::DebugMenu,
                Command::LifecycleMenu,
                Command::BrightnessMenu,
            ],
            (State::DebugMenu, State::LifecycleMenu) => seq![Command::LifecycleMenu],
            (State::DebugMenu, State::BrightnessMenu) => seq![
                Command::LifecycleMenu,
                Command::BrightnessMenu,
            ],
            (State::LifecycleMenu, State::DebugMenu) => seq![Command::UpMenuLevel],
            (State::LifecycleMenu, State::BrightnessMenu) => seq![Command::BrightnessMenu],
            (State::BrightnessMenu, State::LifecycleMenu) => seq![Command::UpMenuLevel],
            _ => seq![Command::UpMenuLevel, Command::UpMenuLevel],
        }
    }
}

proof fn lemma_row_advances(from: State, to: State)
    requires
        from != to,
    ensures
        row(from, to).0 + route(row(from, to).1, to) == route(from, to),
        rows(row(from, to).1, to) + 1 == rows(from, to),
{
    assert(row(from, to).0 + route(row(from, to).1, to) =~= route(from, to));
}

/// Reaching any menu from any other takes at most three rows of the table, and
/// at most three command writes, but for the way from the login prompt down to
/// the brightness menu, which takes four.
pub proof fn lemma_route_bounded(from: State, to: State)
    ensures
        rows(from, to) <= 3,
        route(from, to).len() <= rows(from, to) + 1,
        !(from == State::LoginPrompt && to == State::BrightnessMenu) ==> route(from, to).len()
            <= 3,
        from == State::LoginPrompt && to == State::BrightnessMenu ==> route(from, to).len() == 4,
{
}

/// One more, short of overflow.
pub open spec fn bump(n: u64) -> u64 {
    if n < u64::MAX {
        (n + 1) as u64
    } else {
        n
    }
}

fn bump_exec(n: u64) -> (r: u64)
    ensures
        r == bump(n),
{
    if n < u64::MAX {
        n + 1
    } else {
        n
    }
}

/// Every tally of `b` is at least that of `a`.
pub open spec fn counters_le(a: Counters, b: Counters) -> bool {
    a.reboots <= b.reboots && a.bps <= b.bps && a.temps <= b.temps
}

/// What the BP answer means: `Some(true)` when BP runs, `Some(false)` when it
/// does not or the answer is unexpected, `None` for noise to read past.
pub open spec fn bp_answer_spec(r: Response) -> Option<bool> {
    match r {
        Response::BPOn => Some(true),
        Response::DebugMenuWithContinuedMessage => None,
        _ => Some(false),
    }
}

/// What the temperature answer means: `Some(true)` on success, `Some(false)`
/// on failure, `None` for any other line, which is read past.
pub open spec fn temp_answer_spec(r: Response) -> Option<bool> {
    match r {
        Response::TempSuccess => Some(true),
        Response::TempFailed => Some(false),
        _ => None,
    }
}

/// The driver of one device under test: its believed menu, its serial, its
/// tallies and the relay it holds. Each operation that talks to the device
/// returns the commands to write, in order; after each one a single response
/// is read and dropped, unless the operation says otherwise.
#[derive(Debug)]
pub struct Device {
    serial: String,
    current_state: State,
    counters: Counters,
    relay: Option<Relay>,
}

impl Device {
    pub closed spec fn state_spec(&self) -> State {
        self.current_state
    }

    pub closed spec fn counters_spec(&self) -> Counters {
        self.counters
    }

    pub closed spec fn serial_spec(&self) -> Seq<char> {
        self.serial@
    }

    pub closed spec fn relay_spec(&self) -> Option<u8> {
        match self.relay {
            Some(r) => Some(r@),
            None => None,
        }
    }

    /// A held relay is one of the wired ones.
    pub open spec fn wf(&self) -> bool {
        self.relay_spec() matches Some(a) ==> relay_inventory().contains(a)
    }

    /// A driver for a device whose first line was `response`, with zero tallies,
    /// no relay, and the serial `uninitialised`.
    pub fn new(response: Option<Response>) -> (r: Device)
        ensures
            r.wf(),
            r.state_spec() == initial_state_spec(response),
            r.counters_spec() == (Counters { reboots: 0, bps: 0, temps: 0 }),
            r.serial_spec() == "uninitialised"@,
            r.relay_spec() is None,
    {
        Device {
            serial: "uninitialised".to_owned(),
            current_state: initial_state(response),
            counters: Counters { reboots: 0, bps: 0, temps: 0 },
            relay: None,
        }
    }

    /// The commands to send while a driver is built: a device that asks for a
    /// password gets a bare line, which takes it back to the login prompt.
    pub fn startup_commands(response: Option<Response>) -> (r: Vec<Command>)
        ensures
            r@ == (if response == Some(Response::PasswordPrompt) {
                seq![Command::Newline]
            } else {
                seq![]
            }),
    {
        let mut r: Vec<Command> = Vec::new();
        if let Some(Response::PasswordPrompt) = response {
            r.push(Command::Newline);
        }
        assert(r@ =~= (if response == Some(Response::PasswordPrompt) {
            seq![Command::Newline]
        } else {
            seq![]
        }));
        r
    }

    pub fn state(&self) -> (r: State)
        ensures
            r == self.state_spec(),
    {
        self.current_state
    }

    pub fn counters(&self) -> (r: Counters)
        ensures
            r == self.counters_spec(),
    {
        self.counters
    }

    pub fn get_serial(&self) -> (r: &str)
        ensures
            r@ == self.serial_spec(),
    {
        self.serial.as_str()
    }

    /// The address of the relay this driver holds, if any.
    pub fn relay_address(&self) -> (r: Option<u8>)
        ensures
            r == self.relay_spec(),
    {
        match &self.relay {
            Some(relay) => Some(relay.address()),
            None => None,
        }
    }

    /// Moves to `target` one table row at a time and returns the commands of
    /// those rows; the tallies do not change.
    pub fn go_to(&mut self, target: State) -> (r: Vec<Command>)
        ensures
            r@ == route(old(self).state_spec(), target),
            final(self).state_spec() == target,
            final(self).counters_spec() == old(self).counters_spec(),
            final(self).serial_spec() == old(self).serial_spec(),
            final(self).relay_spec() == old(self).relay_spec(),
    {
        let mut out: Vec<Command> = Vec::new();
        while self.current_state != target
            invariant
                out@ + route(self.current_state, target) == route(old(self).current_state, target),
                self.counters == old(self).counters,
                self.serial == old(self).serial,
                self.relay == old(self).relay,
            decreases rows(self.current_state, target),
        {
            let from = self.current_state;
            let (cmds, next) = next_row(from, target);
            proof {
                lemma_row_advances(from, target);
            }
            let ghost before = out@;
            let mut k: usize = 0;
            while k < cmds.len()
                invariant
                    k <= cmds.len(),
                    out@ == before + cmds@.subrange(0, k as int),
                decreases cmds.len() - k,
            {
                out.push(cmds[k]);
                k = k + 1;
                assert(out@ =~= before + cmds@.subrange(0, k as int));
            }
            assert(cmds@.subrange(0, cmds@.len() as int) =~= cmds@);
            self.current_state = next;
            assert(out@ + route(next, target) =~= before + (row(from, target).0 + route(
                next,
                target,
            )));
        }
        assert(out@ + route(target, target) =~= out@);
        out
    }

    /// Takes the device to its lifecycle menu and starts the BP cuff.
    pub fn start_bp(&mut self) -> (r: Vec<Command>)
        ensures
            r@ == route(old(self).state_spec(), State::LifecycleMenu).push(Command::StartBP),
            final(self).state_spec() == State::LifecycleMenu,
            final(self).counters_spec() == old(self).counters_spec(),
            final(self).serial_spec() == old(self).serial_spec(),
            final(self).relay_spec() == old(self).relay_spec(),
    {
        let mut r = self.go_to(State::LifecycleMenu);
        r.push(Command::StartBP);
        r
    }

    /// Takes the device to its brightness menu and sets the screen dark.
    pub fn darken_screen(&mut self) -> (r: Vec<Command>)
        ensures
            r@ == route(old(self).state_spec(), State::BrightnessMenu).push(
                Command::BrightnessLow,
            ),
            final(self).state_spec() == State::BrightnessMenu,
            final(self).counters_spec() == old(self).counters_spec(),
            final(self).serial_spec() == old(self).serial_spec(),
            final(self).relay_spec() == old(self).relay_spec(),
    {
        let mut r = self.go_to(State::BrightnessMenu);
        r.push(Command::BrightnessLow);
        r
    }

    /// Takes the device to its brightness menu and sets the screen bright.
    pub fn brighten_screen(&mut self) -> (r: Vec<Command>)
        ensures
            r@ == route(old(self).state_spec(), State::BrightnessMenu).push(
                Command::BrightnessHigh,
            ),
            final(self).state_spec() == State::BrightnessMenu,
            final(self).counters_spec() == old(self).counters_spec(),
            final(self).serial_spec() == old(self).serial_spec(),
            final(self).relay_spec() == old(self).relay_spec(),
    {
        let mut r = self.go_to(State::BrightnessMenu);
        r.push(Command::BrightnessHigh);
        r
    }

    /// Takes the device to its lifecycle menu and asks whether BP runs. After
    /// the last command no response is dropped: the answers go to `bp_answer`.
    pub fn is_bp_running(&mut self) -> (r: Vec<Command>)
        ensures
            r@ == route(old(self).state_spec(), State::LifecycleMenu).push(
                Command::CheckBPState,
            ),
            final(self).state_spec() == State::LifecycleMenu,
            final(self).counters_spec() == old(self).counters_spec(),
            final(self).serial_spec() == old(self).serial_spec(),
            final(self).relay_spec() == old(self).relay_spec(),
    {
        let mut r = self.go_to(State::LifecycleMenu);
        r.push(Command::CheckBPState);
        r
    }

    /// Takes the device to its lifecycle menu and asks for the temperature.
    /// After the last command no response is dropped: the answers go to `temp_answer`.
    pub fn is_temp_running(&mut self) -> (r: Vec<Command>)
        ensures
            r@ == route(old(self).state_spec(), State::LifecycleMenu).push(Command::ReadTemp),
            final(self).state_spec() == State::LifecycleMenu,
            final(self).counters_spec() == old(self).counters_spec(),
            final(self).serial_spec() == old(self).serial_spec(),
            final(self).relay_spec() == old(self).relay_spec(),
    {
        let mut r = self.go_to(State::LifecycleMenu);
        r.push(Command::ReadTemp);
        r
    }

    /// Logs the device out to its login prompt, which reboots it; a reboot is
    /// counted when one was needed.
    pub fn reboot(&mut self) -> (r: Vec<Command>)
        ensures
            r@ == route(old(self).state_spec(), State::LoginPrompt),
            final(self).state_spec() == State::LoginPrompt,
            final(self).counters_spec() == (Counters {
                reboots: if old(self).state_spec() == State::LoginPrompt {
                    old(self).counters_spec().reboots
                } else {
                    bump(old(self).counters_spec().reboots)
                },
                ..old(self).counters_spec()
            }),
            counters_le(old(self).counters_spec(), final(self).counters_spec()),
            final(self).serial_spec() == old(self).serial_spec(),
            final(self).relay_spec() == old(self).relay_spec(),
    {
        let was_in_menu = self.current_state != State::LoginPrompt;
        let r = self.go_to(State::LoginPrompt);
        if was_in_menu {
            self.counters.reboots = bump_exec(self.counters.reboots);
        }
        r
    }

    /// Makes sure the device stands at its login prompt, rebooting it if it
    /// does not; once the commands are sent the device is rebooted.
    pub fn is_rebooted(&mut self) -> (r: Vec<Command>)
        ensures
            r@ == route(old(self).state_spec(), State::LoginPrompt),
            final(self).state_spec() == State::LoginPrompt,
            final(self).counters_spec() == (Counters {
                reboots: if old(self).state_spec() == State::LoginPrompt {
                    old(self).counters_spec().reboots
                } else {
                    bump(old(self).counters_spec().reboots)
                },
                ..old(self).counters_spec()
            }),
            final(self).serial_spec() == old(self).serial_spec(),
            final(self).relay_spec() == old(self).relay_spec(),
    {
        self.reboot()
    }

    /// Counts one successful BP test when the state seen before the stimulus
    /// differs from the one seen after; returns whether it counted one.
    pub fn record_bp(&mut self, before: bool, after: bool) -> (r: bool)
        ensures
            r == (before != after),
            final(self).counters_spec() == (Counters {
                bps: if r {
                    bump(old(self).counters_spec().bps)
                } else {
                    old(self).counters_spec().bps
                },
                ..old(self).counters_spec()
            }),
            counters_le(old(self).counters_spec(), final(self).counters_spec()),
            final(self).state_spec() == old(self).state_spec(),
            final(self).serial_spec() == old(self).serial_spec(),
            final(self).relay_spec() == old(self).relay_spec(),
    {
        if before != after {
            self.counters.bps = bump_exec(self.counters.bps);
            true
        } else {
            false
        }
    }

    /// Counts one successful temperature test when the reading with the relay
    /// closed differs from the one with it open; returns whether it counted one.
    pub fn record_temp(&mut self, before: bool, after: bool) -> (r: bool)
        ensures
            r == (before != after),
            final(self).counters_spec() == (Counters {
                temps: if r {
                    bump(old(self).counters_spec().temps)
                } else {
                    old(self).counters_spec().temps
                },
                ..old(self).counters_spec()
            }),
            counters_le(old(self).counters_spec(), final(self).counters_spec()),
            final(self).state_spec() == old(self).state_spec(),
            final(self).serial_spec() == old(self).serial_spec(),
            final(self).relay_spec() == old(self).relay_spec(),
    {
        if before != after {
            self.counters.temps = bump_exec(self.counters.temps);
            true
        } else {
            false
        }
    }

    /// Gives the driver a new serial, which keys its counter file.
    pub fn set_serial(&mut self, serial: &str)
        ensures
            final(self).serial_spec() == serial@,
            final(self).state_spec() == old(self).state_spec(),
            final(self).counters_spec() == old(self).counters_spec(),
            final(self).relay_spec() == old(self).relay_spec(),
    {
        self.serial = serial.to_owned();
    }

    /// Takes the tallies from the counter file's text; with no file, the
    /// tallies start at zero. A line that cannot be read keeps its tally.
    pub fn load_values(&mut self, text: Option<&[u8]>)
        ensures
            final(self).counters_spec() == (match text {
                Some(t) => parse_spec(t@, old(self).counters_spec()),
                None => Counters { reboots: 0, bps: 0, temps: 0 },
            }),
            final(self).state_spec() == old(self).state_spec(),
            final(self).serial_spec() == old(self).serial_spec(),
            final(self).relay_spec() == old(self).relay_spec(),
    {
        self.counters = match text {
            Some(t) => parse(t, self.counters),
            None => Counters { reboots: 0, bps: 0, temps: 0 },
        };
    }

    /// The text of the counter file for the current tallies.
    pub fn save_values(&self) -> (r: Vec<u8>)
        ensures
            r@ == render_spec(self.counters_spec()),
    {
        render(&self.counters)
    }

    /// Gives back the relay this driver holds, if any, to the pool.
    pub fn release_pin(&mut self, pool: &mut GpioFacade)
        requires
            old(self).wf(),
            old(pool).wf(),
        ensures
            final(self).wf(),
            final(pool).wf(),
            final(self).relay_spec() is None,
            final(pool)@ == (match old(self).relay_spec() {
                Some(a) => old(pool)@.insert(a),
                None => old(pool)@,
            }),
            final(self).state_spec() == old(self).state_spec(),
            final(self).counters_spec() == old(self).counters_spec(),
            final(self).serial_spec() == old(self).serial_spec(),
    {
        let held = self.relay.take();
        if let Some(relay) = held {
            pool.release(relay);
        }
    }

    /// Takes the relay at `address` from the pool, after giving back any relay
    /// held before. Returns whether it was free; when it was not, the driver
    /// holds no relay and the temperature stimulus does nothing.
    pub fn set_pin_address(&mut self, pool: &mut GpioFacade, address: u8) -> (r: bool)
        requires
            old(self).wf(),
            old(pool).wf(),
        ensures
            final(self).wf(),
            final(pool).wf(),
            ({
                let freed = match old(self).relay_spec() {
                    Some(a) => old(pool)@.insert(a),
                    None => old(pool)@,
                };
                &&& r == freed.contains(address)
                &&& final(pool)@ == freed.remove(address)
            }),
            final(self).relay_spec() == (if r {
                Some(address)
            } else {
                None
            }),
            final(self).state_spec() == old(self).state_spec(),
            final(self).counters_spec() == old(self).counters_spec(),
            final(self).serial_spec() == old(self).serial_spec(),
    {
        self.release_pin(pool);
        let ghost freed = pool@;
        proof {
            pool.lemma_within_inventory();
        }
        let taken = pool.remove_pin(address);
        let ok = taken.is_some();
        proof {
            if ok {
                assert(freed.contains(address));
                assert(relay_inventory().contains(address));
            }
        }
        self.relay = taken;
        ok
    }
}

/// The menu a device is in, judged from the first line it answered with.
pub fn initial_state(response: Option<Response>) -> (r: State)
    ensures
        r == initial_state_spec(response),
{
    match response {
        Some(Response::BPOn) | Some(Response::BPOff) | Some(Response::TempSuccess) | Some(
            Response::TempFailed,
        ) => State::LifecycleMenu,
        Some(Response::DebugMenuReady) | Some(Response::DebugMenuWithContinuedMessage) => {
            State::DebugMenu
        },
        _ => State::LoginPrompt,
    }
}

/// One row of the transition table.
pub fn next_row(from: State, to: State) -> (r: (Vec<Command>, State))
    requires
        from != to,
    ensures
        r.0@ == row(from, to).0,
        r.1 == row(from, to).1,
{
    let r = if to == State::LoginPrompt {
        (vec![Command::Quit], State::LoginPrompt)
    } else {
        match from {
            State::LoginPrompt => (vec![Command::Login, Command::DebugMenu], State::DebugMenu),
            State::DebugMenu => (vec![Command::LifecycleMenu], State::LifecycleMenu),
            State::LifecycleMenu => if to == State::BrightnessMenu {
                (vec![Command::BrightnessMenu], State::BrightnessMenu)
            } else {
                (vec![Command::UpMenuLevel], State::DebugMenu)
            },
            State::BrightnessMenu => (vec![Command::UpMenuLevel], State::LifecycleMenu),
        }
    };
    assert(r.0@ =~= row(from, to).0);
    r
}

/// What one line read after `CheckBPState` means.
pub fn bp_answer(r: Response) -> (a: Option<bool>)
    ensures
        a == bp_answer_spec(r),
{
    match r {
        Response::BPOn => Some(true),
        Response::DebugMenuWithContinuedMessage => None,
        _ => Some(false),
    }
}

/// What one line read after `ReadTemp` means.
pub fn temp_answer(r: Response) -> (a: Option<bool>)
    ensures
        a == temp_answer_spec(r),
{
    match r {
        Response::TempSuccess => Some(true),
        Response::TempFailed => Some(false),
        _ => None,
    }
}

/// Two drivers built from the same first response start in the same menu.
pub proof fn lemma_initial_state_deterministic(a: Option<Response>, b: Option<Response>)
    requires
        a == b,
    ensures
        initial_state_spec(a) == initial_state_spec(b),
{
}

/// Tallies never drop along a run of operations: each operation other than
/// `load_values` ends with tallies at least those it started with, and that
/// order is reflexive and carries through any chain of operations.
pub proof fn lemma_counters_monotone(a: Counters, b: Counters, c: Counters)
    ensures
        counters_le(a, a),
        counters_le(a, b) && counters_le(b, c) ==> counters_le(a, c),
        counters_le(a, Counters { reboots: bump(a.reboots), ..a }),
        counters_le(a, Counters { bps: bump(a.bps), ..a }),
        counters_le(a, Counters { temps: bump(a.temps), ..a }),
{
}


} // verus!
