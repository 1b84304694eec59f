use seymour_life::cycle::{Action, TestCycle};
use seymour_life::counters::{parse, parse_value, read_line, render, Counters};
use seymour_life::device::{bp_answer, initial_state, next_row, temp_answer, Device, State};
use seymour_life::gpio_facade::GpioFacade;
use seymour_life::tty::{
    classify, command_bytes, contains_bytes, ends_with, Command, Firmware, Marker, Response,
};

fn zero() -> Counters {
    Counters { reboots: 0, bps: 0, temps: 0 }
}

#[test]
fn classify_each_marker() {
    assert_eq!(classify(b"device login:", &Firmware::standard()), Response::LoginPrompt);
    assert_eq!(classify(b"Password: ", &Firmware::standard()), Response::PasswordPrompt);
    assert_eq!(classify(b"root@dev:~$ ", &Firmware::standard()), Response::ShellPrompt);
    assert_eq!(classify(b"Debug menu [1] lifecycle", &Firmware::standard()), Response::DebugMenuReady);
    assert_eq!(classify(b"Debug menu ...", &Firmware::standard()), Response::DebugMenuWithContinuedMessage);
    assert_eq!(classify(b"BP is on", &Firmware::standard()), Response::BPOn);
    assert_eq!(classify(b"BP is off", &Firmware::standard()), Response::BPOff);
    assert_eq!(classify(b"Temp OK 36.6", &Firmware::standard()), Response::TempSuccess);
    assert_eq!(classify(b"Temp FAIL", &Firmware::standard()), Response::TempFailed);
    assert_eq!(classify(b"Rebooting now", &Firmware::standard()), Response::Rebooting);
    assert_eq!(classify(b"hello", &Firmware::standard()), Response::Other);
    assert_eq!(classify(b"", &Firmware::standard()), Response::Empty);
    assert_eq!(classify(b"  \r\n", &Firmware::standard()), Response::Empty);
}

#[test]
fn classify_first_rule_wins_and_controls_stripped() {
    assert_eq!(classify(b"login: Password:", &Firmware::standard()), Response::LoginPrompt);
    assert_eq!(classify(b"Debug menu", &Firmware::standard()), Response::Other);
    assert_eq!(classify(b"BP is\x1b on", &Firmware::standard()), Response::BPOn);
    assert_eq!(classify(b"lo\x07gin:", &Firmware::standard()), Response::LoginPrompt);
}

#[test]
fn command_lines_end_in_crlf() {
    assert_eq!(command_bytes(Command::Quit, &Firmware::standard()), b"quit\r\n".to_vec());
    assert_eq!(command_bytes(Command::Newline, &Firmware::standard()), b"\r\n".to_vec());
    assert_eq!(command_bytes(Command::LifecycleMenu, &Firmware::standard()), b"1\r\n".to_vec());
    assert_eq!(command_bytes(Command::BrightnessLow, &Firmware::standard()), b"l\r\n".to_vec());
}

#[test]
fn custom_firmware_texts() {
    let std = Firmware::standard();
    let mut markers: Vec<Vec<u8>> = Vec::new();
    for m in [
        Marker::Login,
        Marker::Password,
        Marker::Shell,
        Marker::DebugMenu,
        Marker::BannerEnd,
        Marker::Continued,
        Marker::BpOn,
        Marker::BpOff,
        Marker::TempOk,
        Marker::TempFail,
        Marker::Rebooting,
    ] {
        markers.push(std.marker(m).clone());
    }
    markers[6] = b"cuff running".to_vec();
    let mut glyphs: Vec<Vec<u8>> = vec![b"".to_vec(); 12];
    glyphs[6] = b"exit".to_vec();
    let fw = Firmware::new(markers.clone(), glyphs.clone()).unwrap();
    assert_eq!(classify(b"cuff running", &fw), Response::BPOn);
    assert_eq!(classify(b"BP is on", &fw), Response::Other);
    assert_eq!(command_bytes(Command::Quit, &fw), b"exit\r\n".to_vec());
    assert!(Firmware::new(markers, vec![]).is_none());
    assert!(Firmware::new(vec![], glyphs).is_none());
    assert_eq!(std.marker(Marker::Shell).clone(), b"$".to_vec());
    assert_eq!(std.glyph(Command::DebugMenu).clone(), b"debug".to_vec());
}

#[test]
fn byte_search_helpers() {
    assert!(contains_bytes(b"abcdef", b"cde"));
    assert!(!contains_bytes(b"abc", b"abcd"));
    assert!(contains_bytes(b"abc", b""));
    assert!(ends_with(b"menu [", b"["));
    assert!(!ends_with(b"menu [x", b"["));
}

#[test]
fn fresh_serial_writes_zero_file() {
    let mut d = Device::new(Some(Response::LoginPrompt));
    d.set_serial("ABC123");
    d.load_values(None);
    assert_eq!(d.get_serial(), "ABC123");
    assert_eq!(
        d.save_values(),
        b"Reboots: 0\nSuccessful BP tests: 0\nSuccessful temp tests: 0\n".to_vec()
    );
}

#[test]
fn counter_persistence_loads_values() {
    let mut d = Device::new(Some(Response::LoginPrompt));
    d.set_serial("X");
    d.load_values(Some(b"Reboots: 7\nSuccessful BP tests: 2\nSuccessful temp tests: 5\n"));
    assert_eq!(d.counters(), Counters { reboots: 7, bps: 2, temps: 5 });
}

#[test]
fn render_then_parse_round_trips() {
    let c = Counters { reboots: 123, bps: 0, temps: u64::MAX };
    let text = render(&c);
    assert_eq!(parse(&text, Counters { reboots: 9, bps: 9, temps: 9 }), c);
}

#[test]
fn bad_lines_keep_prior_values() {
    let prior = Counters { reboots: 1, bps: 2, temps: 3 };
    let text = b"Reboots: x\nSuccessful BP tests: 18446744073709551616\nnoise\nSuccessful temp tests:  44 \r\n";
    assert_eq!(parse(text, prior), Counters { reboots: 1, bps: 2, temps: 44 });
    assert_eq!(read_line(b"Reboots: 5", zero()).reboots, 5);
    assert_eq!(parse_value(b" 42 "), Some(42));
    assert_eq!(parse_value(b"18446744073709551615"), Some(u64::MAX));
    assert_eq!(parse_value(b""), None);
    assert_eq!(parse_value(b"4 2"), None);
}

#[test]
fn pin_assignment_is_exclusive() {
    let mut pool = GpioFacade::new();
    assert_eq!(pool.get_unassigned_addresses().clone(), vec![4u8, 5, 6, 12, 13, 17, 18, 19, 20, 26]);
    let a = pool.remove_pin(12);
    assert_eq!(a.as_ref().map(|r| r.address()), Some(12));
    assert!(pool.remove_pin(12).is_none());
    let b = pool.remove_pin(13);
    assert_eq!(b.as_ref().map(|r| r.address()), Some(13));
    assert_eq!(pool.get_unassigned_addresses().clone(), vec![4u8, 5, 6, 17, 18, 19, 20, 26]);
    pool.release(a.unwrap());
    assert!(pool.get_unassigned_addresses().contains(&12));
    assert!(pool.remove_pin(12).is_some());
    assert!(pool.remove_pin(7).is_none());
}

#[test]
fn driver_takes_and_returns_pins() {
    let mut pool = GpioFacade::new();
    let mut d = Device::new(None);
    assert!(d.set_pin_address(&mut pool, 5));
    assert_eq!(d.relay_address(), Some(5));
    assert!(!pool.get_unassigned_addresses().contains(&5));
    assert!(d.set_pin_address(&mut pool, 6));
    assert!(pool.get_unassigned_addresses().contains(&5));
    let mut other = Device::new(None);
    assert!(!other.set_pin_address(&mut pool, 6));
    assert_eq!(other.relay_address(), None);
    d.release_pin(&mut pool);
    assert_eq!(d.relay_address(), None);
    assert_eq!(pool.get_unassigned_addresses().len(), 10);
}

#[test]
fn initial_state_from_response() {
    let mut d = Device::new(Some(Response::DebugMenuReady));
    assert_eq!(d.state(), State::DebugMenu);
    assert_eq!(d.start_bp(), vec![Command::LifecycleMenu, Command::StartBP]);
    assert_eq!(initial_state(Some(Response::BPOff)), State::LifecycleMenu);
    assert_eq!(initial_state(Some(Response::PasswordPrompt)), State::LoginPrompt);
    assert_eq!(initial_state(None), State::LoginPrompt);
    assert_eq!(Device::startup_commands(Some(Response::PasswordPrompt)), vec![Command::Newline]);
    assert_eq!(Device::startup_commands(Some(Response::Other)), Vec::<Command>::new());
    let a = Device::new(Some(Response::TempFailed));
    let b = Device::new(Some(Response::TempFailed));
    assert_eq!(a.state(), b.state());
}

#[test]
fn routes_between_menus() {
    let all = [State::LoginPrompt, State::DebugMenu, State::LifecycleMenu, State::BrightnessMenu];
    for from in all {
        for to in all {
            let mut d = Device::new(None);
            d.go_to(from);
            let before = d.counters();
            let cmds = d.go_to(to);
            assert_eq!(d.state(), to);
            assert_eq!(d.counters(), before);
            if from == State::LoginPrompt && to == State::BrightnessMenu {
                assert_eq!(cmds.len(), 4);
            } else {
                assert!(cmds.len() <= 3);
            }
        }
    }
    let mut d = Device::new(Some(Response::BPOn));
    assert_eq!(d.go_to(State::DebugMenu), vec![Command::UpMenuLevel]);
    assert_eq!(
        d.go_to(State::BrightnessMenu),
        vec![Command::LifecycleMenu, Command::BrightnessMenu]
    );
    assert_eq!(d.go_to(State::DebugMenu), vec![Command::UpMenuLevel, Command::UpMenuLevel]);
    assert_eq!(next_row(State::LoginPrompt, State::LifecycleMenu).1, State::DebugMenu);
}

#[test]
fn operations_end_in_their_menu() {
    let all = [State::LoginPrompt, State::DebugMenu, State::LifecycleMenu, State::BrightnessMenu];
    for s in all {
        let mut d = Device::new(None);
        d.go_to(s);
        d.start_bp();
        assert_eq!(d.state(), State::LifecycleMenu);
        d.go_to(s);
        d.is_bp_running();
        assert_eq!(d.state(), State::LifecycleMenu);
        d.go_to(s);
        d.is_temp_running();
        assert_eq!(d.state(), State::LifecycleMenu);
        d.go_to(s);
        d.darken_screen();
        assert_eq!(d.state(), State::BrightnessMenu);
        d.go_to(s);
        d.brighten_screen();
        assert_eq!(d.state(), State::BrightnessMenu);
        d.go_to(s);
        d.reboot();
        assert_eq!(d.state(), State::LoginPrompt);
    }
}

#[test]
fn reboot_counts_only_when_logged_in() {
    let mut d = Device::new(Some(Response::LoginPrompt));
    assert_eq!(d.reboot(), Vec::<Command>::new());
    assert_eq!(d.counters().reboots, 0);
    d.go_to(State::LifecycleMenu);
    assert_eq!(d.is_rebooted(), vec![Command::Quit]);
    assert_eq!(d.counters().reboots, 1);
}

#[test]
fn answers_to_queries() {
    assert_eq!(bp_answer(Response::BPOn), Some(true));
    assert_eq!(bp_answer(Response::BPOff), Some(false));
    assert_eq!(bp_answer(Response::DebugMenuWithContinuedMessage), None);
    assert_eq!(bp_answer(Response::Empty), Some(false));
    assert_eq!(temp_answer(Response::TempSuccess), Some(true));
    assert_eq!(temp_answer(Response::TempFailed), Some(false));
    assert_eq!(temp_answer(Response::Other), None);
}

/// Runs one test cycle, answering each query with the next scripted line.
fn run_cycle(d: &mut Device, bp: u64, temp: u64, script: &[Response]) -> Vec<Action> {
    let mut cycle = TestCycle::new(Some(bp), Some(temp));
    let mut answer = false;
    let mut next = 0;
    let mut actions = Vec::new();
    for _ in 0..200 {
        let action = d.test_cycle(&mut cycle, answer);
        match &action {
            Action::AskBp(_) => {
                answer = bp_answer(script[next]).unwrap();
                next += 1;
            }
            Action::AskTemp(_) => {
                answer = temp_answer(script[next]).unwrap();
                next += 1;
            }
            _ => {}
        }
        let done = matches!(action, Action::Done);
        actions.push(action);
        if done {
            break;
        }
    }
    assert!(cycle.is_done());
    assert_eq!(next, script.len());
    actions
}

#[test]
fn bp_success_counts() {
    let mut d = Device::new(Some(Response::BPOff));
    assert_eq!(d.state(), State::LifecycleMenu);
    run_cycle(&mut d, 1, 0, &[Response::BPOff, Response::BPOn]);
    assert_eq!(d.counters(), Counters { reboots: 1, bps: 1, temps: 0 });
    assert_eq!(d.state(), State::LoginPrompt);
}

#[test]
fn bp_no_change_not_counted() {
    let mut d = Device::new(Some(Response::BPOff));
    let actions = run_cycle(&mut d, 1, 0, &[Response::BPOff, Response::BPOff]);
    assert_eq!(d.counters(), Counters { reboots: 1, bps: 0, temps: 0 });
    let saves = actions.iter().filter(|a| matches!(a, Action::Save)).count();
    assert_eq!(saves, 1);
}

#[test]
fn default_cycle_runs_every_test() {
    let mut d = Device::new(None);
    let script = [
        Response::BPOff,
        Response::BPOn,
        Response::BPOn,
        Response::BPOn,
        Response::BPOn,
        Response::BPOff,
        Response::TempSuccess,
        Response::TempFailed,
        Response::TempFailed,
        Response::TempFailed,
    ];
    let actions = run_cycle(&mut d, 3, 2, &script[..]);
    let mut d2 = Device::new(None);
    let defaults = run_cycle(&mut d2, 3, 2, &script[..]);
    assert_eq!(actions.len(), defaults.len());
    assert_eq!(d.counters(), Counters { reboots: 1, bps: 2, temps: 1 });
    assert!(matches!(actions[0], Action::Send(ref c) if c.is_empty()));
    assert!(matches!(actions[1], Action::Sleep(60)));
    assert!(matches!(actions[3], Action::DrainUntil(91)));
    assert!(actions.iter().any(|a| matches!(a, Action::Sleep(75))));
    assert_eq!(actions.iter().filter(|a| matches!(a, Action::RelayHigh)).count(), 2);
    let mut d3 = Device::new(None);
    let mut cycle = TestCycle::new(None, None);
    let mut count = 0;
    while !cycle.is_done() {
        let action = d3.test_cycle(&mut cycle, false);
        if !matches!(action, Action::Done) {
            count += 1;
        }
    }
    assert_eq!(count, actions.len() - 1);
    assert_eq!(d3.counters(), Counters { reboots: 1, bps: 0, temps: 0 });
}

#[test]
fn counters_never_drop_during_cycle() {
    let mut d = Device::new(Some(Response::DebugMenuReady));
    d.load_values(Some(b"Reboots: 4\nSuccessful BP tests: 4\nSuccessful temp tests: 4\n"));
    let mut cycle = TestCycle::new(Some(2), Some(2));
    let mut last = d.counters();
    let mut answer = false;
    while !cycle.is_done() {
        d.test_cycle(&mut cycle, answer);
        answer = !answer;
        let now = d.counters();
        assert!(now.reboots >= last.reboots && now.bps >= last.bps && now.temps >= last.temps);
        last = now;
    }
    assert_eq!(last.reboots, 5);
}

#[test]
fn temp_record_counts_changes() {
    let mut d = Device::new(None);
    assert!(d.record_temp(true, false));
    assert!(!d.record_temp(true, true));
    assert_eq!(d.counters().temps, 1);
    d.load_values(Some(b"Successful temp tests: 18446744073709551615\n"));
    assert!(d.record_temp(false, true));
    assert_eq!(d.counters().temps, u64::MAX);
}
