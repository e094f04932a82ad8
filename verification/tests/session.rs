use enigmascope::config::Config;
use enigmascope::session::{Action, App, Key, Screen};

fn type_text(app: &mut App, text: &str) {
    for ch in text.bytes() {
        app.press(ch - b'A', 0);
    }
}

#[test]
fn session_report_captures_io_and_settings() {
    let mut app = App::new(); // I-II-III, reflector B, AAA/AAA, plugs A-M & F-T
    for ch in "HELLO".bytes() {
        app.press(ch - b'A', 0);
    }
    let report = app.session_report(0);
    assert!(report.contains("Rotors      : I II III"));
    assert!(report.contains("Reflector   : B"));
    assert!(report.contains("Input  (plaintext): HELLO"));
    // ciphertext must be 5 letters, none equal to its plaintext letter
    assert_eq!(app.ciphertext.len(), 5);
    for (p, c) in app.plaintext.bytes().zip(app.ciphertext.bytes()) {
        assert_ne!(p, c, "no letter may encipher to itself");
    }
}

#[test]
fn reset_returns_to_start_and_clears_tape() {
    let mut app = App::new();
    for ch in "TESTING".bytes() {
        app.press(ch - b'A', 0);
    }
    app.apply(); // Ctrl+R path
    assert!(app.plaintext.is_empty());
    assert_eq!(app.machine.rotors[2].window(), 'A'); // right rotor back to start
}

#[test]
fn typed_letters_go_to_the_tape() {
    let mut app = App::new();
    for c in "Hello".chars() {
        assert!(app.handle_key(Key::Char(c), false, 7) == Action::Pressed);
    }
    assert_eq!(app.plaintext, "HELLO");
    assert_eq!(app.ciphertext, "ILBDM");
    let anim = app.anim.as_ref().unwrap();
    assert_eq!((anim.hop, anim.hop_timer, anim.trace.key), (0, 7, 14));
    assert!(app.handle_key(Key::Char('7'), false, 7) == Action::Idle);
    assert_eq!(app.plaintext, "HELLO");
}

#[test]
fn ciphertext_decodes_under_the_same_settings() {
    let mut enc = App::new();
    type_text(&mut enc, "TESTINGONE");
    assert_eq!(enc.ciphertext, "ELPFDEZQVC");
    let mut dec = App::new();
    let cipher = enc.ciphertext.clone();
    type_text(&mut dec, &cipher);
    assert_eq!(dec.ciphertext, "TESTINGONE");
}

#[test]
fn commands_on_the_run_screen() {
    let mut app = App::new();
    type_text(&mut app, "ABC");
    assert!(app.handle_key(Key::Char('s'), true, 0) == Action::Save);
    assert!(app.handle_key(Key::Char('S'), true, 0) == Action::Save);
    assert!(app.handle_key(Key::Char('x'), true, 0) == Action::Idle);
    assert_eq!(app.plaintext, "ABC");
    assert!(app.handle_key(Key::Char('R'), true, 9) == Action::Applied);
    assert!(app.plaintext.is_empty() && app.ciphertext.is_empty());
    assert_eq!(app.status, Some(("reset to start settings".to_string(), 9)));
    assert!(app.handle_key(Key::Char('?'), true, 0) == Action::Idle);
    assert!(app.screen == Screen::Help);
    assert!(!app.quit);
}

#[test]
fn quitting() {
    let mut app = App::new();
    app.handle_key(Key::Esc, false, 0);
    assert!(app.quit);
    for key in [Key::Tab, Key::Char('?')] {
        let mut app = App::new();
        app.handle_key(key, false, 0);
        app.handle_key(Key::Char('C'), true, 0);
        assert!(!app.quit);
        app.handle_key(Key::Char('c'), true, 0);
        assert!(app.quit);
    }
}

#[test]
fn help_screen_scrolls() {
    let mut app = App::new();
    app.handle_key(Key::Char('?'), false, 0);
    app.handle_key(Key::Up, false, 0);
    assert_eq!(app.help_scroll, 0);
    app.handle_key(Key::Down, false, 0);
    app.handle_key(Key::Down, false, 0);
    app.handle_key(Key::Up, false, 0);
    app.handle_key(Key::Char('a'), false, 0);
    assert_eq!(app.help_scroll, 1);
    app.help_scroll = u16::MAX;
    app.handle_key(Key::Down, false, 0);
    assert_eq!(app.help_scroll, u16::MAX);
    app.handle_key(Key::Esc, false, 0);
    assert!(app.screen == Screen::Run);
    assert_eq!(app.help_scroll, 0);
    assert!(!app.quit);
}

#[test]
fn setup_fields_change_and_wrap() {
    let mut app = App::new();
    app.handle_key(Key::Tab, false, 0);
    assert!(app.screen == Screen::Setup);
    app.handle_key(Key::Up, false, 0);
    assert_eq!(app.sel, 10);
    app.handle_key(Key::Down, false, 0);
    assert_eq!(app.sel, 0);
    app.handle_key(Key::Left, false, 0);
    assert_eq!(app.config.reflector, 1);
    app.handle_key(Key::Right, false, 0);
    assert_eq!(app.config.reflector, 0);
    app.handle_key(Key::Down, false, 0);
    app.handle_key(Key::Right, false, 0); // I -> IV, past II and III
    assert_eq!(app.config.rotors, [3, 1, 2]);
    app.handle_key(Key::Left, false, 0);
    assert_eq!(app.config.rotors, [0, 1, 2]);
    app.sel = 5;
    app.handle_key(Key::Left, false, 0);
    assert_eq!(app.config.rings, [0, 25, 0]);
    app.sel = 9;
    app.handle_key(Key::Right, false, 0);
    assert_eq!(app.config.positions, [0, 0, 1]);
    assert!(app.handle_key(Key::Enter, false, 0) == Action::Applied);
    assert!(app.screen == Screen::Run);
    assert_eq!(app.machine.rotors[2].position, 1);
    assert_eq!(app.machine.rotors[1].ring, 25);
}

#[test]
fn edits_that_are_not_applied_leave_the_machine_alone() {
    let mut app = App::new();
    type_text(&mut app, "HE");
    app.handle_key(Key::Tab, false, 0);
    app.sel = 9;
    app.handle_key(Key::Right, false, 0);
    app.sel = 10;
    app.handle_key(Key::Char('b'), false, 0);
    assert_eq!(app.pending, Some(1));
    assert!(app.handle_key(Key::Esc, false, 0) == Action::Idle);
    assert_eq!(app.pending, None);
    assert_eq!(app.config.positions, [0, 0, 0]);
    type_text(&mut app, "LLO");
    assert_eq!(app.ciphertext, "ILBDM");
}

#[test]
fn plugboard_field() {
    let mut app = App::new();
    app.handle_key(Key::Tab, false, 0);
    app.handle_key(Key::Char('q'), false, 0); // another field is selected
    assert_eq!(app.pending, None);
    app.handle_key(Key::Up, false, 0);
    app.handle_key(Key::Char('z'), false, 0);
    app.handle_key(Key::Char('Z'), false, 0); // the same letter again
    assert_eq!(app.pending, None);
    app.handle_key(Key::Char('z'), false, 0);
    app.handle_key(Key::Char('m'), false, 0); // takes M from A
    assert_eq!(app.config.plugs, vec![(5, 19), (12, 25)]);
    app.handle_key(Key::Char('m'), false, 0);
    app.handle_key(Key::Char('z'), false, 0); // again, to remove
    assert_eq!(app.config.plugs, vec![(5, 19)]);
    app.handle_key(Key::Char('a'), false, 0);
    app.handle_key(Key::Backspace, false, 0); // drops the waiting letter
    assert_eq!(app.pending, None);
    assert_eq!(app.config.plugs, vec![(5, 19)]);
    app.handle_key(Key::Backspace, false, 0);
    app.handle_key(Key::Backspace, false, 0);
    assert!(app.config.plugs.is_empty());
    app.handle_key(Key::Char('a'), false, 0);
    app.handle_key(Key::Char('b'), false, 0);
    app.handle_key(Key::Char('c'), false, 0);
    app.handle_key(Key::Delete, false, 0);
    assert!(app.config.plugs.is_empty());
    assert_eq!(app.pending, None);
}

#[test]
fn at_most_ten_cables() {
    let mut c = Config::default();
    c.plugs.clear();
    for i in 0..10u8 {
        c.toggle_plug(2 * i + 1, 2 * i);
    }
    assert_eq!(c.plugs.len(), 10);
    assert_eq!(c.plugs[3], (6, 7));
    c.toggle_plug(20, 21); // no cable left
    assert_eq!(c.plugs.len(), 10);
    c.toggle_plug(0, 20); // replaces the cable of letter 0
    assert_eq!(c.plugs.len(), 10);
    assert_eq!(c.plugs[9], (0, 20));
    c.toggle_plug(20, 0);
    assert_eq!(c.plugs.len(), 9);
}

#[test]
fn toggling_twice_restores_the_cables() {
    let mut c = Config::default();
    c.toggle_plug(3, 4);
    assert_eq!(c.plugs, vec![(0, 12), (5, 19), (3, 4)]);
    c.toggle_plug(4, 3);
    assert_eq!(c.plugs, vec![(0, 12), (5, 19)]);
}

#[test]
fn fields_go_round_by_any_step() {
    let mut c = Config::default();
    c.adjust_field(2, 5); // back to itself
    assert_eq!(c.rotors, [0, 1, 2]);
    c.adjust_field(2, 2); // II -> IV
    assert_eq!(c.rotors, [0, 3, 2]);
    c.adjust_field(2, -2);
    assert_eq!(c.rotors, [0, 1, 2]);
    c.adjust_field(4, -27);
    assert_eq!(c.rings, [25, 0, 0]);
    c.adjust_field(10, 1);
    assert_eq!(c.plugs, vec![(0, 12), (5, 19)]);
}

#[test]
fn default_settings_build_the_default_machine() {
    let c = Config::default();
    let m = c.build();
    let names: Vec<&str> = m.rotors.iter().map(|r| r.spec.name).collect();
    assert_eq!(names, vec!["I", "II", "III"]);
    assert_eq!((m.plugboard[0], m.plugboard[12], m.plugboard[1]), (12, 0, 1));
    assert_eq!(m.reflector[0], 24);
}

#[test]
fn signal_arrives_after_ten_hops() {
    let mut app = App::new();
    app.press(0, 0);
    let lamp = app.anim.as_ref().unwrap().trace.lamp;
    let mut now = 0;
    app.tick(54_999_999);
    assert_eq!(app.anim.as_ref().unwrap().hop, 0);
    for hop in 1..=10 {
        assert_eq!(app.live_lamp(), None);
        now += 55_000_000;
        app.tick(now);
        assert_eq!(app.anim.as_ref().unwrap().hop, hop);
    }
    assert_eq!(app.live_lamp(), Some(lamp));
    app.tick(now + 1_000_000_000);
    assert_eq!(app.anim.as_ref().unwrap().hop, 10);
}

#[test]
fn messages_expire() {
    let mut app = App::new();
    app.save_done(Ok("enigmascope-5.txt".to_string()), 100);
    assert_eq!(app.status, Some(("saved session to ./enigmascope-5.txt".to_string(), 100)));
    app.tick(4_000_000_099);
    assert!(app.status.is_some());
    app.tick(4_000_000_100);
    assert_eq!(app.status, None);
    app.save_done(Err("disk full".to_string()), 0);
    assert_eq!(app.status, Some(("save failed: disk full".to_string(), 0)));
}

#[test]
fn same_settings_and_input_give_the_same_report() {
    let mut first = App::new();
    type_text(&mut first, "WETTERBERICHT");
    let mut second = App::new();
    type_text(&mut second, "VERTIPPT");
    second.handle_key(Key::Char('r'), true, 5);
    type_text(&mut second, "WETTERBERICHT");
    assert_eq!(first.ciphertext, second.ciphertext);
    assert_eq!(first.session_report(86400), second.session_report(86400));
}

#[test]
fn escape_cancels_the_edits() {
    let mut app = App::new();
    app.screen = Screen::Setup;
    assert!(app.handle_setup_key(Key::Right) == Action::Idle);
    assert_eq!(app.config.reflector, 1);
    assert!(app.handle_setup_key(Key::Esc) == Action::Idle);
    assert_eq!(app.config.reflector, 0);
    assert!(app.screen == Screen::Run);
    assert_eq!(app.pending, None);
    assert_eq!(app.machine.reflector[0], 24);

    // Every field, one after the other, and the cables.
    app.handle_key(Key::Tab, false, 0);
    for _ in 0..10 {
        app.handle_key(Key::Right, false, 0);
        app.handle_key(Key::Down, false, 0);
    }
    app.handle_key(Key::Delete, false, 0);
    for c in "xyq".chars() {
        app.handle_key(Key::Char(c), false, 0);
    }
    assert_eq!(app.config.plugs, vec![(23, 24)]);
    app.handle_key(Key::Esc, false, 0);
    assert_eq!((app.config.reflector, app.config.rotors), (0, [0, 1, 2]));
    assert_eq!((app.config.rings, app.config.positions), ([0, 0, 0], [0, 0, 0]));
    assert_eq!(app.config.plugs, vec![(0, 12), (5, 19)]);
    assert_eq!(app.pending, None);

    // What was cancelled does not come back with a reset.
    app.handle_key(Key::Char('r'), true, 0);
    assert_eq!(app.machine.reflector[0], 24);
    assert_eq!(app.machine.plugboard[0], 12);
}

#[test]
fn report_shows_the_settings_in_use() {
    let mut app = App::new();
    type_text(&mut app, "A");
    assert_eq!(app.ciphertext, "D");
    app.handle_key(Key::Tab, false, 0);
    app.handle_key(Key::Right, false, 0);
    app.handle_key(Key::Char('c'), true, 0); // quits from the setup screen
    assert!(app.quit);
    assert!(app.session_report(0).contains("Reflector   : B\n"));
    app.handle_key(Key::Esc, false, 0);
    assert!(app.session_report(0).contains("Reflector   : B\n"));
    app.handle_key(Key::Tab, false, 0);
    app.handle_key(Key::Right, false, 0);
    app.handle_key(Key::Enter, false, 0);
    type_text(&mut app, "A");
    assert_eq!(app.ciphertext, "R");
    let report = app.session_report(0);
    assert!(report.contains("Reflector   : C\n"));
    assert!(report.contains("Output (cipher)   : R\n"));
}

#[test]
fn copies_are_alike() {
    let mut c = Config::default();
    let copy = c.clone();
    c.toggle_plug(1, 2);
    assert_eq!(copy.plugs, vec![(0, 12), (5, 19)]);
    assert_eq!((copy.reflector, copy.rotors), (0, [0, 1, 2]));
    let rotor = copy.build().rotors[1].clone();
    assert_eq!((rotor.spec.name, rotor.position, rotor.ring), ("II", 0, 0));
    assert_eq!((rotor.forward[1], rotor.inverse[9]), (9, 1));
}

#[test]
fn toggling_on_a_full_board() {
    let mut c = Config::default();
    c.plugs.clear();
    for i in 0..10u8 {
        c.toggle_plug(2 * i, 2 * i + 1);
    }
    let full = c.plugs.clone();
    c.toggle_plug(24, 22);
    assert_eq!(c.plugs, full);
    c.toggle_plug(24, 22);
    assert_eq!(c.plugs, full);
    // The order of the letters does not matter, whether the pair is there or not.
    for (a, b) in [(0, 1), (1, 2), (7, 20), (22, 24), (5, 5)] {
        let mut one = c.clone();
        let mut other = c.clone();
        one.toggle_plug(a, b);
        other.toggle_plug(b, a);
        assert_eq!(one.plugs, other.plugs);
    }
}
