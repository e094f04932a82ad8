use enigmascope::enigma::{
    rotor_spec, wrap26, Machine, Rotor, RotorSpec, Stage, REFLECTORS, REFLECTOR_B, REFLECTOR_C, ROTORS,
};

fn default_machine() -> Machine {
    // Rotors I II III (left to right), reflector B, rings AAA, positions AAA.
    let rotors = [
        Rotor::new(rotor_spec(0), 0, 0),
        Rotor::new(rotor_spec(1), 0, 0),
        Rotor::new(rotor_spec(2), 0, 0),
    ];
    Machine::new(rotors, REFLECTOR_B)
}

#[test]
fn canonical_vector() {
    // The textbook I-II-III / B / AAA / AAA vector; this exercises the double step too.
    let mut m = default_machine();
    let out: String = (0..25).map(|_| (b'A' + m.encode(0).lamp) as char).collect();
    assert_eq!(out, "BDZGOWCXLTKSBTMCDLPBMUQOF");
}

#[test]
fn reciprocal() {
    // Enigma is its own inverse with the same start settings.
    let plaintext = "ENIGMAREVEALED";
    let mut enc = default_machine();
    let cipher: Vec<u8> = plaintext.bytes().map(|b| enc.encode(b - b'A').lamp).collect();

    let mut dec = default_machine();
    let back: String = cipher.iter().map(|&c| (b'A' + dec.encode(c).lamp) as char).collect();
    assert_eq!(back, plaintext);
}

#[test]
fn operation_barbarossa_message() {
    // A message of July 1941: rotors II IV V, rings BUL, start BLA, ten cables.
    let rotors = [
        Rotor::new(rotor_spec(1), 1, 1),
        Rotor::new(rotor_spec(3), 11, 20),
        Rotor::new(rotor_spec(4), 0, 11),
    ];
    let mut m = Machine::new(rotors, REFLECTOR_B);
    m.set_plugs(&[
        (0, 21), (1, 18), (2, 6), (3, 11), (5, 20),
        (7, 25), (8, 13), (10, 12), (14, 22), (17, 23),
    ]);
    let cipher = "EDPUDNRGYSZRCXNUYTPOMRMBOFKTBZREZKMLXLVEFGUEYSIOZV";
    let plain: String = cipher.bytes().map(|b| (b'A' + m.encode(b - b'A').lamp) as char).collect();
    assert_eq!(plain, "AUFKLXABTEILUNGXVONXKURTINOWAXKURTINOWAXNORDWESTLX");
}

#[test]
fn path_of_the_first_letter() {
    let mut m = default_machine();
    let trace = m.encode(0);
    assert_eq!(trace.key, 0);
    assert_eq!(trace.stepped, [false, false, true]);
    let stages: Vec<Stage> = trace.hops.iter().map(|h| h.stage).collect();
    assert!(
        stages
            == vec![
                Stage::PlugIn,
                Stage::Rotor(2),
                Stage::Rotor(1),
                Stage::Rotor(0),
                Stage::Reflector,
                Stage::RotorBack(0),
                Stage::RotorBack(1),
                Stage::RotorBack(2),
                Stage::PlugOut,
                Stage::Lamp,
            ]
    );
    let outputs: Vec<u8> = trace.hops.iter().map(|h| h.output).collect();
    assert_eq!(outputs, vec![0, 2, 3, 5, 18, 18, 4, 1, 1, 1]);
    assert_eq!(trace.hops[0].input, 0);
    for i in 1..trace.hops.len() {
        assert_eq!(trace.hops[i].input, trace.hops[i - 1].output);
    }
    assert_eq!(trace.lamp, 1);
}

#[test]
fn double_step_of_the_middle_rotor() {
    let rotors = [
        Rotor::new(rotor_spec(0), 0, 0),
        Rotor::new(rotor_spec(1), 3, 0),
        Rotor::new(rotor_spec(2), 20, 0),
    ];
    let mut m = Machine::new(rotors, REFLECTOR_B);
    let mut windows = Vec::new();
    for _ in 0..4 {
        m.encode(0);
        windows.push(m.rotors.iter().map(|r| r.window()).collect::<String>());
    }
    assert_eq!(windows, vec!["ADV", "AEW", "BFX", "BFY"]);
}

#[test]
fn other_rotors_rings_and_reflector() {
    let rotors = [
        Rotor::new(rotor_spec(4), 10, 1),
        Rotor::new(rotor_spec(3), 8, 2),
        Rotor::new(rotor_spec(1), 4, 3),
    ];
    let mut m = Machine::new(rotors, REFLECTOR_C);
    m.set_plugs(&[(0, 25), (1, 2)]);
    let t = m.encode(4);
    assert_eq!((t.lamp, t.stepped), (25, [false, true, true]));
    let t = m.encode(13);
    assert_eq!((t.lamp, t.stepped), (4, [true, true, true]));
    let rest: Vec<u8> = [8u8, 6, 12, 0].iter().map(|&k| m.encode(k).lamp).collect();
    assert_eq!(rest, vec![12, 1, 14, 22]);
}

#[test]
fn no_letter_enciphers_to_itself() {
    for key in 0..26 {
        let mut m = default_machine();
        for _ in 0..100 {
            assert_ne!(m.encode(key).lamp, key);
        }
    }
}

#[test]
fn rotor_round_trips_at_every_setting() {
    for index in 0..5 {
        for position in 0..26 {
            let r = Rotor::new(rotor_spec(index), position, 7);
            for c in 0..26 {
                assert_eq!(r.bwd(r.fwd(c)), c);
                assert_eq!(r.fwd(r.bwd(c)), c);
            }
        }
    }
}

#[test]
fn ring_and_position_turn_together() {
    let a = Rotor::new(rotor_spec(2), 5, 1);
    let b = Rotor::new(rotor_spec(2), 12, 8);
    for c in 0..26 {
        assert_eq!(a.fwd(c), b.fwd(c));
        assert_eq!(a.bwd(c), b.bwd(c));
    }
    assert_eq!(a.offset(), 4);
    assert_eq!(Rotor::new(rotor_spec(0), 0, 1).offset(), 25);
}

#[test]
fn rotor_steps_and_comes_round() {
    let mut r = Rotor::new(rotor_spec(0), 16, 0);
    assert!(r.at_notch());
    assert_eq!(r.window(), 'Q');
    r.step();
    assert!(!r.at_notch());
    assert_eq!(r.window(), 'R');
    for _ in 0..25 {
        r.step();
    }
    assert_eq!(r.position, 16);
}

#[test]
fn short_and_repeated_wirings() {
    let spec = RotorSpec { name: "X", wiring: "CCB", notch: 0 };
    let r = Rotor::new(spec, 0, 0);
    assert_eq!((r.fwd(0), r.fwd(1), r.fwd(2), r.fwd(3)), (2, 2, 1, 0));
    assert_eq!((r.bwd(2), r.bwd(1), r.bwd(0)), (1, 2, 0));
}

#[test]
fn standard_rotors_and_reflectors() {
    let names: Vec<&str> = (0..5).map(|i| rotor_spec(i).name).collect();
    assert_eq!(names, vec!["I", "II", "III", "IV", "V"]);
    let notches: String = (0..5).map(|i| (b'A' + rotor_spec(i).notch) as char).collect();
    assert_eq!(notches, "QEVJZ");
    assert_eq!(ROTORS[4].1, "VZBRGITYUPSDNHLXAWMJQOFECK");
    assert_eq!(REFLECTORS[0], ("B", REFLECTOR_B));
    assert_eq!(REFLECTORS[1], ("C", REFLECTOR_C));
}

#[test]
fn remainders_are_never_negative() {
    assert_eq!(wrap26(-1), 25);
    assert_eq!(wrap26(26), 0);
    assert_eq!(wrap26(-52), 0);
    assert_eq!(wrap26(i32::MIN), 2);
}

#[test]
fn wirings_are_permutations_and_pairings() {
    for (_, wiring, _) in ROTORS {
        let mut letters: Vec<u8> = wiring.bytes().collect();
        letters.sort();
        assert_eq!(letters, (b'A'..=b'Z').collect::<Vec<u8>>());
    }
    for (_, wiring) in REFLECTORS {
        let table: Vec<usize> = wiring.bytes().map(|b| (b - b'A') as usize).collect();
        for i in 0..26 {
            assert_ne!(table[i], i);
            assert_eq!(table[table[i]], i);
        }
    }
}

#[test]
fn rotors_stand_where_the_presses_leave_them() {
    // Which keys are pressed does not matter, nor how the presses are split up.
    let mut a = default_machine();
    let mut b = default_machine();
    let mut left_alone = 0;
    for i in 0..700u16 {
        let t = a.encode((i % 26) as u8);
        b.encode(3);
        assert!(t.stepped[2]);
        if t.stepped[0] && !t.stepped[1] {
            left_alone += 1;
        }
    }
    assert_eq!(left_alone, 0);
    for i in 0..3 {
        assert_eq!(a.rotors[i].position, b.rotors[i].position);
    }
    assert_eq!(a.rotors[2].position, (700 % 26) as u8);
}

#[test]
fn reciprocal_where_the_reflector_leaves_letters_alone() {
    // Only A and B are swapped by this reflector.
    let machine = || {
        let rotors = [
            Rotor::new(rotor_spec(0), 3, 1),
            Rotor::new(rotor_spec(1), 4, 0),
            Rotor::new(rotor_spec(2), 21, 7),
        ];
        let mut m = Machine::new(rotors, "BACDEFGHIJKLMNOPQRSTUVWXYZ");
        m.set_plugs(&[(0, 12), (5, 19)]);
        m
    };
    let message: Vec<u8> = (0..200u16).map(|i| (i * 7 % 26) as u8).collect();
    let mut enc = machine();
    let cipher: Vec<u8> = message.iter().map(|&c| enc.encode(c).lamp).collect();
    let changed = message.iter().zip(&cipher).filter(|(a, b)| a != b).count();
    assert!(0 < changed && changed < 200);
    let mut dec = machine();
    let back: Vec<u8> = cipher.iter().map(|&c| dec.encode(c).lamp).collect();
    assert_eq!(back, message);
}

#[test]
fn plugging_in_steps_and_again() {
    // The pairs share contacts: the later ones count.
    let first = [(0, 12), (5, 19), (12, 3)];
    let more = [(19, 0), (7, 7), (8, 25)];
    let all: Vec<(u8, u8)> = first.iter().chain(&more).copied().collect();
    let mut steps = default_machine();
    steps.set_plugs(&first);
    steps.set_plugs(&more);
    let mut once = default_machine();
    once.set_plugs(&all);
    assert_eq!(steps.plugboard, once.plugboard);
    assert_eq!((once.plugboard[0], once.plugboard[5], once.plugboard[19]), (19, 19, 0));
    assert_eq!((once.plugboard[12], once.plugboard[3], once.plugboard[4]), (3, 12, 4));
    once.set_plugs(&all);
    assert_eq!(steps.plugboard, once.plugboard);
}
