use enigmascope::civil::utc_from_unix;
use enigmascope::report::session_file_name;
use enigmascope::session::App;
use enigmascope::text::{
    contact, group, letter, push_centred, push_decimal, push_left_aligned, push_zero_padded,
};

#[test]
fn whole_report() {
    let mut app = App::new();
    for ch in "TESTINGONE".bytes() {
        app.press(ch - b'A', 0);
    }
    assert_eq!(
        app.session_report(1_700_000_000),
        "Enigmascope session — 2023-11-14 22:13:20 UTC\n\
         ============================================\n\
         Reflector   : B\n\
         Rotors      : I II III   (left middle right)\n\
         Ring setting: A A A\n\
         Start pos   : A A A\n\
         Plugboard   : AM FT\n\
         End pos     : AAK\n\
         \n\
         Input  (plaintext): TESTI NGONE\n\
         Output (cipher)   : ELPFD EZQVC\n\
         \n\
         To verify: set any Enigma emulator to the settings above and type the\n\
         input; the output should match exactly.\n"
    );
}

#[test]
fn report_without_cables() {
    let mut app = App::new();
    app.config.plugs.clear();
    app.apply();
    assert!(app.session_report(0).contains("Plugboard   : (none)\n"));
    app.config.plugs.push((3, 25));
    app.apply();
    assert!(app.session_report(0).contains("Plugboard   : DZ\n"));
}

#[test]
fn dates() {
    assert_eq!(utc_from_unix(0), (1970, 1, 1, 0, 0, 0));
    assert_eq!(utc_from_unix(951_782_400), (2000, 2, 29, 0, 0, 0));
    assert_eq!(utc_from_unix(68_169_600), (1972, 2, 29, 0, 0, 0));
    assert_eq!(utc_from_unix(1_700_000_000), (2023, 11, 14, 22, 13, 20));
    assert_eq!(utc_from_unix(4_102_444_799), (2099, 12, 31, 23, 59, 59));
    assert_eq!(utc_from_unix(-1), (1969, 12, 31, 23, 59, 59));
    assert_eq!(utc_from_unix(-62_167_219_201), (-1, 12, 31, 23, 59, 59));
}

#[test]
fn file_names() {
    assert_eq!(session_file_name(0), "enigmascope-0.txt");
    assert_eq!(session_file_name(1_700_000_000), "enigmascope-1700000000.txt");
    assert_eq!(session_file_name(u64::MAX), "enigmascope-18446744073709551615.txt");
}

#[test]
fn groups_of_five() {
    assert_eq!(group(""), "");
    assert_eq!(group("ABCDE"), "ABCDE");
    assert_eq!(group("ABCDEF"), "ABCDE F");
    assert_eq!(group("ABCDEFGHIJK"), "ABCDE FGHIJ K");
}

#[test]
fn numbers_and_padding() {
    let mut s = String::from("n=");
    push_decimal(&mut s, 1070);
    assert_eq!(s, "n=1070");
    for (n, width) in [(5i64, 2usize), (2023, 4), (12345, 4), (-5, 4), (-12345, 4), (0, 0), (i64::MIN, 4)] {
        let mut s = String::new();
        push_zero_padded(&mut s, n, width);
        assert_eq!(s, format!("{:0width$}", n, width = width));
    }
    for label in ["KB", "S", "UKW", "TOOLONG", ""] {
        let mut s = String::new();
        push_centred(&mut s, label, 3);
        assert_eq!(s, format!("{:^3}", label));
        let mut s = String::new();
        push_left_aligned(&mut s, label, 5);
        assert_eq!(s, format!("{:<5}", label));
    }
}

#[test]
fn letters_and_contacts() {
    assert_eq!((letter(0), letter(25)), ('A', 'Z'));
    assert_eq!((contact('A'), contact('z')), (Some(0), Some(25)));
    assert_eq!((contact('@'), contact('['), contact('`'), contact('{')), (None, None, None, None));
    assert_eq!(contact('\u{e4}'), None);
}
