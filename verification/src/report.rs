//! The transcript of a session: the settings used, the keystrokes typed, and the
//! ciphertext produced.

use vstd::prelude::*;
use vstd::string::*;

use crate::civil::{utc_from_unix, utc_of, Utc};
use crate::config::ConfigView;
use crate::enigma::{standard_rotor, MachineView, REFLECTORS, ROTORS};
use crate::session::{App, AppView};
use crate::text::{
    decimal, group, grouped, letter, letter_of, push_decimal, push_zero_padded, zero_padded,
};

verus! {

/// The two letters of a cable.
pub open spec fn cable_text(pair: (u8, u8)) -> Seq<char> {
    seq![letter_of(pair.0), letter_of(pair.1)]
}

/// The cables, a space between them.
pub open spec fn cables_joined(plugs: Seq<(u8, u8)>) -> Seq<char>
    decreases plugs.len(),
{
    if plugs.len() == 0 {
        Seq::empty()
    } else if plugs.len() == 1 {
        cable_text(plugs[0])
    } else {
        cables_joined(plugs.drop_last()) + " "@ + cable_text(plugs.last())
    }
}

/// The plugboard line of the transcript.
pub open spec fn plugboard_text(plugs: Seq<(u8, u8)>) -> Seq<char> {
    if plugs.len() == 0 {
        "(none)"@
    } else {
        cables_joined(plugs)
    }
}

/// The title line, with the date and time.
pub open spec fn title_text(t: Utc) -> Seq<char> {
    "Enigmascope session \u{2014} "@ + zero_padded(t.0 as int, 4) + "-"@ + zero_padded(t.1 as int, 2)
        + "-"@ + zero_padded(t.2 as int, 2) + " "@ + zero_padded(t.3 as int, 2) + ":"@ + zero_padded(
        t.4 as int,
        2,
    ) + ":"@ + zero_padded(t.5 as int, 2)
        + " UTC\n============================================\n"@
}

/// Three letters with spaces between them.
pub open spec fn three_letters(v: Seq<u8>) -> Seq<char> {
    seq![letter_of(v[0]), ' ', letter_of(v[1]), ' ', letter_of(v[2])]
}

/// The letters in the three windows.
pub open spec fn windows_text(m: MachineView) -> Seq<char> {
    seq![letter_of(m.left.position), letter_of(m.middle.position), letter_of(m.right.position)]
}

/// The settings.
pub open spec fn settings_text(config: ConfigView) -> Seq<char> {
    "Reflector   : "@ + REFLECTORS[config.reflector as int].0@ + "\nRotors      : "@
        + standard_rotor(config.rotors[0] as int).name@ + " "@ + standard_rotor(
        config.rotors[1] as int,
    ).name@ + " "@ + standard_rotor(config.rotors[2] as int).name@
        + "   (left middle right)\nRing setting: "@ + three_letters(config.rings)
        + "\nStart pos   : "@ + three_letters(config.positions) + "\nPlugboard   : "@
        + plugboard_text(config.plugs)
}

/// The transcript of a session, dated `t`.
pub open spec fn report_text(app: AppView, t: Utc) -> Seq<char> {
    title_text(t) + settings_text(app.used) + "\nEnd pos     : "@ + windows_text(app.machine)
        + "\n\nInput  (plaintext): "@ + grouped(app.plaintext) + "\nOutput (cipher)   : "@ + grouped(
        app.ciphertext,
    )
        + "\n\nTo verify: set any Enigma emulator to the settings above and type the\ninput; the output should match exactly.\n"@
}

/// The cables, a space between them, or a word for none.
fn plugboard_line(plugs: &Vec<(u8, u8)>) -> (text: String)
    requires
        forall|i: int|
            0 <= i < plugs.len() ==> (#[trigger] plugs[i]).0 < 26 && plugs[i].1 < 26,
    ensures
        text@ == plugboard_text(plugs@),
{
    if plugs.len() == 0 {
        return "(none)".to_string();
    }
    let mut text = String::new();
    let mut i: usize = 0;
    proof {
        assert(text@ =~= cables_joined(plugs@.take(0)));
    }
    while i < plugs.len()
        invariant
            i <= plugs.len(),
            forall|i: int|
                0 <= i < plugs.len() ==> (#[trigger] plugs[i]).0 < 26 && plugs[i].1 < 26,
            text@ == cables_joined(plugs@.take(i as int)),
        decreases plugs.len() - i,
    {
        if i > 0 {
            text.append(" ");
        }
        let ghost spaced = text@;
        text.push(letter(plugs[i].0));
        text.push(letter(plugs[i].1));
        proof {
            let next = plugs@.take(i + 1);
            assert(next.drop_last() =~= plugs@.take(i as int));
            assert(next.last() == plugs@[i as int]);
            assert(text@ =~= spaced + cable_text(plugs@[i as int]));
            if i == 0 {
                assert(text@ =~= cable_text(next[0]));
            }
        }
        i += 1;
    }
    proof {
        assert(plugs@.take(i as int) =~= plugs@);
    }
    text
}

/// Three letters with spaces between them.
fn spaced_letters(v: &[u8; 3]) -> (text: String)
    requires
        forall|i: int| 0 <= i < 3 ==> #[trigger] v[i] < 26,
    ensures
        text@ == three_letters(v@),
{
    let mut text = String::new();
    text.push(letter(v[0]));
    text.push(' ');
    text.push(letter(v[1]));
    text.push(' ');
    text.push(letter(v[2]));
    proof {
        assert(text@ =~= three_letters(v@));
    }
    text
}

/// The title line, with the date and time.
fn title_line(t: Utc) -> (text: String)
    ensures
        text@ == title_text(t),
{
    let mut text = "Enigmascope session \u{2014} ".to_string();
    push_zero_padded(&mut text, t.0, 4);
    text.append("-");
    push_zero_padded(&mut text, t.1 as i64, 2);
    text.append("-");
    push_zero_padded(&mut text, t.2 as i64, 2);
    text.append(" ");
    push_zero_padded(&mut text, t.3 as i64, 2);
    text.append(":");
    push_zero_padded(&mut text, t.4 as i64, 2);
    text.append(":");
    push_zero_padded(&mut text, t.5 as i64, 2);
    text.append(" UTC\n============================================\n");
    text
}

impl App {
    /// The settings in use.
    fn settings_lines(&self) -> (text: String)
        requires
            self@.wf(),
        ensures
            text@ == settings_text(self@.used),
    {
        let c = &self.used;
        let mut text = "Reflector   : ".to_string();
        text.append(REFLECTORS[c.reflector].0);
        text.append("\nRotors      : ");
        text.append(ROTORS[c.rotors[0]].0);
        text.append(" ");
        text.append(ROTORS[c.rotors[1]].0);
        text.append(" ");
        text.append(ROTORS[c.rotors[2]].0);
        text.append("   (left middle right)\nRing setting: ");
        text.append(spaced_letters(&c.rings).as_str());
        text.append("\nStart pos   : ");
        text.append(spaced_letters(&c.positions).as_str());
        text.append("\nPlugboard   : ");
        text.append(plugboard_line(&c.plugs).as_str());
        text
    }

    /// A full, human-readable transcript of the session, dated `secs` seconds after
    /// 1970 began: the settings used, the keystrokes typed, and the ciphertext
    /// produced. It is both the record and the way to verify the machine against any
    /// reference Enigma.
    pub fn session_report(&self, secs: i64) -> (text: String)
        requires
            self@.wf(),
        ensures
            text@ == report_text(self@, utc_of(secs as int)),
    {
        let mut text = title_line(utc_from_unix(secs));
        text.append(self.settings_lines().as_str());
        text.append("\nEnd pos     : ");
        let mut windows = String::new();
        windows.push(self.machine.rotors[0].window());
        windows.push(self.machine.rotors[1].window());
        windows.push(self.machine.rotors[2].window());
        proof {
            assert(windows@ =~= windows_text(self@.machine));
        }
        text.append(windows.as_str());
        text.append("\n\nInput  (plaintext): ");
        text.append(group(self.plaintext.as_str()).as_str());
        text.append("\nOutput (cipher)   : ");
        text.append(group(self.ciphertext.as_str()).as_str());
        text.append(
            "\n\nTo verify: set any Enigma emulator to the settings above and type the\ninput; the output should match exactly.\n",
        );
        text
    }
}

/// The name of the file for a transcript saved `secs` seconds after 1970 began.
pub fn session_file_name(secs: u64) -> (name: String)
    ensures
        name@ == "enigmascope-"@ + decimal(secs as nat) + ".txt"@,
{
    let mut name = "enigmascope-".to_string();
    push_decimal(&mut name, secs);
    name.append(".txt");
    name
}

} // verus!
