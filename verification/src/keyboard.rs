//! What every key does on every screen, told key by key, and what time does.

use vstd::prelude::*;
use vstd::string::*;

use crate::config::{toggled, ConfigView};
use crate::record::Event;
use crate::session::{Action, AnimationView, AppView, Key, Screen};
use crate::text::{letter_of, letters_stand_for_their_places};

verus! {

/// A fresh session: the run screen, the first key in use and on the setup screen, an
/// empty tape, nothing selected but the first field.
pub proof fn a_session_begins()
    ensures
        ({
            let s = AppView::initial();
            &&& s.config == ConfigView::initial() && s.used == s.config
            &&& s.machine == s.used.machine()
            &&& s.plaintext.len() == 0 && s.ciphertext.len() == 0
            &&& s.anim is None && s.status is None && s.pending is None
            &&& s.screen == Screen::Run && s.sel == 0 && s.help_scroll == 0 && !s.quit
        }),
{
}

/// A press of a key, whatever screen is shown: the tape, the machine and the path
/// shown change as for a letter that is typed, and nothing else does.
pub proof fn pressing_a_key(s: AppView, v: u8, now: u128)
    requires
        v < 26,
    ensures
        s.pressed(v, now) == (AppView {
            plaintext: s.plaintext.push(('A' as int + v) as char),
            ciphertext: s.ciphertext.push(letter_of(s.machine.trace(v).lamp)),
            machine: s.machine.stepped(),
            anim: Some(AnimationView { trace: s.machine.trace(v), hop: 0, hop_timer: now }),
            ..s
        }),
{
    letters_stand_for_their_places(v, 'A');
}

/// To apply the settings is to put them to use: the machine is set up with them, the
/// tape cleared, and what was shown or waited for given up.
pub proof fn applying_the_settings(s: AppView)
    ensures
        s.applied() == (AppView {
            used: s.config,
            machine: s.config.machine(),
            plaintext: Seq::empty(),
            ciphertext: Seq::empty(),
            anim: None,
            pending: None,
            ..s
        }),
{
}

/// A letter typed on the run screen, in either case, goes to the end of the plaintext
/// in upper case; the letter of the lamp that it lights goes to the end of the
/// ciphertext. The machine makes one press, and the path of the signal is shown from
/// its first place on. Nothing else changes.
pub proof fn typing_a_letter(s: AppView, v: u8, lower: bool, now: u128)
    requires
        s.screen == Screen::Run,
        v < 26,
    ensures
        ({
            let c = if lower {
                ('a' as int + v) as char
            } else {
                ('A' as int + v) as char
            };
            let (out, action) = s.handled(Key::Char(c), false, now);
            &&& action == Action::Pressed
            &&& out.plaintext.len() == s.plaintext.len() + 1
            &&& out.plaintext.drop_last() == s.plaintext
            &&& out.plaintext.last() as int == 'A' as int + v
            &&& out.ciphertext.len() == s.ciphertext.len() + 1
            &&& out.ciphertext.drop_last() == s.ciphertext
            &&& out.ciphertext.last() == letter_of(s.machine.trace(v).lamp)
            &&& out.machine == s.machine.stepped()
            &&& out.anim == Some(
                AnimationView { trace: s.machine.trace(v), hop: 0, hop_timer: now },
            )
            &&& out == AppView {
                plaintext: out.plaintext,
                ciphertext: out.ciphertext,
                machine: out.machine,
                anim: out.anim,
                ..s
            }
        }),
{
    letters_stand_for_their_places(v, 'A');
    let c = if lower {
        ('a' as int + v) as char
    } else {
        ('A' as int + v) as char
    };
    let out = s.handled(Key::Char(c), false, now).0;
    assert(out.plaintext.drop_last() =~= s.plaintext);
    assert(out.ciphertext.drop_last() =~= s.ciphertext);
}

/// The commands of the run screen: Esc quits, Tab opens the setup screen, a question
/// mark the help screen, Ctrl+S asks for the session to be saved. None of them does
/// anything else.
pub proof fn commands_on_the_run_screen(s: AppView, ctrl: bool, now: u128)
    requires
        s.screen == Screen::Run,
    ensures
        s.handled(Key::Esc, ctrl, now) == (AppView { quit: true, ..s }, Action::Idle),
        s.handled(Key::Tab, ctrl, now) == (AppView { screen: Screen::Setup, ..s }, Action::Idle),
        s.handled(Key::Char('?'), ctrl, now) == (
            AppView { screen: Screen::Help, ..s },
            Action::Idle,
        ),
        s.handled(Key::Char('s'), true, now) == (s, Action::Save),
        s.handled(Key::Char('S'), true, now) == (s, Action::Save),
{
}

/// Ctrl+R sets the machine up anew from the settings, clears the tape and says so in
/// the footer, on the run screen.
pub proof fn control_r_resets(s: AppView, now: u128)
    requires
        s.screen == Screen::Run,
    ensures
        s.handled(Key::Char('r'), true, now) == s.handled(Key::Char('R'), true, now),
        s.handled(Key::Char('r'), true, now).1 == Action::Applied,
        s.handled(Key::Char('r'), true, now).0 == (AppView {
            used: s.config,
            machine: s.config.machine(),
            plaintext: Seq::empty(),
            ciphertext: Seq::empty(),
            anim: None,
            pending: None,
            status: Some(("reset to start settings"@, now)),
            ..s
        }),
{
}

/// All other keys do nothing on the run screen: neither characters that are no
/// letters, nor letters with Ctrl that stand for no command, nor keys that are used
/// on other screens.
pub proof fn other_keys_on_the_run_screen(s: AppView, key: Key, ctrl: bool, now: u128)
    requires
        s.screen == Screen::Run,
        match key {
            Key::Esc | Key::Tab => false,
            Key::Char(c) => if ctrl {
                c != '?' && c != 's' && c != 'S' && c != 'r' && c != 'R' && c != 'c'
            } else {
                c != '?' && !('A' <= c <= 'Z') && !('a' <= c <= 'z')
            },
            _ => true,
        },
    ensures
        s.handled(key, ctrl, now) == (s, Action::Idle),
{
}

/// Ctrl+C quits on every screen, and does nothing else.
pub proof fn control_c_quits(s: AppView, now: u128)
    ensures
        s.handled(Key::Char('c'), true, now) == (AppView { quit: true, ..s }, Action::Idle),
{
}

/// The help screen: Down and Up scroll by one line, no further up than the top and no
/// further down than can be counted. Esc and a question mark go back to the run
/// screen, and to the top of the text. Other keys do nothing.
pub proof fn keys_on_the_help_screen(s: AppView, key: Key, ctrl: bool, now: u128)
    requires
        s.screen == Screen::Help,
        !(key == Key::Char('c') && ctrl),
    ensures
        ({
            let (out, action) = s.handled(key, ctrl, now);
            &&& action == Action::Idle
            &&& key == Key::Esc || key == Key::Char('?') ==> out == AppView {
                screen: Screen::Run,
                help_scroll: 0,
                ..s
            }
            &&& key == Key::Down ==> out == AppView { help_scroll: out.help_scroll, ..s }
            &&& key == Key::Down && s.help_scroll < 65535 ==> out.help_scroll == s.help_scroll + 1
            &&& key == Key::Down && s.help_scroll == 65535 ==> out == s
            &&& key == Key::Up ==> out == AppView { help_scroll: out.help_scroll, ..s }
            &&& key == Key::Up && s.help_scroll > 0 ==> out.help_scroll == s.help_scroll - 1
            &&& key == Key::Up && s.help_scroll == 0 ==> out == s
            &&& key != Key::Esc && key != Key::Char('?') && key != Key::Down && key != Key::Up
                ==> out == s
        }),
{
}

/// On the setup screen a key does what it does at the setup fields, whether Ctrl is
/// held or not; only Ctrl+C is another matter.
pub proof fn keys_on_the_setup_screen(s: AppView, key: Key, ctrl: bool, now: u128)
    requires
        s.screen == Screen::Setup,
        !(key == Key::Char('c') && ctrl),
    ensures
        s.handled(key, ctrl, now) == s.setup_key(key),
{
}

/// On the setup screen Down selects the next field and Up the one before, from the
/// last of the eleven to the first and back.
pub proof fn moving_through_the_setup_screen(s: AppView)
    requires
        s.sel < 11,
    ensures
        s.setup_key(Key::Down) == (
            AppView {
                sel: if s.sel < 10 {
                    (s.sel + 1) as usize
                } else {
                    0
                },
                ..s
            },
            Action::Idle,
        ),
        s.setup_key(Key::Up) == (
            AppView {
                sel: if s.sel > 0 {
                    (s.sel - 1) as usize
                } else {
                    10
                },
                ..s
            },
            Action::Idle,
        ),
{
}

/// On the setup screen Right steps the selected field on and Left steps it back.
/// Enter puts the settings to use: the machine is set up anew, the tape cleared, and
/// the run screen shown. Esc gives them up.
pub proof fn changing_and_leaving_the_setup_screen(s: AppView)
    ensures
        s.setup_key(Key::Right) == (
            AppView { config: s.config.adjusted(s.sel as int, 1), ..s },
            Action::Idle,
        ),
        s.setup_key(Key::Left) == (
            AppView { config: s.config.adjusted(s.sel as int, -1), ..s },
            Action::Idle,
        ),
        s.setup_key(Key::Enter) == (
            AppView {
                used: s.config,
                machine: s.config.machine(),
                plaintext: Seq::empty(),
                ciphertext: Seq::empty(),
                anim: None,
                pending: None,
                screen: Screen::Run,
                ..s
            },
            Action::Applied,
        ),
        s.setup_key(Key::Esc) == (
            AppView { config: s.used, pending: None, screen: Screen::Run, ..s },
            Action::Idle,
        ),
{
}

/// At the plugboard field a first letter waits for its partner, the same letter again
/// is dropped, and a second letter toggles the pair.
pub proof fn letters_at_the_plugboard(s: AppView, v: u8, lower: bool)
    requires
        s.sel == 10,
        v < 26,
    ensures
        ({
            let c = if lower {
                ('a' as int + v) as char
            } else {
                ('A' as int + v) as char
            };
            let (out, action) = s.setup_key(Key::Char(c));
            &&& action == Action::Idle
            &&& s.pending is None ==> out == AppView { pending: Some(v), ..s }
            &&& s.pending == Some(v) ==> out == AppView { pending: None, ..s }
            &&& s.pending is Some && s.pending != Some(v) ==> {
                &&& out == AppView { config: out.config, pending: None, ..s }
                &&& out.config == ConfigView { plugs: out.config.plugs, ..s.config }
                &&& out.config.plugs == toggled(
                    s.config.plugs,
                    s.pending.unwrap(),
                    v,
                )
            }
        }),
{
    letters_stand_for_their_places(v, 'A');
}

/// At the plugboard field Delete takes out all cables and drops a waiting letter;
/// Backspace drops a waiting letter, or else takes out the last cable.
pub proof fn deleting_at_the_plugboard(s: AppView)
    requires
        s.sel == 10,
    ensures
        s.setup_key(Key::Delete) == (
            AppView {
                config: ConfigView { plugs: Seq::empty(), ..s.config },
                pending: None,
                ..s
            },
            Action::Idle,
        ),
        s.pending is Some ==> s.setup_key(Key::Backspace) == (
            AppView { pending: None, ..s },
            Action::Idle,
        ),
        s.pending is None && s.config.plugs.len() > 0 ==> s.setup_key(Key::Backspace) == (
            AppView {
                config: ConfigView {
                    plugs: s.config.plugs.take(s.config.plugs.len() - 1),
                    ..s.config
                },
                ..s
            },
            Action::Idle,
        ),
        s.pending is None && s.config.plugs.len() == 0 ==> s.setup_key(Key::Backspace) == (
            s,
            Action::Idle,
        ),
{
    if s.config.plugs.len() > 0 {
        assert(s.config.plugs.take(s.config.plugs.len() - 1) =~= s.config.plugs.drop_last());
    }
}

/// All other keys do nothing on the setup screen; letters, Delete and Backspace do
/// nothing but at the plugboard field.
pub proof fn other_keys_on_the_setup_screen(s: AppView, key: Key)
    requires
        match key {
            Key::Tab | Key::Other => true,
            Key::Delete | Key::Backspace => s.sel != 10,
            Key::Char(c) => s.sel != 10 || (!('A' <= c <= 'Z') && !('a' <= c <= 'z')),
            _ => false,
        },
    ensures
        s.setup_key(key) == (s, Action::Idle),
{
}

/// Time changes only the message in the footer, which goes four seconds after it
/// came, and the place where the signal is shown, which moves on by one when the
/// signal has rested there for 55 milliseconds, up to the end of the path.
pub proof fn what_time_does(s: AppView, now: u128)
    requires
        s.anim matches Some(a) ==> a.trace.hops.len() == 10,
    ensures
        ({
            let out = s.ticked(now);
            &&& out == AppView { status: out.status, anim: out.anim, ..s }
            &&& s.status is None ==> out.status is None
            &&& s.status matches Some(m) ==> out.status == if now >= m.1 + 4_000_000_000 {
                None
            } else {
                Some(m)
            }
            &&& s.anim is None ==> out.anim is None
            &&& s.anim matches Some(a) ==> out.anim matches Some(b) && {
                let due = now >= a.hop_timer + 55_000_000;
                &&& b.trace == a.trace
                &&& b.hop_timer == if due {
                    now
                } else {
                    a.hop_timer
                }
                &&& b.hop == if due && a.hop < a.trace.hops.len() {
                    a.hop + 1
                } else {
                    a.hop as int
                }
            }
        }),
{
}

/// The lamp that is lit is that of the path shown, and only when the signal has come
/// to its end.
pub proof fn the_lamp_that_is_lit(s: AppView)
    ensures
        s.anim is None ==> s.live_lamp() is None,
        s.anim matches Some(a) ==> s.live_lamp() == if a.hop < a.trace.hops.len() {
            None
        } else {
            Some(a.trace.lamp)
        },
{
}

/// A message comes into the footer and stays there with the time of its coming.
pub proof fn a_message_comes(s: AppView, message: Seq<char>, now: u128)
    ensures
        s.flashed(message, now) == (AppView { status: Some((message, now)), ..s }),
{
}

/// A history of events is lived through one by one.
pub proof fn one_event_after_the_other(s: AppView, events: Seq<Event>, event: Event)
    ensures
        s.after_all(Seq::empty()) == s,
        s.after_all(events.push(event)) == s.after_all(events).after(event),
{
    assert(events.push(event).drop_last() =~= events);
}

} // verus!
