//! What a session's tape is worth: it records what the machine makes of the typed
//! text under the settings in use, and can be decoded under them.

use vstd::prelude::*;

use crate::civil::Utc;
use crate::config::{
    adjusting_back_restores, adjusting_keeps_key, is_cabling, sound_keys_make_wired_machines,
    toggling_keeps_cabling, ConfigView,
};
use crate::reciprocity::{
    cipher_differs_everywhere, encipher_grows_by_presses, encipher_is_its_own_inverse, is_message,
    wired_machines_are_reversible,
};
use crate::report::report_text;
use crate::session::{
    contacts, elapsed, lemma_press, letters, Action, AppView, Key, Screen, HOP_TIME, N_FIELDS,
    STATUS_TIME,
};
use crate::text::{contact_of, letter_of};

verus! {

/// A fresh session is a record under its settings, and so is one whose settings
/// have just been applied.
pub proof fn applied_session_is_a_record(s: AppView)
    ensures
        AppView::initial().records(AppView::initial().used),
        s.applied().records(s.config),
{
    let m = s.config.machine();
    let start = AppView::initial();
    assert(contacts(Seq::<char>::empty()).len() == 0);
    assert(letters(m.encipher(contacts(s.applied().plaintext))) =~= s.applied().ciphertext);
    assert(letters(start.config.machine().encipher(contacts(start.plaintext)))
        =~= start.ciphertext);
    assert(m.run(0) == m);
    assert(start.config.machine().run(0) == start.machine);
}

/// Typing a letter extends the record.
pub proof fn pressing_extends_the_record(s: AppView, used: ConfigView, key: u8, now: u128)
    requires
        s.records(used),
        key < 26,
    ensures
        s.pressed(key, now).records(used),
{
    let m = used.machine();
    let typed = contacts(s.plaintext);
    encipher_grows_by_presses(m, typed, key);
    assert(contacts(s.plaintext.push(letter_of(key))) =~= typed.push(key));
    assert(letters(m.encipher(typed.push(key))) =~= letters(m.encipher(typed)).push(
        letter_of(m.run(typed.len()).trace(key).lamp),
    ));
}

/// Whatever is typed, on whichever screen, the tape stays a record of the settings
/// in use. Settings that are edited but not applied do not touch it.
pub proof fn every_key_keeps_the_record(s: AppView, key: Key, ctrl: bool, now: u128)
    requires
        s.records(s.used),
    ensures
        s.handled(key, ctrl, now).0.records(s.handled(key, ctrl, now).0.used),
{
    applied_session_is_a_record(s);
    match key {
        Key::Char(c) => {
            match contact_of(c) {
                Some(v) => {
                    pressing_extends_the_record(s, s.used, v, now);
                },
                None => {},
            }
        },
        _ => {},
    }
}

/// Something that happens to a session.
pub enum Event {
    /// A key, with or without Ctrl, and when it is typed.
    Key(Key, bool, u128),
    /// Time has come to this.
    Tick(u128),
    /// A message for the footer, and when it comes.
    Message(Seq<char>, u128),
}

impl AppView {
    /// The session after an event.
    pub open spec fn after(self, event: Event) -> AppView {
        match event {
            Event::Key(key, ctrl, now) => self.handled(key, ctrl, now).0,
            Event::Tick(now) => self.ticked(now),
            Event::Message(message, now) => self.flashed(message, now),
        }
    }

    /// The session after a history of events.
    pub open spec fn after_all(self, events: Seq<Event>) -> AppView
        decreases events.len(),
    {
        if events.len() == 0 {
            self
        } else {
            self.after_all(events.drop_last()).after(events.last())
        }
    }

    /// Nothing is being edited, unless the setup screen is open.
    pub open spec fn settled(self) -> bool {
        self.screen != Screen::Setup ==> self.config == self.used && self.pending is None
    }

    /// The session after keys on the setup screen.
    pub open spec fn edited(self, keys: Seq<Key>) -> AppView
        decreases keys.len(),
    {
        if keys.len() == 0 {
            self
        } else {
            self.edited(keys.drop_last()).setup_key(keys.last()).0
        }
    }
}

/// Edits at the plugboard leave a sound cabling.
proof fn lemma_plug_edits(plugs: Seq<(u8, u8)>)
    requires
        is_cabling(plugs),
    ensures
        is_cabling(Seq::empty()),
        plugs.len() > 0 ==> is_cabling(plugs.drop_last()),
{
    if plugs.len() > 0 {
        let rest = plugs.drop_last();
        assert(forall|i: int| 0 <= i < rest.len() ==> rest[i] == plugs[i]);
    }
}

/// A sound session whose settings are edited is sound if the edited settings are.
proof fn lemma_edit(s: AppView, config: ConfigView, pending: Option<u8>)
    requires
        s.wf(),
        config.wf(),
        pending matches Some(p) ==> p < 26,
    ensures
        (AppView { config, pending, ..s }).wf(),
{
}

/// Applying sound settings leaves a sound session.
proof fn lemma_apply(s: AppView)
    requires
        s.wf(),
    ensures
        s.applied().wf(),
{
    sound_keys_make_wired_machines(s.config);
    applied_session_is_a_record(s);
}

/// A key on the run screen leaves a sound session.
proof fn lemma_run_key(s: AppView, key: Key, ctrl: bool, now: u128)
    requires
        s.wf(),
    ensures
        s.run_key(key, ctrl, now).0.wf(),
{
    lemma_apply(s);
    match key {
        Key::Char(c) => {
            match contact_of(c) {
                Some(v) => {
                    lemma_press(s.machine, v);
                    pressing_extends_the_record(s, s.used, v, now);
                },
                None => {},
            }
        },
        _ => {},
    }
}

/// A key on the setup screen leaves a sound session.
pub(crate) proof fn lemma_setup_key(s: AppView, key: Key)
    requires
        s.wf(),
    ensures
        s.setup_key(key).0.wf(),
{
    match key {
        Key::Enter => {
            lemma_apply(s);
        },
        Key::Left => {
            adjusting_keeps_key(s.config, s.sel as int, -1);
        },
        Key::Right => {
            adjusting_keeps_key(s.config, s.sel as int, 1);
        },
        Key::Delete | Key::Backspace => {
            lemma_plug_edits(s.config.plugs);
        },
        Key::Char(c) => {
            match (contact_of(c), s.pending) {
                (Some(l), Some(p)) => {
                    if p != l {
                        toggling_keeps_cabling(s.config.plugs, p, l);
                    }
                },
                _ => {},
            }
        },
        _ => {},
    }
    if key != Key::Enter {
        assert(s.setup_key(key).0.config.wf());
        lemma_edit(s, s.setup_key(key).0.config, s.setup_key(key).0.pending);
    }
}

/// Every event leaves a sound session sound.
pub proof fn every_event_keeps_the_session(s: AppView, event: Event)
    requires
        s.wf(),
    ensures
        s.after(event).wf(),
        s.settled() ==> s.after(event).settled(),
{
    match event {
        Event::Key(key, ctrl, now) => {
            match s.screen {
                Screen::Run => {
                    lemma_run_key(s, key, ctrl, now);
                },
                Screen::Setup => {
                    lemma_setup_key(s, key);
                },
                Screen::Help => {},
            }
        },
        _ => {},
    }
}

/// Whatever happens to a session from its beginning on, its tape is a record of the
/// settings in use; and unless the setup screen is open, the settings shown are
/// those in use.
pub proof fn every_session_is_a_record(events: Seq<Event>)
    ensures
        AppView::initial().after_all(events).wf(),
        AppView::initial().after_all(events).settled(),
        AppView::initial().after_all(events).records(
            AppView::initial().after_all(events).used,
        ),
    decreases events.len(),
{
    if events.len() == 0 {
        sound_keys_make_wired_machines(ConfigView::initial());
        applied_session_is_a_record(AppView::initial());
    } else {
        every_session_is_a_record(events.drop_last());
        every_event_keeps_the_session(
            AppView::initial().after_all(events.drop_last()),
            events.last(),
        );
    }
}

/// Keys on the setup screen, but for Enter and Esc, change only what is being
/// edited.
proof fn lemma_edits(s: AppView, keys: Seq<Key>)
    requires
        forall|i: int|
            0 <= i < keys.len() ==> #[trigger] keys[i] != Key::Enter && keys[i] != Key::Esc,
    ensures
        s.edited(keys) == (AppView {
            config: s.edited(keys).config,
            sel: s.edited(keys).sel,
            pending: s.edited(keys).pending,
            ..s
        }),
    decreases keys.len(),
{
    if keys.len() > 0 {
        lemma_edits(s, keys.drop_last());
        assert(keys.last() != Key::Enter && keys.last() != Key::Esc);
    }
}

/// Esc on the setup screen cancels: whatever has been edited since the screen was
/// opened, the session is as it was before, but for the field that is selected.
pub proof fn cancelling_undoes_all_edits(s: AppView, keys: Seq<Key>)
    requires
        s.screen == Screen::Run,
        s.settled(),
        forall|i: int|
            0 <= i < keys.len() ==> #[trigger] keys[i] != Key::Enter && keys[i] != Key::Esc,
    ensures
        ({
            let open = AppView { screen: Screen::Setup, ..s }.edited(keys);
            open.setup_key(Key::Esc).0 == AppView { sel: open.sel, ..s }
        }),
{
    lemma_edits(AppView { screen: Screen::Setup, ..s }, keys);
}

/// A transcript can be verified: a machine set to the settings that it shows lights
/// its output when it is given its input, and ends with its letters in the windows.
pub proof fn transcript_can_be_verified(s: AppView)
    requires
        s.wf(),
    ensures
        letters(s.used.machine().encipher(contacts(s.plaintext))) == s.ciphertext,
        s.machine == s.used.machine().run(s.plaintext.len()),
{
}

/// Two sessions under the same settings that are given the same input have the same
/// transcript, whatever else happened to them.
pub proof fn settings_and_input_make_the_transcript(s: AppView, other: AppView, t: Utc)
    requires
        s.wf(),
        other.wf(),
        other.used == s.used,
        other.plaintext == s.plaintext,
    ensures
        report_text(other, t) == report_text(s, t),
{
    transcript_can_be_verified(s);
    transcript_can_be_verified(other);
}

/// The ciphertext, typed into a machine with the settings in use, gives the
/// plaintext back.
pub proof fn record_can_be_decoded(s: AppView)
    requires
        s.wf(),
    ensures
        letters(s.used.machine().encipher(contacts(s.ciphertext))) == s.plaintext,
{
    let m = s.used.machine();
    let typed = contacts(s.plaintext);
    sound_keys_make_wired_machines(s.used);
    wired_machines_are_reversible(m);
    assert(is_message(typed));
    encipher_is_its_own_inverse(m, typed);
    assert(contacts(letters(m.encipher(typed))) =~= m.encipher(typed)) by {
        assert forall|i: int| 0 <= i < typed.len() implies contacts(letters(m.encipher(typed)))[i]
            == m.encipher(typed)[i] by {
            assert(m.encipher(typed)[i] < 26);
        }
    }
    assert(letters(typed) =~= s.plaintext);
}

/// Nowhere on the tape does a letter stand for itself.
pub proof fn no_letter_on_the_tape_stands_for_itself(s: AppView, i: int)
    requires
        s.wf(),
        0 <= i < s.plaintext.len(),
    ensures
        s.ciphertext.len() == s.plaintext.len(),
        s.ciphertext[i] != s.plaintext[i],
{
    let m = s.used.machine();
    let typed = contacts(s.plaintext);
    sound_keys_make_wired_machines(s.used);
    wired_machines_are_reversible(m);
    assert(is_message(typed));
    encipher_is_its_own_inverse(m, typed);
    cipher_differs_everywhere(m, typed, i);
    assert(m.encipher(typed)[i] < 26);
}

/// On the run screen every letter of either case enciphers, and none is a command.
pub proof fn every_letter_enciphers(s: AppView, c: char, now: u128)
    requires
        s.screen == Screen::Run,
        contact_of(c) is Some,
    ensures
        s.handled(Key::Char(c), false, now) == (
            s.pressed(contact_of(c).unwrap(), now),
            Action::Pressed,
        ),
{
}

/// Ctrl+R brings the machine back to the start of the settings in use, which stay,
/// and clears the tape.
pub proof fn reset_returns_to_start(s: AppView, now: u128)
    requires
        s.screen == Screen::Run,
        s.settled(),
    ensures
        s.handled(Key::Char('r'), true, now).0.machine == s.used.machine(),
        s.handled(Key::Char('r'), true, now).0.plaintext.len() == 0,
        s.handled(Key::Char('r'), true, now).0.ciphertext.len() == 0,
        s.handled(Key::Char('r'), true, now).0.used == s.used,
        s.handled(Key::Char('r'), true, now).0.config == s.config,
{
}

/// A signal shows one more hop each time it has rested long enough, and its lamp
/// lights with the tenth hop and not before.
pub proof fn signal_moves_on_to_its_lamp(s: AppView, now: u128)
    requires
        s.wf(),
        s.anim is Some,
        elapsed(now, s.anim.unwrap().hop_timer) >= HOP_TIME,
    ensures
        s.anim.unwrap().hop < 10 ==> s.ticked(now).anim.unwrap().hop == s.anim.unwrap().hop + 1,
        s.anim.unwrap().hop == 10 ==> s.ticked(now).anim.unwrap().hop == 10,
        s.live_lamp() is Some <==> s.anim.unwrap().hop == 10,
        s.live_lamp() is Some ==> s.live_lamp() == Some(s.anim.unwrap().trace.lamp),
{
}

/// A message stays in the footer for its time, and goes with the first tick after.
pub proof fn message_stays_its_time(s: AppView, message: Seq<char>, when: u128, now: u128)
    ensures
        s.flashed(message, when).ticked(now).status == if elapsed(now, when) < STATUS_TIME {
            Some((message, when))
        } else {
            None
        },
{
}

/// On the setup screen up undoes down, and down undoes up.
pub proof fn up_and_down_undo_each_other(s: AppView)
    requires
        s.sel < N_FIELDS,
    ensures
        s.setup_key(Key::Down).0.setup_key(Key::Up).0 == s,
        s.setup_key(Key::Up).0.setup_key(Key::Down).0 == s,
{
    let n = N_FIELDS as int;
    let down = ((s.sel + 1) % n) as usize;
    let up = ((s.sel + n - 1) % n) as usize;
    assert(s.setup_key(Key::Down).0 == AppView { sel: down, ..s });
    assert(s.setup_key(Key::Up).0 == AppView { sel: up, ..s });
    assert((down + n - 1) % n == s.sel);
    assert((up + 1) % n == s.sel);
}

/// On the setup screen left undoes right, and right undoes left.
pub proof fn left_and_right_undo_each_other(s: AppView)
    requires
        s.wf(),
    ensures
        s.setup_key(Key::Right).0.setup_key(Key::Left).0 == s,
        s.setup_key(Key::Left).0.setup_key(Key::Right).0 == s,
{
    let field = s.sel as int;
    let on = s.config.adjusted(field, 1);
    let back = s.config.adjusted(field, -1);
    assert(on.adjusted(field, -1) == s.config) by {
        adjusting_back_restores(s.config, field, 1);
    }
    assert(back.adjusted(field, 1) == s.config) by {
        adjusting_back_restores(s.config, field, -1);
    }
    let right = s.setup_key(Key::Right).0;
    let left = s.setup_key(Key::Left).0;
    assert(right == AppView { config: on, ..s });
    assert(left == AppView { config: back, ..s });
    assert(right.setup_key(Key::Left).0 == AppView { config: s.config, ..s });
    assert(left.setup_key(Key::Right).0 == AppView { config: s.config, ..s });
}

} // verus!
