//! A session at the machine: what has been typed and enciphered, the screen that
//! is shown, and what each key does on it.
//!
//! Times are nanoseconds on a clock of the caller's that never runs backwards.

use vstd::prelude::*;
use vstd::string::*;

use crate::config::{sound_keys_make_wired_machines, toggled, Config, ConfigView};
use crate::enigma::{Machine, MachineView, RotorView, Trace, TraceView, A};
use crate::reciprocity::run_stays_wired;
use crate::record::{
    applied_session_is_a_record, lemma_setup_key, pressing_extends_the_record,
};
use crate::text::{contact, contact_of, is_upper, letter_of};
use crate::wiring::leads_back;

verus! {

/// Setup fields: reflector, three rotors, three rings, three start positions, and
/// the plugboard.
pub const N_FIELDS: usize = 11;

/// The setup field of the plugboard.
pub const PLUGBOARD_FIELD: usize = 10;

/// How long a message stays in the footer.
pub const STATUS_TIME: u128 = 4_000_000_000;

/// How long the signal rests at one hop of its path.
pub const HOP_TIME: u128 = 55_000_000;

#[derive(Clone, Copy, PartialEq, Eq, Structural)]
pub enum Screen {
    Run,
    Setup,
    Help,
}

/// A key on the keyboard, as far as the program tells keys apart.
#[derive(Clone, Copy, PartialEq, Eq, Structural)]
pub enum Key {
    Char(char),
    Esc,
    Tab,
    Enter,
    Up,
    Down,
    Left,
    Right,
    Delete,
    Backspace,
    Other,
}

/// What is left to do after a key has been handled.
#[derive(Clone, Copy, PartialEq, Eq, Structural)]
pub enum Action {
    /// Nothing.
    Idle,
    /// A letter has been enciphered: the drums are to follow the rotors.
    Pressed,
    /// The machine has been set up anew: the drums are to go to their start.
    Applied,
    /// The session is to be saved, and the outcome handed to [`App::save_done`].
    Save,
}

/// The replay of a signal path.
pub struct Animation {
    pub trace: Trace,
    /// How many hops have been shown.
    pub hop: usize,
    /// When the last one was.
    pub hop_timer: u128,
}

/// The model of an [`Animation`].
#[verifier::ext_equal]
pub struct AnimationView {
    pub trace: TraceView,
    pub hop: usize,
    pub hop_timer: u128,
}

impl View for Animation {
    type V = AnimationView;

    open spec fn view(&self) -> AnimationView {
        AnimationView { trace: self.trace@, hop: self.hop, hop_timer: self.hop_timer }
    }
}

/// A session.
pub struct App {
    /// The settings as they stand on the setup screen.
    pub config: Config,
    /// The settings in use: those that the machine was set up with.
    pub used: Config,
    pub machine: Machine,
    pub plaintext: String,
    pub ciphertext: String,
    pub anim: Option<Animation>,
    pub screen: Screen,
    /// The selected setup field.
    pub sel: usize,
    /// The first letter of a plug pair being entered.
    pub pending: Option<u8>,
    pub help_scroll: u16,
    /// A message for the footer, and since when it is there.
    pub status: Option<(String, u128)>,
    pub quit: bool,
}

/// The model of an [`App`].
#[verifier::ext_equal]
pub struct AppView {
    pub config: ConfigView,
    pub used: ConfigView,
    pub machine: MachineView,
    pub plaintext: Seq<char>,
    pub ciphertext: Seq<char>,
    pub anim: Option<AnimationView>,
    pub screen: Screen,
    pub sel: usize,
    pub pending: Option<u8>,
    pub help_scroll: u16,
    pub status: Option<(Seq<char>, u128)>,
    pub quit: bool,
}

impl View for App {
    type V = AppView;

    open spec fn view(&self) -> AppView {
        AppView {
            config: self.config@,
            used: self.used@,
            machine: self.machine@,
            plaintext: self.plaintext@,
            ciphertext: self.ciphertext@,
            anim: match self.anim {
                Some(a) => Some(a@),
                None => None,
            },
            screen: self.screen,
            sel: self.sel,
            pending: self.pending,
            help_scroll: self.help_scroll,
            status: match self.status {
                Some(s) => Some((s.0@, s.1)),
                None => None,
            },
            quit: self.quit,
        }
    }
}

impl RotorView {
    /// Set to letters.
    pub open spec fn is_set(self) -> bool {
        self.position < 26 && self.ring < 26
    }
}

impl MachineView {
    /// Wired as an Enigma, every rotor set to letters.
    pub open spec fn in_service(self) -> bool {
        &&& self.wired()
        &&& self.left.is_set()
        &&& self.middle.is_set()
        &&& self.right.is_set()
    }
}

impl TraceView {
    /// Ten hops from contact to contact.
    pub open spec fn is_path(self) -> bool {
        &&& self.hops.len() == 10
        &&& forall|i: int|
            0 <= i < 10 ==> (#[trigger] self.hops[i]).input < 26 && self.hops[i].output < 26
        &&& self.lamp < 26
    }
}

/// The time from `when` to `now`, or none at all.
pub open spec fn elapsed(now: u128, when: u128) -> int {
    if now >= when {
        now - when
    } else {
        0
    }
}

/// The contacts of a text in upper case.
pub open spec fn contacts(text: Seq<char>) -> Seq<u8> {
    Seq::new(text.len(), |i: int| (text[i] as int - A) as u8)
}

/// The letters of a message.
pub open spec fn letters(message: Seq<u8>) -> Seq<char> {
    Seq::new(message.len(), |i: int| letter_of(message[i]))
}

impl AppView {
    /// The tape holds what a machine set up with `used` makes of the typed text,
    /// and the machine stands where that leaves it.
    pub open spec fn records(self, used: ConfigView) -> bool {
        &&& self.machine == used.machine().run(self.plaintext.len())
        &&& self.ciphertext == letters(used.machine().encipher(contacts(self.plaintext)))
    }

    /// What holds of every session. Above all, its tape is a record of the settings
    /// in use.
    pub open spec fn wf(self) -> bool {
        &&& self.config.wf()
        &&& self.used.wf()
        &&& self.records(self.used)
        &&& self.machine.in_service()
        &&& is_upper(self.plaintext)
        &&& is_upper(self.ciphertext)
        &&& self.plaintext.len() == self.ciphertext.len()
        &&& self.sel < N_FIELDS
        &&& self.pending matches Some(p) ==> p < 26
        &&& self.anim matches Some(a) ==> a.trace.is_path() && a.hop <= 10
    }

    /// A fresh session.
    pub open spec fn initial() -> AppView {
        AppView {
            config: ConfigView::initial(),
            used: ConfigView::initial(),
            machine: ConfigView::initial().machine(),
            plaintext: Seq::empty(),
            ciphertext: Seq::empty(),
            anim: None,
            screen: Screen::Run,
            sel: 0,
            pending: None,
            help_scroll: 0,
            status: None,
            quit: false,
        }
    }

    /// The session with the machine set up anew and the tape cleared.
    pub open spec fn applied(self) -> AppView {
        AppView {
            used: self.config,
            machine: self.config.machine(),
            plaintext: Seq::empty(),
            ciphertext: Seq::empty(),
            anim: None,
            pending: None,
            ..self
        }
    }

    /// The session after a letter has been typed.
    pub open spec fn pressed(self, key: u8, now: u128) -> AppView {
        AppView {
            machine: self.machine.stepped(),
            plaintext: self.plaintext.push(letter_of(key)),
            ciphertext: self.ciphertext.push(letter_of(self.machine.trace(key).lamp)),
            anim: Some(
                AnimationView { trace: self.machine.trace(key), hop: 0, hop_timer: now },
            ),
            ..self
        }
    }

    /// The session with a message in the footer.
    pub open spec fn flashed(self, message: Seq<char>, now: u128) -> AppView {
        AppView { status: Some((message, now)), ..self }
    }

    /// The session after time has passed: an old message goes, and the signal moves
    /// on to its next hop once it has rested long enough.
    pub open spec fn ticked(self, now: u128) -> AppView {
        AppView {
            status: match self.status {
                Some(s) => if elapsed(now, s.1) >= STATUS_TIME {
                    None
                } else {
                    Some(s)
                },
                None => None,
            },
            anim: match self.anim {
                Some(a) => if elapsed(now, a.hop_timer) >= HOP_TIME {
                    Some(
                        AnimationView {
                            hop_timer: now,
                            hop: if a.hop < a.trace.hops.len() {
                                (a.hop + 1) as usize
                            } else {
                                a.hop
                            },
                            ..a
                        },
                    )
                } else {
                    Some(a)
                },
                None => None,
            },
            ..self
        }
    }

    /// The lamp that is lit: that of the last letter, once its signal has arrived.
    pub open spec fn live_lamp(self) -> Option<u8> {
        match self.anim {
            Some(a) => if a.hop >= a.trace.hops.len() {
                Some(a.trace.lamp)
            } else {
                None
            },
            None => None,
        }
    }

    /// What a key does on the run screen. Every letter enciphers; commands are on
    /// other keys, or go with Ctrl.
    pub open spec fn run_key(self, key: Key, ctrl: bool, now: u128) -> (AppView, Action) {
        match key {
            Key::Esc => (AppView { quit: true, ..self }, Action::Idle),
            Key::Tab => (AppView { screen: Screen::Setup, ..self }, Action::Idle),
            Key::Char(c) => if c == '?' {
                (AppView { screen: Screen::Help, ..self }, Action::Idle)
            } else if ctrl {
                if c == 's' || c == 'S' {
                    (self, Action::Save)
                } else if c == 'r' || c == 'R' {
                    (self.applied().flashed("reset to start settings"@, now), Action::Applied)
                } else {
                    (self, Action::Idle)
                }
            } else {
                match contact_of(c) {
                    Some(v) => (self.pressed(v, now), Action::Pressed),
                    None => (self, Action::Idle),
                }
            },
            _ => (self, Action::Idle),
        }
    }

    /// What a key does on the help screen.
    pub open spec fn help_key(self, key: Key) -> AppView {
        match key {
            Key::Esc => AppView { screen: Screen::Run, help_scroll: 0, ..self },
            Key::Char(c) => if c == '?' {
                AppView { screen: Screen::Run, help_scroll: 0, ..self }
            } else {
                self
            },
            Key::Down => AppView {
                help_scroll: if self.help_scroll < u16::MAX {
                    (self.help_scroll + 1) as u16
                } else {
                    self.help_scroll
                },
                ..self
            },
            Key::Up => AppView {
                help_scroll: if self.help_scroll > 0 {
                    (self.help_scroll - 1) as u16
                } else {
                    0
                },
                ..self
            },
            _ => self,
        }
    }

    /// A letter typed at the plugboard field: the first of a pair is kept, the same
    /// letter again drops it, and another one toggles the pair.
    pub open spec fn plug_letter(self, l: u8) -> AppView {
        match self.pending {
            None => AppView { pending: Some(l), ..self },
            Some(p) => if p == l {
                AppView { pending: None, ..self }
            } else {
                AppView {
                    config: ConfigView { plugs: toggled(self.config.plugs, p, l), ..self.config },
                    pending: None,
                    ..self
                }
            },
        }
    }

    /// What a key does on the setup screen. Enter applies the settings; Esc cancels
    /// what has been changed.
    pub open spec fn setup_key(self, key: Key) -> (AppView, Action) {
        let at_plugboard = self.sel == PLUGBOARD_FIELD;
        match key {
            Key::Esc => (
                AppView { config: self.used, screen: Screen::Run, pending: None, ..self },
                Action::Idle,
            ),
            Key::Enter => (AppView { screen: Screen::Run, ..self.applied() }, Action::Applied),
            Key::Up => (
                AppView { sel: ((self.sel + N_FIELDS - 1) % N_FIELDS as int) as usize, ..self },
                Action::Idle,
            ),
            Key::Down => (
                AppView { sel: ((self.sel + 1) % N_FIELDS as int) as usize, ..self },
                Action::Idle,
            ),
            Key::Left => (
                AppView { config: self.config.adjusted(self.sel as int, -1), ..self },
                Action::Idle,
            ),
            Key::Right => (
                AppView { config: self.config.adjusted(self.sel as int, 1), ..self },
                Action::Idle,
            ),
            Key::Delete => if at_plugboard {
                (
                    AppView {
                        config: ConfigView { plugs: Seq::empty(), ..self.config },
                        pending: None,
                        ..self
                    },
                    Action::Idle,
                )
            } else {
                (self, Action::Idle)
            },
            Key::Backspace => if !at_plugboard {
                (self, Action::Idle)
            } else if self.pending is Some || self.config.plugs.len() == 0 {
                (AppView { pending: None, ..self }, Action::Idle)
            } else {
                (
                    AppView {
                        config: ConfigView {
                            plugs: self.config.plugs.drop_last(),
                            ..self.config
                        },
                        ..self
                    },
                    Action::Idle,
                )
            },
            Key::Char(c) => match contact_of(c) {
                Some(l) => if at_plugboard {
                    (self.plug_letter(l), Action::Idle)
                } else {
                    (self, Action::Idle)
                },
                None => (self, Action::Idle),
            },
            _ => (self, Action::Idle),
        }
    }

    /// What a key does. Ctrl+C quits wherever it is typed.
    pub open spec fn handled(self, key: Key, ctrl: bool, now: u128) -> (AppView, Action) {
        if key == Key::Char('c') && ctrl {
            (AppView { quit: true, ..self }, Action::Idle)
        } else {
            match self.screen {
                Screen::Run => self.run_key(key, ctrl, now),
                Screen::Help => (self.help_key(key), Action::Idle),
                Screen::Setup => self.setup_key(key),
            }
        }
    }
}

/// A rotor leads every signal to a contact.
proof fn lemma_signal(rotor: RotorView, c: u8)
    ensures
        rotor.fwd(c) < 26,
        rotor.bwd(c) < 26,
{
}

/// Where the rotors stand, a key lights a lamp over a path of ten hops.
proof fn lemma_path(m: MachineView, key: u8)
    requires
        m.wired(),
        key < 26,
    ensures
        m.hops(key).len() == 10,
        forall|i: int|
            0 <= i < 10 ==> (#[trigger] m.hops(key)[i]).input < 26 && m.hops(key)[i].output < 26,
        m.lamp(key) < 26,
{
    let p = m.plugboard[key as int];
    let r = m.right.fwd(p);
    let mid = m.middle.fwd(r);
    let l = m.left.fwd(mid);
    let u = m.reflector[l as int];
    let lb = m.left.bwd(u);
    let mb = m.middle.bwd(lb);
    let rb = m.right.bwd(mb);
    let out = m.plugboard[rb as int];
    assert(leads_back(m.plugboard, m.plugboard, key as int));
    lemma_signal(m.right, p);
    lemma_signal(m.middle, r);
    lemma_signal(m.left, mid);
    assert(leads_back(m.reflector, m.reflector, l as int));
    lemma_signal(m.left, u);
    lemma_signal(m.middle, lb);
    lemma_signal(m.right, mb);
    assert(leads_back(m.plugboard, m.plugboard, rb as int));
    assert(p < 26 && r < 26 && mid < 26 && l < 26 && u < 26);
    assert(lb < 26 && mb < 26 && rb < 26 && out < 26);
    let hops = m.hops(key);
    assert(hops[0].input == key && hops[0].output == p);
    assert(hops[1].input == p && hops[1].output == r);
    assert(hops[2].input == r && hops[2].output == mid);
    assert(hops[3].input == mid && hops[3].output == l);
    assert(hops[4].input == l && hops[4].output == u);
    assert(hops[5].input == u && hops[5].output == lb);
    assert(hops[6].input == lb && hops[6].output == mb);
    assert(hops[7].input == mb && hops[7].output == rb);
    assert(hops[8].input == rb && hops[8].output == out);
    assert(hops[9].input == out && hops[9].output == out);
}

/// A key press keeps the machine in service, lights a lamp, and takes a path of ten
/// hops.
pub(crate) proof fn lemma_press(m: MachineView, key: u8)
    requires
        m.in_service(),
        key < 26,
    ensures
        m.can_step(),
        m.stepped().in_service(),
        m.trace(key).is_path(),
{
    run_stays_wired(m, 1);
    assert(m.run(0) == m);
    assert(m.run(1) == m.stepped());
    lemma_path(m.stepped(), key);
}

impl App {
    /// A fresh session.
    pub fn new() -> (app: App)
        ensures
            app@ == AppView::initial(),
            app@.wf(),
    {
        let config = Config::default();
        let used = config.clone();
        let machine = config.build();
        proof {
            sound_keys_make_wired_machines(config@);
            applied_session_is_a_record(AppView::initial());
        }
        let app = App {
            config,
            used,
            machine,
            plaintext: String::new(),
            ciphertext: String::new(),
            anim: None,
            screen: Screen::Run,
            sel: 0,
            pending: None,
            help_scroll: 0,
            status: None,
            quit: false,
        };
        app
    }

    /// Sets up the machine anew from the settings and clears the tape.
    pub fn apply(&mut self)
        requires
            old(self)@.wf(),
        ensures
            final(self)@ == old(self)@.applied(),
            final(self)@.wf(),
    {
        proof {
            sound_keys_make_wired_machines(self.config@);
            applied_session_is_a_record(self@);
        }
        self.used = self.config.clone();
        self.machine = self.config.build();
        self.plaintext = String::new();
        self.ciphertext = String::new();
        self.anim = None;
        self.pending = None;
    }

    /// Enciphers a letter (0 to 25) and begins to show its path.
    pub fn press(&mut self, letter: u8, now: u128)
        requires
            old(self)@.wf(),
            letter < 26,
        ensures
            final(self)@ == old(self)@.pressed(letter, now),
            final(self)@.wf(),
    {
        proof {
            lemma_press(self.machine@, letter);
            pressing_extends_the_record(self@, self.used@, letter, now);
            assert forall|i: int| 0 <= i < 26 implies #[trigger] self.machine.plugboard[i] < 26 by {
                assert(leads_back(self.machine@.plugboard, self.machine@.plugboard, i));
            }
        }
        let trace = self.machine.encode(letter);
        self.plaintext.push(crate::text::letter(letter));
        self.ciphertext.push(crate::text::letter(trace.lamp));
        self.anim = Some(Animation { trace, hop: 0, hop_timer: now });
    }

    /// Lets time pass.
    pub fn tick(&mut self, now: u128)
        requires
            old(self)@.wf(),
        ensures
            final(self)@ == old(self)@.ticked(now),
            final(self)@.wf(),
    {
        let expired = match &self.status {
            Some(s) => now.saturating_sub(s.1) >= STATUS_TIME,
            None => false,
        };
        if expired {
            self.status = None;
        }
        if let Some(a) = &mut self.anim {
            if now.saturating_sub(a.hop_timer) >= HOP_TIME {
                a.hop_timer = now;
                if a.hop < a.trace.hops.len() {
                    a.hop += 1;
                }
            }
        }
    }

    /// The lamp that is lit.
    pub fn live_lamp(&self) -> (lamp: Option<u8>)
        ensures
            lamp == self@.live_lamp(),
    {
        match &self.anim {
            Some(a) => if a.hop >= a.trace.hops.len() {
                Some(a.trace.lamp)
            } else {
                None
            },
            None => None,
        }
    }

    /// Puts a message into the footer.
    pub fn flash(&mut self, message: String, now: u128)
        ensures
            final(self)@ == old(self)@.flashed(message@, now),
            old(self)@.wf() ==> final(self)@.wf(),
    {
        self.status = Some((message, now));
    }

    /// Reports how saving the session went.
    pub fn save_done(&mut self, outcome: Result<String, String>, now: u128)
        ensures
            final(self)@ == old(self)@.flashed(
                match outcome {
                    Ok(name) => "saved session to ./"@ + name@,
                    Err(reason) => "save failed: "@ + reason@,
                },
                now,
            ),
            old(self)@.wf() ==> final(self)@.wf(),
    {
        match outcome {
            Ok(name) => {
                let mut message = "saved session to ./".to_string();
                message.append(name.as_str());
                self.flash(message, now);
            },
            Err(reason) => {
                let mut message = "save failed: ".to_string();
                message.append(reason.as_str());
                self.flash(message, now);
            },
        }
    }

    /// Does what a key does; `ctrl` tells whether Ctrl is held.
    pub fn handle_key(&mut self, key: Key, ctrl: bool, now: u128) -> (action: Action)
        requires
            old(self)@.wf(),
        ensures
            final(self)@ == old(self)@.handled(key, ctrl, now).0,
            action == old(self)@.handled(key, ctrl, now).1,
            final(self)@.wf(),
    {
        if key == Key::Char('c') && ctrl {
            self.quit = true;
            return Action::Idle;
        }
        match self.screen {
            Screen::Run => self.handle_run_key(key, ctrl, now),
            Screen::Help => {
                self.handle_help_key(key);
                Action::Idle
            },
            Screen::Setup => self.handle_setup_key(key),
        }
    }

    /// Does what a key does on the run screen.
    fn handle_run_key(&mut self, key: Key, ctrl: bool, now: u128) -> (action: Action)
        requires
            old(self)@.wf(),
        ensures
            final(self)@ == old(self)@.run_key(key, ctrl, now).0,
            action == old(self)@.run_key(key, ctrl, now).1,
            final(self)@.wf(),
    {
        match key {
            Key::Esc => {
                self.quit = true;
                Action::Idle
            },
            Key::Tab => {
                self.screen = Screen::Setup;
                Action::Idle
            },
            Key::Char(c) => {
                if c == '?' {
                    self.screen = Screen::Help;
                    Action::Idle
                } else if ctrl {
                    if c == 's' || c == 'S' {
                        Action::Save
                    } else if c == 'r' || c == 'R' {
                        self.apply();
                        self.flash("reset to start settings".to_string(), now);
                        Action::Applied
                    } else {
                        Action::Idle
                    }
                } else {
                    match contact(c) {
                        Some(v) => {
                            self.press(v, now);
                            Action::Pressed
                        },
                        None => Action::Idle,
                    }
                }
            },
            _ => Action::Idle,
        }
    }

    /// Does what a key does on the help screen.
    fn handle_help_key(&mut self, key: Key)
        requires
            old(self)@.wf(),
        ensures
            final(self)@ == old(self)@.help_key(key),
            final(self)@.wf(),
    {
        match key {
            Key::Esc => {
                self.screen = Screen::Run;
                self.help_scroll = 0;
            },
            Key::Char(c) => {
                if c == '?' {
                    self.screen = Screen::Run;
                    self.help_scroll = 0;
                }
            },
            Key::Down => {
                self.help_scroll = self.help_scroll.saturating_add(1);
            },
            Key::Up => {
                self.help_scroll = self.help_scroll.saturating_sub(1);
            },
            _ => {},
        }
    }

    /// Does what a key does on the setup screen.
    pub fn handle_setup_key(&mut self, key: Key) -> (action: Action)
        requires
            old(self)@.wf(),
        ensures
            final(self)@ == old(self)@.setup_key(key).0,
            action == old(self)@.setup_key(key).1,
            final(self)@.wf(),
    {
        proof {
            lemma_setup_key(self@, key);
        }
        match key {
            Key::Esc => {
                self.config = self.used.clone();
                self.screen = Screen::Run;
                self.pending = None;
                Action::Idle
            },
            Key::Enter => {
                self.apply();
                self.screen = Screen::Run;
                Action::Applied
            },
            Key::Up => {
                self.sel = (self.sel + N_FIELDS - 1) % N_FIELDS;
                Action::Idle
            },
            Key::Down => {
                self.sel = (self.sel + 1) % N_FIELDS;
                Action::Idle
            },
            Key::Left => {
                self.config.adjust_field(self.sel, -1);
                Action::Idle
            },
            Key::Right => {
                self.config.adjust_field(self.sel, 1);
                Action::Idle
            },
            Key::Delete => {
                if self.sel == PLUGBOARD_FIELD {
                    self.config.plugs.clear();
                    self.pending = None;
                }
                Action::Idle
            },
            Key::Backspace => {
                if self.sel == PLUGBOARD_FIELD {
                    match self.pending {
                        Some(_) => {
                            self.pending = None;
                        },
                        None => {
                            let ghost plugs = self.config.plugs@;
                            self.config.plugs.pop();
                            proof {
                                if plugs.len() > 0 {
                                    assert(self.config.plugs@ =~= plugs.drop_last());
                                    assert(self@ =~= old(self)@.setup_key(key).0);
                                }
                            }
                        },
                    }
                }
                Action::Idle
            },
            Key::Char(c) => {
                if self.sel == PLUGBOARD_FIELD {
                    if let Some(l) = contact(c) {
                        self.enter_plug_letter(l);
                    }
                }
                Action::Idle
            },
            _ => Action::Idle,
        }
    }

    /// Takes a letter typed at the plugboard field.
    fn enter_plug_letter(&mut self, l: u8)
        requires
            old(self)@.wf(),
            l < 26,
        ensures
            final(self)@ == old(self)@.plug_letter(l),
            final(self)@.wf(),
    {
        match self.pending {
            None => {
                self.pending = Some(l);
            },
            Some(p) => {
                if p != l {
                    self.config.toggle_plug(p, l);
                }
                self.pending = None;
            },
        }
    }
}

} // verus!
