//! The Wehrmacht Enigma I: rotors I to V, reflectors B and C, plugboard, ring
//! settings, and the double-stepping mechanism.
//!
//! [`Machine::encode`] returns more than the output letter: its [`Trace`] lists
//! every contact-to-contact hop that the current takes through the machine.
//!
//! Contracts speak of [`RotorView`] and [`MachineView`], the mathematical models
//! of [`Rotor`] and [`Machine`]. Letters and contacts are numbered 0 to 25.

use vstd::prelude::*;
use vstd::string::*;

use crate::wiring::{is_permutation, standard_rotors_are_permutations};

verus! {

/// The byte of the letter `A`, contact 0.
pub const A: u8 = 65;

/// A rotor as it leaves the factory.
#[derive(Clone, Copy)]
pub struct RotorSpec {
    pub name: &'static str,
    /// Forward wiring as seen entering from the right.
    pub wiring: &'static str,
    /// Window position (0 to 25) that lets the next rotor step.
    pub notch: u8,
}

/// Standard rotors: name, wiring, notch. The notch letters are Q, E, V, J, Z.
pub const ROTORS: [(&'static str, &'static str, u8); 5] = [
    ("I", "EKMFLGDQVZNTOWYHXUSPAIBRCJ", 16),
    ("II", "AJDKSIRUXBLHWTMCQGZNPYFVOE", 4),
    ("III", "BDFHJLCPRTXVZNYEIWGAKMUSQO", 21),
    ("IV", "ESOVPZJAYQUIRHXLNFTGKDCMWB", 9),
    ("V", "VZBRGITYUPSDNHLXAWMJQOFECK", 25),
];

pub const REFLECTOR_B: &'static str = "YRUHQSLDPXNGOKMIEBFZCWVJAT";

pub const REFLECTOR_C: &'static str = "FVPJIAOYEDRZXWGCTKUQSBNMHL";

/// Selectable reflectors, by name. Enigma I shipped with UKW-B and UKW-C.
pub const REFLECTORS: [(&'static str, &'static str); 2] = [
    ("B", REFLECTOR_B),
    ("C", REFLECTOR_C),
];

/// The standard rotor at `index` of [`ROTORS`].
pub open spec fn standard_rotor(index: int) -> RotorSpec {
    RotorSpec { name: ROTORS[index].0, wiring: ROTORS[index].1, notch: ROTORS[index].2 }
}

/// The standard rotor at `index` of [`ROTORS`].
pub fn rotor_spec(index: usize) -> (spec: RotorSpec)
    requires
        index < 5,
    ensures
        spec == standard_rotor(index as int),
        is_permutation(spec.wiring.spec_bytes()),
        spec.notch < 26,
{
    proof {
        standard_rotors_are_permutations(index as int);
    }
    let (name, wiring, notch) = ROTORS[index];
    RotorSpec { name, wiring, notch }
}

/// The contact that each of the first contacts is wired to, read off a string of
/// letters; contacts past its end lead to contact 0.
pub open spec fn contact_table(letters: Seq<u8>) -> Seq<u8> {
    Seq::new(
        26,
        |i: int|
            if i < letters.len() {
                (letters[i] - A) as u8
            } else {
                0u8
            },
    )
}

/// The last place at which the letter of contact `o` occurs, or 0 if it does not.
pub open spec fn last_place(letters: Seq<u8>, o: int) -> int
    decreases letters.len(),
{
    if letters.len() == 0 {
        0
    } else if letters.last() == A + o {
        letters.len() - 1
    } else {
        last_place(letters.drop_last(), o)
    }
}

/// The table that leads each contact back to the place of its letter.
pub open spec fn return_table(letters: Seq<u8>) -> Seq<u8> {
    Seq::new(26, |o: int| last_place(letters, o) as u8)
}

/// At most 26 bytes, each an upper-case letter.
pub open spec fn is_letters(bytes: Seq<u8>) -> bool {
    &&& bytes.len() <= 26
    &&& forall|i: int| 0 <= i < bytes.len() ==> A <= #[trigger] bytes[i] < A + 26
}

/// The model of a [`Rotor`].
#[verifier::ext_equal]
pub struct RotorView {
    pub spec: RotorSpec,
    pub forward: Seq<u8>,
    pub inverse: Seq<u8>,
    pub position: u8,
    pub ring: u8,
}

impl RotorView {
    /// A rotor of the given make, with `position` in the window.
    pub open spec fn mounted(spec: RotorSpec, position: u8, ring: u8) -> RotorView {
        RotorView {
            spec,
            forward: contact_table(spec.wiring.spec_bytes()),
            inverse: return_table(spec.wiring.spec_bytes()),
            position,
            ring,
        }
    }

    /// Net rotation of the wiring relative to the entry contacts.
    pub open spec fn offset(self) -> int {
        (self.position - self.ring) % 26
    }

    /// Where a wiring table leads a signal, given the rotation of the wiring.
    pub open spec fn through(self, table: Seq<u8>, c: u8) -> u8 {
        ((table[(c + self.offset()) % 26] - self.offset()) % 26) as u8
    }

    pub open spec fn fwd(self, c: u8) -> u8 {
        self.through(self.forward, c)
    }

    pub open spec fn bwd(self, c: u8) -> u8 {
        self.through(self.inverse, c)
    }

    pub open spec fn at_notch(self) -> bool {
        self.position == self.spec.notch
    }

    /// The rotor one click on.
    pub open spec fn stepped(self) -> RotorView {
        RotorView { position: ((self.position + 1) % 26) as u8, ..self }
    }
}

/// A rotor in the machine.
pub struct Rotor {
    pub spec: RotorSpec,
    /// Contact to contact, right to left.
    pub forward: [u8; 26],
    /// The reverse table, for the return trip.
    pub inverse: [u8; 26],
    /// 0 to 25, the letter currently in the window.
    pub position: u8,
    /// 0 to 25, the Ringstellung.
    pub ring: u8,
}

impl View for Rotor {
    type V = RotorView;

    open spec fn view(&self) -> RotorView {
        RotorView {
            spec: self.spec,
            forward: self.forward@,
            inverse: self.inverse@,
            position: self.position,
            ring: self.ring,
        }
    }
}

impl Clone for Rotor {
    fn clone(&self) -> (copy: Rotor)
        ensures
            copy@ == self@,
    {
        Rotor {
            spec: self.spec,
            forward: self.forward,
            inverse: self.inverse,
            position: self.position,
            ring: self.ring,
        }
    }
}

/// The remainder of `x` modulo 26, never negative.
pub fn wrap26(x: i32) -> (r: u8)
    ensures
        r == x % 26,
        r < 26,
{
    let r: i32 = x % 26;
    if r < 0 {
        (r + 26) as u8
    } else {
        r as u8
    }
}

impl Rotor {
    /// Mounts a rotor; wiring letters past the end of a short string count as `A`,
    /// and where a letter occurs twice the return trip goes to its last place.
    pub fn new(spec: RotorSpec, position: u8, ring: u8) -> (rotor: Rotor)
        requires
            is_letters(spec.wiring.spec_bytes()),
        ensures
            rotor@ == RotorView::mounted(spec, position, ring),
            rotor.spec == spec,
            rotor.position == position,
            rotor.ring == ring,
    {
        let mut forward: [u8; 26] = [0u8; 26];
        let mut inverse: [u8; 26] = [0u8; 26];
        let letters = spec.wiring.as_bytes();
        let ghost bytes = spec.wiring.spec_bytes();
        let mut i: usize = 0;
        proof {
            assert(bytes.take(0) =~= Seq::empty());
        }
        while i < letters.len()
            invariant
                letters@ == bytes,
                is_letters(bytes),
                i <= bytes.len(),
                forall|k: int| 0 <= k < i ==> #[trigger] forward[k] == bytes[k] - A,
                forall|k: int| i <= k < 26 ==> #[trigger] forward[k] == 0,
                forall|o: int|
                    0 <= o < 26 ==> #[trigger] inverse[o] == last_place(bytes.take(i as int), o),
            decreases bytes.len() - i,
        {
            let o: u8 = letters[i] - A;
            forward[i] = o;
            inverse[o as usize] = i as u8;
            proof {
                let next = bytes.take(i + 1);
                assert(next.drop_last() =~= bytes.take(i as int));
                assert(next.last() == bytes[i as int]);
            }
            i += 1;
        }
        proof {
            assert(bytes.take(i as int) =~= bytes);
        }
        let rotor = Rotor { spec, forward, inverse, position, ring };
        proof {
            assert(rotor@.forward =~= contact_table(bytes));
            assert(rotor@.inverse =~= return_table(bytes));
        }
        rotor
    }

    /// Net rotation of the wiring relative to the entry contacts.
    pub fn offset(&self) -> (off: i32)
        ensures
            off == self@.offset(),
            0 <= off < 26,
    {
        wrap26(self.position as i32 - self.ring as i32) as i32
    }

    /// The contact on the left that a signal at contact `c` on the right leaves by.
    pub fn fwd(&self, c: u8) -> (out: u8)
        ensures
            out == self@.fwd(c),
            out < 26,
    {
        let off: i32 = self.offset();
        let entry: usize = wrap26(c as i32 + off) as usize;
        wrap26(self.forward[entry] as i32 - off)
    }

    /// The contact on the right that a signal at contact `c` on the left leaves by.
    pub fn bwd(&self, c: u8) -> (out: u8)
        ensures
            out == self@.bwd(c),
            out < 26,
    {
        let off: i32 = self.offset();
        let entry: usize = wrap26(c as i32 + off) as usize;
        wrap26(self.inverse[entry] as i32 - off)
    }

    pub fn at_notch(&self) -> (b: bool)
        ensures
            b == self@.at_notch(),
    {
        self.position == self.spec.notch
    }

    /// Advances the rotor by one click.
    pub fn step(&mut self)
        requires
            old(self).position < 255,
        ensures
            final(self)@ == old(self)@.stepped(),
            final(self).position < 26,
    {
        self.position = (self.position + 1) % 26;
    }

    /// The letter in the window.
    pub fn window(&self) -> (c: char)
        requires
            self.position <= 190,
        ensures
            c as int == A + self.position,
    {
        (A + self.position) as char
    }
}

/// A part of the machine that the current passes.
#[derive(Clone, Copy, PartialEq, Eq, Structural)]
pub enum Stage {
    PlugIn,
    /// `rotors[i]` on the right-to-left leg.
    Rotor(usize),
    Reflector,
    /// `rotors[i]` on the left-to-right leg.
    RotorBack(usize),
    PlugOut,
    Lamp,
}

/// What one stage makes of the signal.
#[derive(Clone, Copy)]
pub struct Hop {
    pub stage: Stage,
    pub input: u8,
    pub output: u8,
}

/// What one key press did.
pub struct Trace {
    pub key: u8,
    /// Which of left, middle and right advanced on this press.
    pub stepped: [bool; 3],
    pub hops: Vec<Hop>,
    pub lamp: u8,
}

/// The model of a [`Trace`].
#[verifier::ext_equal]
pub struct TraceView {
    pub key: u8,
    pub stepped: Seq<bool>,
    pub hops: Seq<Hop>,
    pub lamp: u8,
}

impl View for Trace {
    type V = TraceView;

    open spec fn view(&self) -> TraceView {
        TraceView {
            key: self.key,
            stepped: self.stepped@,
            hops: self.hops@,
            lamp: self.lamp,
        }
    }
}

/// The plugboard with no cable in it.
pub open spec fn open_plugboard() -> Seq<u8> {
    Seq::new(26, |i: int| i as u8)
}

/// The plugboard after the pairs have been plugged in, in order.
pub open spec fn plugged(board: Seq<u8>, pairs: Seq<(u8, u8)>) -> Seq<u8>
    decreases pairs.len(),
{
    if pairs.len() == 0 {
        board
    } else {
        let (a, b) = pairs.last();
        plugged(board, pairs.drop_last()).update(a as int, b).update(b as int, a)
    }
}

/// Pairs of contacts that exist.
pub open spec fn are_contacts(pairs: Seq<(u8, u8)>) -> bool {
    forall|i: int| 0 <= i < pairs.len() ==> (#[trigger] pairs[i]).0 < 26 && pairs[i].1 < 26
}

/// The model of a [`Machine`].
#[verifier::ext_equal]
pub struct MachineView {
    pub left: RotorView,
    pub middle: RotorView,
    pub right: RotorView,
    pub reflector: Seq<u8>,
    pub plugboard: Seq<u8>,
}

impl MachineView {
    /// Which of left, middle and right the next key press advances. The middle
    /// rotor advances when the right rotor is at its notch, or when it is at its
    /// own notch, and then it takes the left rotor along: the double step.
    pub open spec fn step_flags(self) -> Seq<bool> {
        seq![
            self.middle.at_notch(),
            self.right.at_notch() || self.middle.at_notch(),
            true,
        ]
    }

    /// The machine after the rotors have moved for one key press.
    pub open spec fn stepped(self) -> MachineView {
        let flags = self.step_flags();
        MachineView {
            left: if flags[0] {
                self.left.stepped()
            } else {
                self.left
            },
            middle: if flags[1] {
                self.middle.stepped()
            } else {
                self.middle
            },
            right: self.right.stepped(),
            ..self
        }
    }

    /// No rotor that is about to advance overflows its position.
    pub open spec fn can_step(self) -> bool {
        &&& self.step_flags()[0] ==> self.left.position < 255
        &&& self.step_flags()[1] ==> self.middle.position < 255
        &&& self.right.position < 255
    }

    /// From a key to the reflector: plugboard, then rotors right to left.
    pub open spec fn inward(self, key: u8) -> u8 {
        self.left.fwd(self.middle.fwd(self.right.fwd(self.plugboard[key as int])))
    }

    /// From the reflector to a lamp: rotors left to right, then plugboard.
    pub open spec fn outward(self, c: u8) -> u8 {
        self.plugboard[self.right.bwd(self.middle.bwd(self.left.bwd(c))) as int]
    }

    /// The lamp that a key lights while the rotors stand as they do.
    pub open spec fn lamp(self, key: u8) -> u8 {
        self.outward(self.reflector[self.inward(key) as int])
    }

    /// The path of the current while the rotors stand as they do.
    pub open spec fn hops(self, key: u8) -> Seq<Hop> {
        let p = self.plugboard[key as int];
        let r = self.right.fwd(p);
        let m = self.middle.fwd(r);
        let l = self.left.fwd(m);
        let u = self.reflector[l as int];
        let lb = self.left.bwd(u);
        let mb = self.middle.bwd(lb);
        let rb = self.right.bwd(mb);
        let out = self.plugboard[rb as int];
        seq![
            Hop { stage: Stage::PlugIn, input: key, output: p },
            Hop { stage: Stage::Rotor(2), input: p, output: r },
            Hop { stage: Stage::Rotor(1), input: r, output: m },
            Hop { stage: Stage::Rotor(0), input: m, output: l },
            Hop { stage: Stage::Reflector, input: l, output: u },
            Hop { stage: Stage::RotorBack(0), input: u, output: lb },
            Hop { stage: Stage::RotorBack(1), input: lb, output: mb },
            Hop { stage: Stage::RotorBack(2), input: mb, output: rb },
            Hop { stage: Stage::PlugOut, input: rb, output: out },
            Hop { stage: Stage::Lamp, input: out, output: out },
        ]
    }

    /// What a press of `key` is answered with: the rotors move first.
    pub open spec fn trace(self, key: u8) -> TraceView {
        TraceView {
            key,
            stepped: self.step_flags(),
            hops: self.stepped().hops(key),
            lamp: self.stepped().lamp(key),
        }
    }
}

/// An Enigma, ready for key presses.
pub struct Machine {
    /// Left (slow), middle, right (fast).
    pub rotors: [Rotor; 3],
    pub reflector: [u8; 26],
    pub plugboard: [u8; 26],
}

impl View for Machine {
    type V = MachineView;

    open spec fn view(&self) -> MachineView {
        MachineView {
            left: self.rotors[0]@,
            middle: self.rotors[1]@,
            right: self.rotors[2]@,
            reflector: self.reflector@,
            plugboard: self.plugboard@,
        }
    }
}

impl Machine {
    /// Every plugboard contact leads to a contact.
    pub open spec fn wf(self) -> bool {
        forall|i: int| 0 <= i < 26 ==> #[trigger] self.plugboard[i] < 26
    }

    /// Puts a machine together, with no cable in the plugboard.
    pub fn new(rotors: [Rotor; 3], reflector: &str) -> (machine: Machine)
        requires
            reflector.spec_bytes().len() <= 26,
            forall|i: int|
                0 <= i < reflector.spec_bytes().len() ==> A <= #[trigger] reflector.spec_bytes()[i],
        ensures
            machine.wf(),
            machine.rotors == rotors,
            machine@.reflector == contact_table(reflector.spec_bytes()),
            machine@.plugboard == open_plugboard(),
    {
        let mut r: [u8; 26] = [0u8; 26];
        let letters = reflector.as_bytes();
        let ghost bytes = reflector.spec_bytes();
        let mut i: usize = 0;
        while i < letters.len()
            invariant
                letters@ == bytes,
                bytes.len() <= 26,
                forall|k: int| 0 <= k < bytes.len() ==> A <= #[trigger] bytes[k],
                i <= bytes.len(),
                forall|k: int| 0 <= k < i ==> #[trigger] r[k] == bytes[k] - A,
                forall|k: int| i <= k < 26 ==> #[trigger] r[k] == 0,
            decreases bytes.len() - i,
        {
            r[i] = letters[i] - A;
            i += 1;
        }
        let mut plugboard: [u8; 26] = [0u8; 26];
        let mut k: usize = 0;
        while k < 26
            invariant
                k <= 26,
                forall|j: int| 0 <= j < k ==> #[trigger] plugboard[j] == j,
            decreases 26 - k,
        {
            plugboard[k] = k as u8;
            k += 1;
        }
        let machine = Machine { rotors, reflector: r, plugboard };
        proof {
            assert(machine@.reflector =~= contact_table(bytes));
            assert(machine@.plugboard =~= open_plugboard());
        }
        machine
    }

    /// Wires up plugboard pairs, in order.
    pub fn set_plugs(&mut self, pairs: &[(u8, u8)])
        requires
            are_contacts(pairs@),
        ensures
            final(self)@ == (MachineView {
                plugboard: plugged(old(self)@.plugboard, pairs@),
                ..old(self)@
            }),
            old(self).wf() ==> final(self).wf(),
    {
        let mut i: usize = 0;
        proof {
            assert(pairs@.take(0) =~= Seq::empty());
        }
        while i < pairs.len()
            invariant
                are_contacts(pairs@),
                i <= pairs.len(),
                self.rotors == old(self).rotors,
                self.reflector == old(self).reflector,
                self.plugboard@ == plugged(old(self)@.plugboard, pairs@.take(i as int)),
                old(self).wf() ==> self.wf(),
            decreases pairs.len() - i,
        {
            let (a, b) = pairs[i];
            self.plugboard[a as usize] = b;
            self.plugboard[b as usize] = a;
            proof {
                let next = pairs@.take(i + 1);
                assert(next.drop_last() =~= pairs@.take(i as int));
                assert(next.last() == pairs@[i as int]);
            }
            i += 1;
        }
        proof {
            assert(pairs@.take(i as int) =~= pairs@);
        }
    }

    /// Moves the rotors for one key press. Notches are read before anything moves.
    pub fn step_rotors(&mut self) -> (flags: [bool; 3])
        requires
            old(self)@.can_step(),
        ensures
            final(self)@ == old(self)@.stepped(),
            flags@ == old(self)@.step_flags(),
            flags[0] == (old(self).rotors[1].position == old(self).rotors[1].spec.notch),
            flags[1] == (old(self).rotors[1].position == old(self).rotors[1].spec.notch || old(
                self,
            ).rotors[2].position == old(self).rotors[2].spec.notch),
            flags[2],
            forall|i: int|
                0 <= i < 3 ==> (#[trigger] final(self).rotors[i]).position == if flags[i] {
                    (old(self).rotors[i].position + 1) % 26
                } else {
                    old(self).rotors[i].position as int
                },
            old(self).wf() ==> final(self).wf(),
    {
        let right_notch = self.rotors[2].at_notch();
        let middle_notch = self.rotors[1].at_notch();
        let step_left = middle_notch;
        let step_middle = right_notch || middle_notch;
        if step_left {
            self.rotors[0].step();
        }
        if step_middle {
            self.rotors[1].step();
        }
        self.rotors[2].step();
        let flags = [step_left, step_middle, true];
        proof {
            assert(flags@ =~= old(self)@.step_flags());
        }
        flags
    }

    /// Encrypts one letter (0 to 25) and records the full signal path.
    pub fn encode(&mut self, key: u8) -> (trace: Trace)
        requires
            key < 26,
            old(self).wf(),
            old(self)@.can_step(),
        ensures
            final(self).wf(),
            final(self)@ == old(self)@.stepped(),
            trace@ == old(self)@.trace(key),
            trace.lamp < 26,
    {
        let stepped = self.step_rotors();
        let mut hops: Vec<Hop> = Vec::with_capacity(10);
        let p: u8 = self.plugboard[key as usize];
        hops.push(Hop { stage: Stage::PlugIn, input: key, output: p });
        let r: u8 = self.rotors[2].fwd(p);
        hops.push(Hop { stage: Stage::Rotor(2), input: p, output: r });
        let m: u8 = self.rotors[1].fwd(r);
        hops.push(Hop { stage: Stage::Rotor(1), input: r, output: m });
        let l: u8 = self.rotors[0].fwd(m);
        hops.push(Hop { stage: Stage::Rotor(0), input: m, output: l });
        let u: u8 = self.reflector[l as usize];
        hops.push(Hop { stage: Stage::Reflector, input: l, output: u });
        let lb: u8 = self.rotors[0].bwd(u);
        hops.push(Hop { stage: Stage::RotorBack(0), input: u, output: lb });
        let mb: u8 = self.rotors[1].bwd(lb);
        hops.push(Hop { stage: Stage::RotorBack(1), input: lb, output: mb });
        let rb: u8 = self.rotors[2].bwd(mb);
        hops.push(Hop { stage: Stage::RotorBack(2), input: mb, output: rb });
        let lamp: u8 = self.plugboard[rb as usize];
        hops.push(Hop { stage: Stage::PlugOut, input: rb, output: lamp });
        hops.push(Hop { stage: Stage::Lamp, input: lamp, output: lamp });
        proof {
            assert(hops@ =~= self@.hops(key));
        }
        Trace { key, stepped, hops, lamp }
    }
}

} // verus!
