//! The daily key: which rotors, reflector, ring settings, start positions and
//! plugboard cables a machine is set up with.

use vstd::prelude::*;
use vstd::string::*;

use crate::enigma::{
    are_contacts, contact_table, open_plugboard, plugged, rotor_spec, standard_rotor, wrap26,
    Machine, MachineView, Rotor, RotorView, REFLECTORS,
};
use crate::reciprocity::{
    are_disjoint, disjoint_cables_swap, is_free, permutations_make_wired_rotors, touches,
};
use crate::wiring::{standard_reflectors_are_pairings, standard_rotors_are_permutations};

verus! {

/// Cables that fit into the plugboard box.
pub const MAX_PLUGS: usize = 10;

/// The settings of a machine.
pub struct Config {
    /// Index into [`REFLECTORS`].
    pub reflector: usize,
    /// Indices of the standard rotors: left, middle, right.
    pub rotors: [usize; 3],
    /// 0 to 25.
    pub rings: [u8; 3],
    /// Start positions, 0 to 25.
    pub positions: [u8; 3],
    pub plugs: Vec<(u8, u8)>,
}

/// The model of a [`Config`].
#[verifier::ext_equal]
pub struct ConfigView {
    pub reflector: usize,
    pub rotors: Seq<usize>,
    pub rings: Seq<u8>,
    pub positions: Seq<u8>,
    pub plugs: Seq<(u8, u8)>,
}

impl View for Config {
    type V = ConfigView;

    open spec fn view(&self) -> ConfigView {
        ConfigView {
            reflector: self.reflector,
            rotors: self.rotors@,
            rings: self.rings@,
            positions: self.positions@,
            plugs: self.plugs@,
        }
    }
}

/// At most ten cables, each between two different letters, the smaller one first,
/// and no letter with two cables.
pub open spec fn is_cabling(plugs: Seq<(u8, u8)>) -> bool {
    &&& plugs.len() <= MAX_PLUGS
    &&& are_disjoint(plugs)
    &&& forall|i: int| 0 <= i < plugs.len() ==> (#[trigger] plugs[i]).0 < plugs[i].1
}

/// The cable between two letters, the smaller one first.
pub open spec fn cable(a: u8, b: u8) -> (u8, u8) {
    if a <= b {
        (a, b)
    } else {
        (b, a)
    }
}

/// The cables that use neither letter.
pub open spec fn clear_of(plugs: Seq<(u8, u8)>, a: u8, b: u8) -> Seq<(u8, u8)> {
    plugs.filter(|p: (u8, u8)| !touches(p, a) && !touches(p, b))
}

/// The cables after the pair of letters has been toggled: a cable that is there
/// is taken out; otherwise it takes the place of those that use its letters, if
/// there is a cable left.
pub open spec fn toggled(plugs: Seq<(u8, u8)>, a: u8, b: u8) -> Seq<(u8, u8)> {
    if plugs.contains(cable(a, b)) {
        plugs.remove_value(cable(a, b))
    } else if clear_of(plugs, a, b).len() < MAX_PLUGS {
        clear_of(plugs, a, b).push(cable(a, b))
    } else {
        clear_of(plugs, a, b)
    }
}

/// The first of `v + dir`, `v + 2 dir` and so on, modulo 5, that is neither of
/// the two taken rotors; the search ends after `tries` further steps.
pub open spec fn next_free(v: int, dir: int, taken: (int, int), tries: nat) -> int
    decreases tries,
{
    let w = (v + dir) % 5;
    if (w != taken.0 && w != taken.1) || tries == 0 {
        w
    } else {
        next_free(w, dir, taken, (tries - 1) as nat)
    }
}

/// The rotors in the two other slots.
pub open spec fn other_rotors(rotors: Seq<usize>, slot: int) -> (int, int) {
    if slot == 0 {
        (rotors[1] as int, rotors[2] as int)
    } else if slot == 1 {
        (rotors[0] as int, rotors[2] as int)
    } else {
        (rotors[0] as int, rotors[1] as int)
    }
}

impl ConfigView {
    /// A key that the setup screen can hold: three different standard rotors, a
    /// standard reflector, letters for rings and positions, and a sound cabling.
    pub open spec fn wf(self) -> bool {
        &&& self.reflector < 2
        &&& self.rotors.len() == 3
        &&& self.rings.len() == 3
        &&& self.positions.len() == 3
        &&& forall|i: int| 0 <= i < 3 ==> #[trigger] self.rotors[i] < 5
        &&& forall|i: int, j: int|
            0 <= i < j < 3 ==> #[trigger] self.rotors[i] != #[trigger] self.rotors[j]
        &&& forall|i: int| 0 <= i < 3 ==> #[trigger] self.rings[i] < 26
        &&& forall|i: int| 0 <= i < 3 ==> #[trigger] self.positions[i] < 26
        &&& is_cabling(self.plugs)
    }

    /// The key that a fresh session starts with: I II III, reflector B, AAA, AAA,
    /// and the cables A-M and F-T.
    pub open spec fn initial() -> ConfigView {
        ConfigView {
            reflector: 0,
            rotors: seq![0usize, 1usize, 2usize],
            rings: seq![0u8, 0u8, 0u8],
            positions: seq![0u8, 0u8, 0u8],
            plugs: seq![(0u8, 12u8), (5u8, 19u8)],
        }
    }

    /// The rotor of a slot, as it is mounted.
    pub open spec fn rotor(self, slot: int) -> RotorView {
        RotorView::mounted(
            standard_rotor(self.rotors[slot] as int),
            self.positions[slot],
            self.rings[slot],
        )
    }

    /// The machine that is set up by this key.
    pub open spec fn machine(self) -> MachineView {
        MachineView {
            left: self.rotor(0),
            middle: self.rotor(1),
            right: self.rotor(2),
            reflector: contact_table(REFLECTORS[self.reflector as int].1.spec_bytes()),
            plugboard: plugged(open_plugboard(), self.plugs),
        }
    }

    /// The key after the setup field `field` has been changed by `dir`: reflector,
    /// three rotors, three rings, three start positions. Other fields have no
    /// values to step through.
    pub open spec fn adjusted(self, field: int, dir: int) -> ConfigView {
        if field == 0 {
            ConfigView { reflector: ((self.reflector + dir) % 2) as usize, ..self }
        } else if 1 <= field <= 3 {
            let slot = field - 1;
            let v = next_free(self.rotors[slot] as int, dir, other_rotors(self.rotors, slot), 4);
            ConfigView { rotors: self.rotors.update(slot, v as usize), ..self }
        } else if 4 <= field <= 6 {
            let i = field - 4;
            ConfigView {
                rings: self.rings.update(i, ((self.rings[i] + dir) % 26) as u8),
                ..self
            }
        } else if 7 <= field <= 9 {
            let i = field - 7;
            ConfigView {
                positions: self.positions.update(i, ((self.positions[i] + dir) % 26) as u8),
                ..self
            }
        } else {
            self
        }
    }
}

/// What stays of a sound cabling is sound, and comes from it.
proof fn lemma_clear_of(plugs: Seq<(u8, u8)>, a: u8, b: u8)
    requires
        is_cabling(plugs),
    ensures
        is_cabling(clear_of(plugs, a, b)),
        clear_of(plugs, a, b).len() <= plugs.len(),
        forall|i: int|
            0 <= i < clear_of(plugs, a, b).len() ==> plugs.contains(
                #[trigger] clear_of(plugs, a, b)[i],
            ) && !touches(clear_of(plugs, a, b)[i], a) && !touches(clear_of(plugs, a, b)[i], b),
    decreases plugs.len(),
{
    reveal(Seq::filter);
    if plugs.len() > 0 {
        let front = plugs.drop_last();
        assert(forall|i: int| 0 <= i < front.len() ==> front[i] == plugs[i]);
        lemma_clear_of(front, a, b);
        let kept = clear_of(front, a, b);
        let out = clear_of(plugs, a, b);
        assert forall|i: int| 0 <= i < out.len() implies plugs.contains(#[trigger] out[i]) by {
            if i < kept.len() {
                assert(out[i] == kept[i]);
                let j = choose|j: int| 0 <= j < front.len() && front[j] == kept[i];
                assert(plugs[j] == out[i]);
            } else {
                assert(plugs[plugs.len() - 1] == out[i]);
            }
        }
        assert forall|i: int, j: int| 0 <= i < j < out.len() implies !touches(
            #[trigger] out[i],
            (#[trigger] out[j]).0,
        ) && !touches(out[i], out[j].1) by {
            assert(out[i] == kept[i]);
            if j < kept.len() {
                assert(out[j] == kept[j]);
            } else {
                let k = choose|k: int| 0 <= k < front.len() && front[k] == kept[i];
                assert(plugs[k] == out[i]);
                assert(out[j] == plugs[plugs.len() - 1]);
            }
        }
        assert forall|i: int| 0 <= i < out.len() implies (#[trigger] out[i]).0 < out[i].1
            && out[i].1 < 26 && !touches(out[i], a) && !touches(out[i], b) by {
            if i < kept.len() {
                assert(out[i] == kept[i]);
            } else {
                assert(out[i] == plugs[plugs.len() - 1]);
            }
        }
    }
}

/// Toggling two different letters keeps a sound cabling sound.
pub proof fn toggling_keeps_cabling(plugs: Seq<(u8, u8)>, a: u8, b: u8)
    requires
        is_cabling(plugs),
        a < 26,
        b < 26,
        a != b,
    ensures
        is_cabling(toggled(plugs, a, b)),
{
    let pair = cable(a, b);
    if plugs.contains(pair) {
        plugs.index_of_first_ensures(pair);
        let k = plugs.index_of_first(pair).unwrap();
        let out = plugs.remove(k);
        assert(forall|i: int| 0 <= i < k ==> out[i] == plugs[i]);
        assert(forall|i: int| k <= i < out.len() ==> out[i] == plugs[i + 1]);
    } else {
        lemma_clear_of(plugs, a, b);
    }
}

/// Letters that have no cable stay as they are when a cabling is cleared for them.
pub(crate) proof fn lemma_nothing_to_clear(plugs: Seq<(u8, u8)>, a: u8, b: u8)
    requires
        is_free(plugs, a),
        is_free(plugs, b),
    ensures
        clear_of(plugs, a, b) == plugs,
    decreases plugs.len(),
{
    reveal(Seq::filter);
    if plugs.len() > 0 {
        let front = plugs.drop_last();
        assert(forall|i: int| 0 <= i < front.len() ==> front[i] == plugs[i]);
        lemma_nothing_to_clear(front, a, b);
        assert(!touches(plugs[plugs.len() - 1], a));
        assert(clear_of(plugs, a, b) =~= front.push(plugs.last()));
        assert(front.push(plugs.last()) =~= plugs);
    }
}

/// What stays when a cabling is cleared for two letters uses neither.
proof fn lemma_cleared(plugs: Seq<(u8, u8)>, a: u8, b: u8)
    ensures
        is_free(clear_of(plugs, a, b), a),
        is_free(clear_of(plugs, a, b), b),
    decreases plugs.len(),
{
    reveal(Seq::filter);
    if plugs.len() > 0 {
        let kept = clear_of(plugs.drop_last(), a, b);
        lemma_cleared(plugs.drop_last(), a, b);
        let out = clear_of(plugs, a, b);
        assert forall|i: int| 0 <= i < out.len() implies !touches(#[trigger] out[i], a) && !touches(
            out[i],
            b,
        ) by {
            if i < kept.len() {
                assert(out[i] == kept[i]);
            }
        }
    }
}

/// Among cables that use neither letter there is none between the two.
pub(crate) proof fn lemma_no_cable(plugs: Seq<(u8, u8)>, a: u8, b: u8)
    requires
        is_free(plugs, a),
    ensures
        !plugs.contains(cable(a, b)),
{
    assert(touches(cable(a, b), a));
}

/// Two letters without a cable between them, toggled twice, leave the cables that
/// use neither of them. The first time pairs them, if there is a cable left.
pub proof fn toggling_again_removes(plugs: Seq<(u8, u8)>, a: u8, b: u8)
    requires
        !plugs.contains(cable(a, b)),
    ensures
        clear_of(plugs, a, b).len() < MAX_PLUGS ==> toggled(plugs, a, b).contains(cable(a, b)),
        toggled(toggled(plugs, a, b), a, b) == clear_of(plugs, a, b),
{
    let pair = cable(a, b);
    let kept = clear_of(plugs, a, b);
    let once = toggled(plugs, a, b);
    lemma_cleared(plugs, a, b);
    lemma_no_cable(kept, a, b);
    if kept.len() < MAX_PLUGS {
        assert(once == kept.push(pair));
        assert(once[kept.len() as int] == pair);
        once.index_of_first_ensures(pair);
        let k = once.index_of_first(pair).unwrap();
        assert(k == kept.len()) by {
            if k < kept.len() {
                assert(once[k] == kept[k]);
            }
        }
        assert(once.remove(k) =~= kept);
    } else {
        assert(once == kept);
        lemma_nothing_to_clear(kept, a, b);
    }
}

/// Two free letters, toggled twice, leave the cabling as it was, on a full board
/// too.
pub proof fn toggling_twice_restores(plugs: Seq<(u8, u8)>, a: u8, b: u8)
    requires
        is_free(plugs, a),
        is_free(plugs, b),
    ensures
        toggled(toggled(plugs, a, b), a, b) == plugs,
{
    lemma_no_cable(plugs, a, b);
    toggling_again_removes(plugs, a, b);
    lemma_nothing_to_clear(plugs, a, b);
}

/// The order in which the two letters are typed does not matter.
pub proof fn toggling_is_symmetric(plugs: Seq<(u8, u8)>, a: u8, b: u8)
    ensures
        toggled(plugs, a, b) == toggled(plugs, b, a),
{
    let ab = |p: (u8, u8)| !touches(p, a) && !touches(p, b);
    let ba = |p: (u8, u8)| !touches(p, b) && !touches(p, a);
    assert(ab =~= ba);
    assert(clear_of(plugs, a, b) == clear_of(plugs, b, a));
}

/// Toggling a cable that is there takes it out.
pub proof fn toggling_a_cable_removes_it(plugs: Seq<(u8, u8)>, a: u8, b: u8)
    requires
        is_cabling(plugs),
        plugs.contains(cable(a, b)),
    ensures
        !toggled(plugs, a, b).contains(cable(a, b)),
        toggled(plugs, a, b).len() == plugs.len() - 1,
{
    let pair = cable(a, b);
    plugs.index_of_first_ensures(pair);
    let k = plugs.index_of_first(pair).unwrap();
    let out = plugs.remove(k);
    assert forall|i: int| 0 <= i < out.len() implies out[i] != pair by {
        if i < k {
            assert(out[i] == plugs[i]);
            assert(!touches(plugs[i], plugs[k].0));
        } else {
            assert(out[i] == plugs[i + 1]);
            assert(!touches(plugs[k], plugs[i + 1].0));
        }
    }
}

/// One of the two taken rotors.
pub(crate) open spec fn is_taken(v: int, taken: (int, int)) -> bool {
    v == taken.0 || v == taken.1
}

/// The search for a free rotor takes three steps at most, and ends at one: three
/// steps visit three rotors, or stay at the one in the slot, which is free.
pub(crate) proof fn lemma_next_free(v: int, dir: int, taken: (int, int))
    requires
        0 <= v < 5,
        !is_taken(v, taken),
    ensures
        ({
            let one = (v + dir) % 5;
            let two = (one + dir) % 5;
            let three = (two + dir) % 5;
            &&& !is_taken(one, taken) ==> next_free(v, dir, taken, 4) == one
            &&& is_taken(one, taken) && !is_taken(two, taken) ==> next_free(v, dir, taken, 4) == two
            &&& is_taken(one, taken) && is_taken(two, taken) ==> !is_taken(three, taken)
                && next_free(v, dir, taken, 4) == three
        }),
        0 <= next_free(v, dir, taken, 4) < 5,
        !is_taken(next_free(v, dir, taken, 4), taken),
{
    reveal_with_fuel(next_free, 4);
    let one = (v + dir) % 5;
    let two = (one + dir) % 5;
    let three = (two + dir) % 5;
    if dir % 5 == 0 {
        assert(one == v);
    } else {
        assert(one != two && one != three && two != three);
    }
}

/// Stepping back undoes stepping on.
proof fn lemma_next_free_undone(v: int, dir: int, taken: (int, int))
    requires
        0 <= v < 5,
        0 <= taken.0 < 5,
        0 <= taken.1 < 5,
        !is_taken(v, taken),
    ensures
        next_free(next_free(v, dir, taken, 4), -dir, taken, 4) == v,
{
    let one = (v + dir) % 5;
    let two = (one + dir) % 5;
    let three = (two + dir) % 5;
    assert((one - dir) % 5 == v);
    assert((two - dir) % 5 == one);
    assert((three - dir) % 5 == two);
    lemma_next_free(v, dir, taken);
    if !is_taken(one, taken) {
        lemma_next_free(one, -dir, taken);
    } else if !is_taken(two, taken) {
        lemma_next_free(two, -dir, taken);
    } else {
        lemma_next_free(three, -dir, taken);
    }
}

/// Changing a setup field keeps the key sound.
pub proof fn adjusting_keeps_key(config: ConfigView, field: int, dir: int)
    requires
        config.wf(),
    ensures
        config.adjusted(field, dir).wf(),
{
    if 1 <= field <= 3 {
        let slot = field - 1;
        let out = config.adjusted(field, dir);
        lemma_next_free(config.rotors[slot] as int, dir, other_rotors(config.rotors, slot));
        assert forall|i: int, j: int| 0 <= i < j < 3 implies #[trigger] out.rotors[i]
            != #[trigger] out.rotors[j] by {
            assert(slot == 0 || slot == 1 || slot == 2);
        }
    }
}

/// Going on and back by the same amount, round and round.
proof fn lemma_there_and_back(x: int, dir: int)
    ensures
        0 <= x < 26 ==> ((x + dir) % 26 - dir) % 26 == x,
        0 <= x < 2 ==> ((x + dir) % 2 - dir) % 2 == x,
{
}

/// Changing a setup field and changing it back restores the key.
pub proof fn adjusting_back_restores(config: ConfigView, field: int, dir: int)
    requires
        config.wf(),
    ensures
        config.adjusted(field, dir).adjusted(field, -dir) == config,
{
    let once = config.adjusted(field, dir);
    let twice = once.adjusted(field, -dir);
    if field == 0 {
        lemma_there_and_back(config.reflector as int, dir);
        assert(twice.reflector == config.reflector);
    } else if 1 <= field <= 3 {
        let slot = field - 1;
        let taken = other_rotors(config.rotors, slot);
        assert(slot == 0 || slot == 1 || slot == 2);
        lemma_next_free(config.rotors[slot] as int, dir, taken);
        lemma_next_free_undone(config.rotors[slot] as int, dir, taken);
        let v = next_free(config.rotors[slot] as int, dir, taken, 4);
        assert(once.rotors == config.rotors.update(slot, v as usize));
        assert(other_rotors(once.rotors, slot) == taken);
        assert(twice.rotors == once.rotors.update(slot, config.rotors[slot]));
        assert(twice.rotors =~= config.rotors);
    } else if 4 <= field <= 6 {
        let i = field - 4;
        lemma_there_and_back(config.rings[i] as int, dir);
        assert(twice.rings == once.rings.update(i, config.rings[i]));
        assert(twice.rings =~= config.rings);
    } else if 7 <= field <= 9 {
        let i = field - 7;
        lemma_there_and_back(config.positions[i] as int, dir);
        assert(twice.positions == once.positions.update(i, config.positions[i]));
        assert(twice.positions =~= config.positions);
    }
}

/// A sound key sets up a machine whose rotors, reflector and plugboard undo
/// themselves.
pub proof fn sound_keys_make_wired_machines(config: ConfigView)
    requires
        config.wf(),
    ensures
        config.machine().wired(),
{
    standard_rotors_are_permutations(config.rotors[0] as int);
    standard_rotors_are_permutations(config.rotors[1] as int);
    standard_rotors_are_permutations(config.rotors[2] as int);
    standard_reflectors_are_pairings(config.reflector as int);
    permutations_make_wired_rotors(
        standard_rotor(config.rotors[0] as int),
        config.positions[0],
        config.rings[0],
    );
    permutations_make_wired_rotors(
        standard_rotor(config.rotors[1] as int),
        config.positions[1],
        config.rings[1],
    );
    permutations_make_wired_rotors(
        standard_rotor(config.rotors[2] as int),
        config.positions[2],
        config.rings[2],
    );
    disjoint_cables_swap(config.plugs);
}

impl Clone for Config {
    fn clone(&self) -> (copy: Config)
        ensures
            copy@ == self@,
    {
        let mut plugs: Vec<(u8, u8)> = Vec::new();
        let mut i: usize = 0;
        while i < self.plugs.len()
            invariant
                i <= self.plugs.len(),
                plugs@ == self.plugs@.take(i as int),
            decreases self.plugs.len() - i,
        {
            plugs.push(self.plugs[i]);
            proof {
                assert(plugs@ =~= self.plugs@.take(i + 1));
            }
            i += 1;
        }
        proof {
            assert(plugs@ =~= self.plugs@);
        }
        Config {
            reflector: self.reflector,
            rotors: self.rotors,
            rings: self.rings,
            positions: self.positions,
            plugs,
        }
    }
}

impl Config {
    /// The key that a fresh session starts with.
    pub fn default() -> (config: Config)
        ensures
            config@ == ConfigView::initial(),
            config@.wf(),
    {
        let config = Config {
            reflector: 0,
            rotors: [0, 1, 2],
            rings: [0, 0, 0],
            positions: [0, 0, 0],
            plugs: vec![(0, 12), (5, 19)],
        };
        proof {
            assert(config@ =~= ConfigView::initial());
        }
        config
    }

    /// Sets up a machine.
    pub fn build(&self) -> (machine: Machine)
        requires
            self.reflector < 2,
            forall|i: int| 0 <= i < 3 ==> #[trigger] self.rotors[i] < 5,
            are_contacts(self.plugs@),
        ensures
            machine.wf(),
            machine@ == self@.machine(),
            forall|i: int|
                0 <= i < 3 ==> {
                    &&& (#[trigger] machine.rotors[i]).position == self.positions[i]
                    &&& machine.rotors[i].ring == self.rings[i]
                    &&& machine.rotors[i].spec == standard_rotor(self.rotors[i] as int)
                },
    {
        proof {
            standard_reflectors_are_pairings(self.reflector as int);
        }
        let rotors = [
            Rotor::new(rotor_spec(self.rotors[0]), self.positions[0], self.rings[0]),
            Rotor::new(rotor_spec(self.rotors[1]), self.positions[1], self.rings[1]),
            Rotor::new(rotor_spec(self.rotors[2]), self.positions[2], self.rings[2]),
        ];
        let mut m = Machine::new(rotors, REFLECTORS[self.reflector].1);
        m.set_plugs(self.plugs.as_slice());
        m
    }

    /// Takes the cable between two letters out if it is there; otherwise removes
    /// the cables that use either letter and adds it, if there is one left.
    pub fn toggle_plug(&mut self, a: u8, b: u8)
        ensures
            final(self)@ == (ConfigView { plugs: toggled(old(self)@.plugs, a, b), ..old(self)@ }),
            old(self)@.wf() && a < 26 && b < 26 && a != b ==> final(self)@.wf(),
    {
        proof {
            if self@.wf() && a < 26 && b < 26 && a != b {
                toggling_keeps_cabling(self@.plugs, a, b);
            }
        }
        let (lo, hi) = if a <= b {
            (a, b)
        } else {
            (b, a)
        };
        let ghost pair = cable(a, b);
        let ghost plugs = self.plugs@;
        let mut i: usize = 0;
        while i < self.plugs.len()
            invariant
                i <= self.plugs.len(),
                self.plugs@ == plugs,
                *self == *old(self),
                pair == (lo, hi),
                pair == cable(a, b),
                forall|k: int| 0 <= k < i ==> plugs[k] != pair,
            decreases self.plugs.len() - i,
        {
            if self.plugs[i].0 == lo && self.plugs[i].1 == hi {
                proof {
                    assert(plugs[i as int] == pair);
                    plugs.index_of_first_ensures(pair);
                    assert(plugs.index_of_first(pair) == Some(i as int));
                }
                self.plugs.remove(i);
                proof {
                    assert(self.plugs@ =~= toggled(plugs, a, b));
                }
                return;
            }
            i += 1;
        }
        let mut kept: Vec<(u8, u8)> = Vec::new();
        let mut j: usize = 0;
        proof {
            reveal(Seq::filter);
            assert(kept@ =~= clear_of(plugs.take(0), a, b));
        }
        while j < self.plugs.len()
            invariant
                j <= self.plugs.len(),
                self.plugs@ == plugs,
                *self == *old(self),
                kept@ == clear_of(plugs.take(j as int), a, b),
            decreases self.plugs.len() - j,
        {
            let (x, y) = self.plugs[j];
            proof {
                reveal(Seq::filter);
                assert(plugs.take(j + 1).drop_last() =~= plugs.take(j as int));
                assert(plugs.take(j + 1).last() == plugs[j as int]);
            }
            if x != a && y != a && x != b && y != b {
                kept.push((x, y));
            }
            j += 1;
        }
        proof {
            assert(plugs.take(j as int) =~= plugs);
        }
        if kept.len() < MAX_PLUGS {
            kept.push((lo, hi));
        }
        self.plugs = kept;
    }

    /// Changes a setup field by `dir`, round and round; a rotor moves on to the
    /// next one that is in neither of the other slots.
    pub fn adjust_field(&mut self, field: usize, dir: i32)
        requires
            old(self)@.wf(),
            dir <= i32::MAX - 25,
        ensures
            final(self)@ == old(self)@.adjusted(field as int, dir as int),
            final(self)@.wf(),
    {
        proof {
            adjusting_keeps_key(self@, field as int, dir as int);
        }
        if field == 0 {
            let r: i32 = (self.reflector as i32 + dir) % 2;
            self.reflector = if r < 0 {
                (r + 2) as usize
            } else {
                r as usize
            };
        } else if field <= 3 {
            let slot: usize = field - 1;
            let v: usize = self.free_rotor(slot, dir);
            self.rotors[slot] = v;
        } else if field <= 6 {
            let i: usize = field - 4;
            self.rings[i] = wrap26(self.rings[i] as i32 + dir);
        } else if field <= 9 {
            let i: usize = field - 7;
            self.positions[i] = wrap26(self.positions[i] as i32 + dir);
        }
        proof {
            assert(self@ =~= old(self)@.adjusted(field as int, dir as int));
        }
    }

    /// The next rotor from the one in `slot` on that is in no other slot.
    fn free_rotor(&self, slot: usize, dir: i32) -> (v: usize)
        requires
            self@.wf(),
            slot < 3,
            dir <= i32::MAX - 25,
        ensures
            v == next_free(
                self.rotors[slot as int] as int,
                dir as int,
                other_rotors(self@.rotors, slot as int),
                4,
            ),
    {
        let first: usize = if slot == 0 {
            self.rotors[1]
        } else {
            self.rotors[0]
        };
        let second: usize = if slot == 2 {
            self.rotors[1]
        } else {
            self.rotors[2]
        };
        let ghost taken = other_rotors(self@.rotors, slot as int);
        let ghost start = self.rotors[slot as int] as int;
        let ghost mut tries: nat = 4;
        let mut v: i32 = self.rotors[slot] as i32;
        proof {
            lemma_next_free(start, dir as int, taken);
        }
        let ghost one = (start + dir) % 5;
        let ghost two = (one + dir) % 5;
        loop
            invariant_except_break
                0 <= v < 5,
                first < 5,
                second < 5,
                dir <= i32::MAX - 25,
                taken == (first as int, second as int),
                one == (start + dir) % 5,
                two == (one + dir) % 5,
                !(is_taken(one, taken) && is_taken(two, taken) && is_taken((two + dir) % 5, taken)),
                2 <= tries <= 4,
                tries == 4 ==> v == start,
                tries == 3 ==> v == one && is_taken(one, taken),
                tries == 2 ==> v == two && is_taken(one, taken) && is_taken(two, taken),
                next_free(start, dir as int, taken, 4) == next_free(
                    v as int,
                    dir as int,
                    taken,
                    tries,
                ),
            ensures
                v == next_free(start, dir as int, taken, 4),
                0 <= v < 5,
            decreases tries,
        {
            let r: i32 = (v + dir) % 5;
            v = if r < 0 {
                r + 5
            } else {
                r
            };
            if v as usize != first && v as usize != second {
                break;
            }
            proof {
                tries = (tries - 1) as nat;
            }
        }
        v as usize
    }
}

} // verus!
