//! The daily key as its letters show it: how it sets up a machine, and what each way
//! of changing it changes.

use vstd::prelude::*;
use vstd::string::*;

use crate::config::{
    cable, clear_of, is_cabling, is_taken, lemma_next_free, lemma_no_cable, lemma_nothing_to_clear,
    next_free, other_rotors, toggled, toggling_is_symmetric, ConfigView,
};
use crate::enigma::{open_plugboard, MachineView, RotorView, REFLECTORS, ROTORS};
use crate::mechanism::an_open_plugboard_swaps_nothing;
use crate::reciprocity::{
    are_disjoint, cables_swap_their_ends, free_contacts_stay, is_free, touches,
};
use crate::wiring::{standard_reflectors_are_pairings, standard_rotors_are_permutations};

verus! {

/// The rotor of slot `i` of a machine, counted from the left.
pub open spec fn slot(m: MachineView, i: int) -> RotorView {
    if i == 0 {
        m.left
    } else if i == 1 {
        m.middle
    } else {
        m.right
    }
}

/// A key mounts in every slot the rotor that it names for the slot, wired by the
/// letters of its make, with the start position of the slot in the window and the
/// ring set as for the slot.
pub proof fn a_key_mounts_its_rotors(key: ConfigView, i: int, c: int)
    requires
        key.wf(),
        0 <= i < 3,
        0 <= c < 26,
    ensures
        slot(key.machine(), i).position == key.positions[i],
        slot(key.machine(), i).ring == key.rings[i],
        slot(key.machine(), i).spec.name == ROTORS[key.rotors[i] as int].0,
        slot(key.machine(), i).spec.wiring == ROTORS[key.rotors[i] as int].1,
        slot(key.machine(), i).spec.notch == ROTORS[key.rotors[i] as int].2,
        slot(key.machine(), i).forward[c] + 65 == ROTORS[key.rotors[i] as int].1.spec_bytes()[c],
{
    standard_rotors_are_permutations(key.rotors[i] as int);
}

/// A key puts in the reflector that it names: every contact is led to that of the
/// reflector's letter.
pub proof fn a_key_puts_in_its_reflector(key: ConfigView, c: int)
    requires
        key.wf(),
        0 <= c < 26,
    ensures
        key.machine().reflector[c] + 65 == REFLECTORS[key.reflector as int].1.spec_bytes()[c],
{
    standard_reflectors_are_pairings(key.reflector as int);
}

/// A key plugs in its cables and no others: each of them swaps its two letters, and a
/// letter without a cable stays what it is.
pub proof fn a_key_plugs_in_its_cables(key: ConfigView, i: int, c: u8)
    requires
        key.wf(),
    ensures
        0 <= i < key.plugs.len() ==> key.machine().plugboard[key.plugs[i].0 as int]
            == key.plugs[i].1 && key.machine().plugboard[key.plugs[i].1 as int] == key.plugs[i].0,
        c < 26 && (forall|k: int|
            0 <= k < key.plugs.len() ==> (#[trigger] key.plugs[k]).0 != c && key.plugs[k].1 != c)
            ==> key.machine().plugboard[c as int] == c,
{
    assert(are_disjoint(key.plugs));
    if 0 <= i < key.plugs.len() {
        cables_swap_their_ends(key.plugs, i);
    }
    if c < 26 && (forall|k: int|
        0 <= k < key.plugs.len() ==> (#[trigger] key.plugs[k]).0 != c && key.plugs[k].1 != c) {
        assert(is_free(key.plugs, c));
        free_contacts_stay(open_plugboard(), key.plugs, c);
        an_open_plugboard_swaps_nothing(c);
    }
}

/// The key that a session begins with.
pub proof fn the_first_key()
    ensures
        ConfigView::initial().reflector == 0,
        ConfigView::initial().rotors == seq![0usize, 1, 2],
        ConfigView::initial().rings == seq![0u8, 0, 0],
        ConfigView::initial().positions == seq![0u8, 0, 0],
        ConfigView::initial().plugs == seq![(0u8, 12u8), (5, 19)],
{
}

/// Every setup field steps a setting of its own and leaves all others as they are:
/// field 0 the reflector, fields 1 to 3 the rotors, 4 to 6 the rings and 7 to 9 the
/// start positions, left to right. Letters go round and round, and so do the two
/// reflectors. The plugboard has no steps.
pub proof fn each_field_steps_its_own_setting(key: ConfigView, field: int, dir: int, i: int)
    requires
        key.wf(),
        0 <= i < 3,
    ensures
        ({
            let out = key.adjusted(field, dir);
            &&& out.reflector == if field == 0 {
                (key.reflector + dir) % 2
            } else {
                key.reflector as int
            }
            &&& field != 1 + i ==> out.rotors[i] == key.rotors[i]
            &&& out.rings[i] == if field == 4 + i {
                (key.rings[i] + dir) % 26
            } else {
                key.rings[i] as int
            }
            &&& out.positions[i] == if field == 7 + i {
                (key.positions[i] + dir) % 26
            } else {
                key.positions[i] as int
            }
            &&& out.plugs == key.plugs
            &&& out.rotors.len() == 3 && out.rings.len() == 3 && out.positions.len() == 3
        }),
{
}

/// Steps of `dir`, taken one by one round and round, add up.
proof fn lemma_three_steps(v: int, dir: int)
    ensures
        ((v + dir) % 5 + dir) % 5 == (v + 2 * dir) % 5,
        ((v + 2 * dir) % 5 + dir) % 5 == (v + 3 * dir) % 5,
{
}

/// The rotors of the two other slots are those of the two other slots.
proof fn lemma_others(key: ConfigView, i: int, j: int, k: int)
    requires
        key.wf(),
        0 <= i < 3,
        0 <= j < 3,
        0 <= k < 3,
        i != j && j != k && i != k,
    ensures
        ({
            let taken = other_rotors(key.rotors, i);
            let others = (key.rotors[j] as int, key.rotors[k] as int);
            &&& taken == others || taken == (others.1, others.0)
            &&& !is_taken(key.rotors[i] as int, taken)
        }),
{
    assert(key.rotors[0] != key.rotors[1] && key.rotors[0] != key.rotors[2] && key.rotors[1]
        != key.rotors[2]);
}

/// A rotor field goes on to the first make in its direction, of five counted round
/// and round, that is in neither of the other slots `j` and `k`.
pub proof fn a_rotor_field_skips_the_rotors_in_use(key: ConfigView, i: int, j: int, k: int, dir: int)
    requires
        key.wf(),
        0 <= i < 3,
        0 <= j < 3,
        0 <= k < 3,
        i != j && j != k && i != k,
    ensures
        ({
            let now = key.rotors[i] as int;
            let next = key.adjusted(1 + i, dir).rotors[i] as int;
            let one = (now + dir) % 5;
            let two = (now + 2 * dir) % 5;
            let three = (now + 3 * dir) % 5;
            &&& next != key.rotors[j] && next != key.rotors[k]
            &&& next == if one != key.rotors[j] && one != key.rotors[k] {
                one
            } else if two != key.rotors[j] && two != key.rotors[k] {
                two
            } else {
                three
            }
        }),
{
    let now = key.rotors[i] as int;
    let taken = other_rotors(key.rotors, i);
    lemma_three_steps(now, dir);
    lemma_others(key, i, j, k);
    lemma_next_free(now, dir, taken);
    assert(key.adjusted(1 + i, dir).rotors[i] == next_free(now, dir, taken, 4));
}

/// Two letters that are joined by a cable, typed in either order, lose it; the other
/// cables stay where they are.
pub proof fn a_cable_that_is_there_comes_out(plugs: Seq<(u8, u8)>, k: int)
    requires
        is_cabling(plugs),
        0 <= k < plugs.len(),
    ensures
        toggled(plugs, plugs[k].0, plugs[k].1) == plugs.take(k) + plugs.skip(k + 1),
        toggled(plugs, plugs[k].1, plugs[k].0) == plugs.take(k) + plugs.skip(k + 1),
{
    let pair = plugs[k];
    assert(cable(pair.0, pair.1) == pair && cable(pair.1, pair.0) == pair);
    assert(plugs.contains(pair));
    plugs.index_of_first_ensures(pair);
    let first = plugs.index_of_first(pair).unwrap();
    assert(first == k) by {
        if first < k {
            assert(!touches(plugs[first], plugs[k].0));
        } else if k < first {
            assert(!touches(plugs[k], plugs[first].0));
        }
    }
    assert(plugs.remove(k) =~= plugs.take(k) + plugs.skip(k + 1));
}

/// Two free letters get a new cable, behind the others; with ten cables in use none
/// is left, and nothing changes.
pub proof fn two_free_letters_are_joined(plugs: Seq<(u8, u8)>, a: u8, b: u8)
    requires
        is_free(plugs, a),
        is_free(plugs, b),
    ensures
        plugs.len() < 10 && a <= b ==> toggled(plugs, a, b) == plugs.push((a, b)),
        plugs.len() < 10 && b <= a ==> toggled(plugs, a, b) == plugs.push((b, a)),
        plugs.len() >= 10 ==> toggled(plugs, a, b) == plugs,
{
    lemma_no_cable(plugs, a, b);
    lemma_nothing_to_clear(plugs, a, b);
}

/// What stays of a part, one cable and another part, if the cable has to go and the
/// parts may stay.
proof fn lemma_clear_one(before: Seq<(u8, u8)>, pair: (u8, u8), rest: Seq<(u8, u8)>, a: u8, b: u8)
    requires
        is_free(before, a),
        is_free(before, b),
        touches(pair, a) || touches(pair, b),
    ensures
        clear_of(before + seq![pair] + rest, a, b) == before + clear_of(rest, a, b),
{
    let keep = |p: (u8, u8)| !touches(p, a) && !touches(p, b);
    Seq::filter_distributes_over_add(before + seq![pair], rest, keep);
    Seq::filter_distributes_over_add(before, seq![pair], keep);
    lemma_nothing_to_clear(before, a, b);
    let single = seq![pair];
    assert(single.filter(keep) =~= Seq::empty()) by {
        reveal_with_fuel(Seq::filter, 2);
        assert(single.drop_last() =~= Seq::empty());
        assert(!keep(single.last()));
    }
    assert((before + seq![pair]).filter(keep) =~= before);
}

/// A part of a list is free of a letter if none of its cables has it.
proof fn lemma_part_is_free(plugs: Seq<(u8, u8)>, i: int, j: int, c: u8)
    requires
        0 <= i <= j <= plugs.len(),
        forall|k: int| i <= k < j ==> !touches(#[trigger] plugs[k], c),
    ensures
        is_free(plugs.subrange(i, j), c),
{
    let part = plugs.subrange(i, j);
    assert forall|k: int| 0 <= k < part.len() implies !touches(#[trigger] part[k], c) by {
        assert(part[k] == plugs[i + k]);
    }
}

/// If one of two letters has a cable and the other is free, the new cable takes the
/// place of that one: it goes behind the others, which keep their order.
pub proof fn a_new_cable_replaces_one(plugs: Seq<(u8, u8)>, k: int, a: u8, b: u8)
    requires
        is_cabling(plugs),
        0 <= k < plugs.len(),
        plugs[k].0 == a || plugs[k].1 == a,
        is_free(plugs, b),
    ensures
        toggled(plugs, a, b) == (plugs.take(k) + plugs.skip(k + 1)).push(cable(a, b)),
        toggled(plugs, b, a) == (plugs.take(k) + plugs.skip(k + 1)).push(cable(a, b)),
        a < b ==> cable(a, b) == (a, b),
        b < a ==> cable(a, b) == (b, a),
{
    let n = plugs.len() as int;
    lemma_no_cable(plugs, b, a);
    assert forall|i: int| 0 <= i < n && i != k implies !touches(#[trigger] plugs[i], a) by {
        if i < k {
            assert(!touches(plugs[i], plugs[k].0) && !touches(plugs[i], plugs[k].1));
        } else {
            assert(!touches(plugs[k], plugs[i].0) && !touches(plugs[k], plugs[i].1));
        }
    }
    lemma_part_is_free(plugs, 0, k, a);
    lemma_part_is_free(plugs, 0, k, b);
    lemma_part_is_free(plugs, k + 1, n, a);
    lemma_part_is_free(plugs, k + 1, n, b);
    assert(plugs =~= plugs.take(k) + seq![plugs[k]] + plugs.skip(k + 1));
    lemma_clear_one(plugs.take(k), plugs[k], plugs.skip(k + 1), a, b);
    lemma_clear_one(plugs.take(k), plugs[k], plugs.skip(k + 1), b, a);
    lemma_nothing_to_clear(plugs.skip(k + 1), a, b);
    lemma_nothing_to_clear(plugs.skip(k + 1), b, a);
}

/// If both letters have a cable, but not with each other, the new cable takes the
/// place of the two.
pub proof fn a_new_cable_replaces_two(plugs: Seq<(u8, u8)>, j: int, k: int, a: u8, b: u8)
    requires
        is_cabling(plugs),
        0 <= j < k < plugs.len(),
        plugs[j].0 == a || plugs[j].1 == a,
        plugs[k].0 == b || plugs[k].1 == b,
    ensures
        toggled(plugs, a, b) == (plugs.take(j) + plugs.subrange(j + 1, k) + plugs.skip(
            k + 1,
        )).push(cable(a, b)),
        toggled(plugs, b, a) == toggled(plugs, a, b),
        a < b ==> cable(a, b) == (a, b),
        b < a ==> cable(a, b) == (b, a),
{
    let n = plugs.len() as int;
    let pair = cable(a, b);
    toggling_is_symmetric(plugs, a, b);
    assert forall|i: int| 0 <= i < n && i != j implies !touches(#[trigger] plugs[i], a) by {
        if i < j {
            assert(!touches(plugs[i], plugs[j].0) && !touches(plugs[i], plugs[j].1));
        } else {
            assert(!touches(plugs[j], plugs[i].0) && !touches(plugs[j], plugs[i].1));
        }
    }
    assert forall|i: int| 0 <= i < n && i != k implies !touches(#[trigger] plugs[i], b) by {
        if i < k {
            assert(!touches(plugs[i], plugs[k].0) && !touches(plugs[i], plugs[k].1));
        } else {
            assert(!touches(plugs[k], plugs[i].0) && !touches(plugs[k], plugs[i].1));
        }
    }
    assert(!plugs.contains(pair)) by {
        if plugs.contains(pair) {
            let i = choose|i: int| 0 <= i < n && plugs[i] == pair;
            assert(touches(plugs[i], a) && touches(plugs[i], b));
        }
    }
    let mid = plugs.subrange(j + 1, k);
    let end = plugs.skip(k + 1);
    lemma_part_is_free(plugs, 0, j, a);
    lemma_part_is_free(plugs, 0, j, b);
    lemma_part_is_free(plugs, j + 1, k, a);
    lemma_part_is_free(plugs, j + 1, k, b);
    lemma_part_is_free(plugs, k + 1, n, a);
    lemma_part_is_free(plugs, k + 1, n, b);
    assert(plugs =~= plugs.take(j) + seq![plugs[j]] + (mid + seq![plugs[k]] + end));
    lemma_clear_one(plugs.take(j), plugs[j], mid + seq![plugs[k]] + end, a, b);
    lemma_clear_one(mid, plugs[k], end, a, b);
    lemma_nothing_to_clear(end, a, b);
    assert(clear_of(plugs, a, b) =~= plugs.take(j) + mid + end);
}

} // verus!
