//! What holds of the machine as a whole: encrypting and decrypting are the same
//! operation, no letter stands for itself, the rotors step as they should, and the
//! plugboard is what was plugged in last.

use vstd::prelude::*;
use vstd::string::*;

use crate::enigma::{
    are_contacts, contact_table, last_place, open_plugboard, plugged, return_table, MachineView,
    RotorSpec, RotorView, A,
};
use crate::wiring::{is_pairing, is_permutation, leads_back};

verus! {

impl RotorView {
    /// The two tables undo each other.
    pub open spec fn wired(self) -> bool {
        &&& self.forward.len() == 26
        &&& self.inverse.len() == 26
        &&& forall|i: int| 0 <= i < 26 ==> #[trigger] leads_back(self.forward, self.inverse, i)
        &&& forall|i: int| 0 <= i < 26 ==> #[trigger] leads_back(self.inverse, self.forward, i)
    }
}

/// A table that swaps contacts in pairs, or leaves them where they are.
pub open spec fn is_swapping(board: Seq<u8>) -> bool {
    &&& board.len() == 26
    &&& forall|i: int| 0 <= i < 26 ==> #[trigger] leads_back(board, board, i)
}

impl MachineView {
    /// Rotors that are permutations, a reflector and a plugboard that swap contacts
    /// or leave them where they are.
    pub open spec fn reversible(self) -> bool {
        &&& self.left.wired()
        &&& self.middle.wired()
        &&& self.right.wired()
        &&& is_swapping(self.reflector)
        &&& is_swapping(self.plugboard)
    }

    /// Rotors that are permutations, a reflector that pairs the contacts, and a
    /// plugboard that swaps them.
    pub open spec fn wired(self) -> bool {
        &&& self.left.wired()
        &&& self.middle.wired()
        &&& self.right.wired()
        &&& is_pairing(self.reflector)
        &&& is_swapping(self.plugboard)
    }

    /// The machine after `n` key presses; which keys were pressed does not matter.
    pub open spec fn run(self, n: nat) -> MachineView
        decreases n,
    {
        if n == 0 {
            self
        } else {
            self.run((n - 1) as nat).stepped()
        }
    }

    /// What the machine makes of a message typed from here on.
    pub open spec fn encipher(self, text: Seq<u8>) -> Seq<u8> {
        Seq::new(text.len(), |i: int| self.run((i + 1) as nat).lamp(text[i]))
    }
}

/// A message of contacts.
pub open spec fn is_message(text: Seq<u8>) -> bool {
    forall|i: int| 0 <= i < text.len() ==> #[trigger] text[i] < 26
}

/// Turning on and turning back by the same amount.
proof fn lemma_turns(c: int, off: int)
    requires
        0 <= c < 26,
        0 <= off < 26,
    ensures
        ((c + off) % 26 - off) % 26 == c,
        ((c - off) % 26 + off) % 26 == c,
{
}

/// What goes through a table and back through the other comes out where it went in.
proof fn lemma_through_and_back(rotor: RotorView, table: Seq<u8>, other: Seq<u8>, c: u8)
    requires
        forall|i: int| 0 <= i < 26 ==> #[trigger] leads_back(table, other, i),
        c < 26,
    ensures
        rotor.through(table, c) < 26,
        rotor.through(other, rotor.through(table, c)) == c,
{
    let off = rotor.offset();
    let e = (c + off) % 26;
    assert(leads_back(table, other, e));
    lemma_turns(c as int, off);
    lemma_turns(table[e] as int, off);
}

/// What goes through a rotor and back through it comes out where it went in, in
/// either direction, whatever its position and ring setting.
pub proof fn rotor_round_trip(rotor: RotorView, c: u8)
    requires
        rotor.wired(),
        c < 26,
    ensures
        rotor.fwd(c) < 26,
        rotor.bwd(c) < 26,
        rotor.bwd(rotor.fwd(c)) == c,
        rotor.fwd(rotor.bwd(c)) == c,
{
    lemma_through_and_back(rotor, rotor.forward, rotor.inverse, c);
    lemma_through_and_back(rotor, rotor.inverse, rotor.forward, c);
}

/// Position and ring setting matter only through their difference: turning both
/// by the same amount changes no signal.
pub proof fn ring_turns_with_position(rotor: RotorView, position: u8, ring: u8, c: u8)
    requires
        (position - ring) % 26 == (rotor.position - rotor.ring) % 26,
    ensures
        (RotorView { position, ring, ..rotor }).fwd(c) == rotor.fwd(c),
        (RotorView { position, ring, ..rotor }).bwd(c) == rotor.bwd(c),
{
}

/// The way in and the way out undo each other.
proof fn lemma_ways_undo(m: MachineView, c: u8)
    requires
        m.reversible(),
        c < 26,
    ensures
        m.inward(c) < 26,
        m.outward(c) < 26,
        m.outward(m.inward(c)) == c,
        m.inward(m.outward(c)) == c,
{
    let p = m.plugboard[c as int];
    assert(leads_back(m.plugboard, m.plugboard, c as int));
    rotor_round_trip(m.right, p);
    rotor_round_trip(m.middle, m.right.fwd(p));
    rotor_round_trip(m.left, m.middle.fwd(m.right.fwd(p)));
    rotor_round_trip(m.left, c);
    rotor_round_trip(m.middle, m.left.bwd(c));
    rotor_round_trip(m.right, m.middle.bwd(m.left.bwd(c)));
    let rb = m.right.bwd(m.middle.bwd(m.left.bwd(c)));
    assert(leads_back(m.plugboard, m.plugboard, rb as int));
}

/// If a key lights a lamp, then the lamp's key lights the key's lamp, the rotors
/// standing as they do. The reflector may leave contacts where they are.
pub proof fn lamp_is_reciprocal(m: MachineView, key: u8)
    requires
        m.reversible(),
        key < 26,
    ensures
        m.lamp(key) < 26,
        m.lamp(m.lamp(key)) == key,
{
    lemma_ways_undo(m, key);
    let u = m.reflector[m.inward(key) as int];
    assert(leads_back(m.reflector, m.reflector, m.inward(key) as int));
    lemma_ways_undo(m, u);
}

/// A reflector that pairs the contacts swaps them.
pub proof fn wired_machines_are_reversible(m: MachineView)
    requires
        m.wired(),
    ensures
        m.reversible(),
{
}

/// No letter ever stands for itself.
pub proof fn no_letter_lights_itself(m: MachineView, key: u8)
    requires
        m.wired(),
        key < 26,
    ensures
        m.lamp(key) != key,
{
    wired_machines_are_reversible(m);
    lemma_ways_undo(m, key);
    let u = m.reflector[m.inward(key) as int];
    assert(leads_back(m.reflector, m.reflector, m.inward(key) as int));
    lemma_ways_undo(m, u);
}

/// Key presses do not rewire the machine.
pub proof fn run_stays_wired(m: MachineView, n: nat)
    ensures
        m.run(n).reversible() == m.reversible(),
        m.run(n).wired() == m.wired(),
    decreases n,
{
    if n > 0 {
        run_stays_wired(m, (n - 1) as nat);
    }
}

/// Presses add up.
pub proof fn run_adds_up(m: MachineView, j: nat, k: nat)
    ensures
        m.run(j + k) == m.run(j).run(k),
    decreases k,
{
    if k > 0 {
        run_adds_up(m, j, (k - 1) as nat);
    }
}

/// Two machines set alike decode each other: to encipher a message twice from the
/// same start is to get it back.
pub proof fn encipher_is_its_own_inverse(m: MachineView, text: Seq<u8>)
    requires
        m.reversible(),
        is_message(text),
    ensures
        is_message(m.encipher(text)),
        m.encipher(m.encipher(text)) == text,
{
    let cipher = m.encipher(text);
    assert forall|i: int| 0 <= i < text.len() implies #[trigger] cipher[i] < 26 && m.run(
        (i + 1) as nat,
    ).lamp(cipher[i]) == text[i] by {
        run_stays_wired(m, (i + 1) as nat);
        lamp_is_reciprocal(m.run((i + 1) as nat), text[i]);
    }
    assert(m.encipher(cipher) =~= text);
}

/// Nowhere does an enciphered message agree with the message.
pub proof fn cipher_differs_everywhere(m: MachineView, text: Seq<u8>, i: int)
    requires
        m.wired(),
        is_message(text),
        0 <= i < text.len(),
    ensures
        m.encipher(text)[i] != text[i],
{
    run_stays_wired(m, (i + 1) as nat);
    no_letter_lights_itself(m.run((i + 1) as nat), text[i]);
}

/// One more key press adds one letter to what has been enciphered: the lamp of
/// the machine as the earlier presses left it.
pub proof fn encipher_grows_by_presses(m: MachineView, text: Seq<u8>, key: u8)
    ensures
        m.encipher(text.push(key)) == m.encipher(text).push(m.run(text.len()).trace(key).lamp),
        m.run(text.push(key).len()) == m.run(text.len()).stepped(),
{
    assert(m.encipher(text.push(key)) =~= m.encipher(text).push(
        m.run(text.len()).trace(key).lamp,
    ));
}

/// The current takes one unbroken path: each hop enters where the one before it
/// left, from the key that was pressed to the lamp that lights.
pub proof fn path_is_unbroken(m: MachineView, key: u8, i: int)
    requires
        0 < i < 10,
    ensures
        m.trace(key).hops.len() == 10,
        m.trace(key).hops[0].input == key,
        m.trace(key).hops[i].input == m.trace(key).hops[i - 1].output,
        m.trace(key).hops[9].output == m.trace(key).lamp,
{
}

/// The right rotor advances on every key press.
pub proof fn right_rotor_always_steps(m: MachineView)
    ensures
        m.step_flags()[2],
        m.stepped().right == m.right.stepped(),
{
}

/// After `n` key presses the right rotor stands `n` clicks on, counted round and
/// round.
pub proof fn right_rotor_counts_presses(m: MachineView, n: nat)
    requires
        m.right.position < 26,
    ensures
        m.run(n).right == (RotorView {
            position: ((m.right.position + n) % 26) as u8,
            ..m.right
        }),
    decreases n,
{
    if n > 0 {
        right_rotor_counts_presses(m, (n - 1) as nat);
    }
}

/// Every 26 key presses bring the right rotor back to where it was.
pub proof fn right_rotor_comes_round(m: MachineView, n: nat)
    requires
        m.right.position < 26,
    ensures
        m.run(n + 26).right == m.run(n).right,
{
    right_rotor_counts_presses(m, n);
    right_rotor_counts_presses(m, n + 26);
}

/// The double step: a press that brings the middle rotor to its notch is followed
/// by one that advances all three rotors, the middle one again.
pub proof fn double_step(m: MachineView)
    requires
        m.right.at_notch(),
        m.middle.stepped().at_notch(),
    ensures
        m.stepped().middle == m.middle.stepped(),
        m.stepped().step_flags() == seq![true, true, true],
        m.stepped().stepped().middle == m.middle.stepped().stepped(),
        m.stepped().stepped().left == m.stepped().left.stepped(),
{
}

/// The left rotor advances only together with the middle one.
pub proof fn left_steps_with_middle(m: MachineView)
    ensures
        m.step_flags()[0] ==> m.step_flags()[1],
{
}

/// In a string without repeats, a letter's last place is its only place.
proof fn lemma_last_place(letters: Seq<u8>, i: int)
    requires
        0 <= i < letters.len(),
        forall|j: int, k: int|
            0 <= j < k < letters.len() ==> #[trigger] letters[j] != #[trigger] letters[k],
    ensures
        last_place(letters, letters[i] - A) == i,
    decreases letters.len(),
{
    if i < letters.len() - 1 {
        lemma_last_place(letters.drop_last(), i);
    }
}

/// Every letter has a place in a permutation.
proof fn lemma_permutation_covers(letters: Seq<u8>, o: int) -> (i: int)
    requires
        is_permutation(letters),
        0 <= o < 26,
    ensures
        0 <= i < 26,
        letters[i] == A + o,
{
    let alphabet = vstd::set_lib::set_int_range(A as int, A + 26);
    let contacts: Seq<int> = letters.map_values(|b: u8| b as int);
    assert forall|j: int, k: int| 0 <= j < contacts.len() && 0 <= k < contacts.len() && j != k implies contacts[j]
        != contacts[k] by {
        if j < k {
            assert(letters[j] != letters[k]);
        } else {
            assert(letters[k] != letters[j]);
        }
    }
    assert(contacts.no_duplicates());
    contacts.unique_seq_to_set();
    vstd::set_lib::lemma_int_range(A as int, A + 26);
    assert forall|x: int| contacts.to_set().contains(x) implies alphabet.contains(x) by {
        let j = choose|j: int| 0 <= j < contacts.len() && contacts[j] == x;
        assert(A <= letters[j] < A + 26);
    }
    vstd::set_lib::lemma_subset_equality(contacts.to_set(), alphabet);
    assert(contacts.to_set().contains(A + o));
    let i = choose|j: int| 0 <= j < contacts.len() && contacts[j] == A + o;
    assert(letters[i] == contacts[i]);
    i
}

/// A rotor whose wiring is a permutation is wired to undo itself, however it is
/// mounted.
pub proof fn permutations_make_wired_rotors(spec: RotorSpec, position: u8, ring: u8)
    requires
        is_permutation(spec.wiring.spec_bytes()),
    ensures
        RotorView::mounted(spec, position, ring).wired(),
{
    let letters = spec.wiring.spec_bytes();
    let forward = contact_table(letters);
    let inverse = return_table(letters);
    assert forall|i: int| 0 <= i < 26 implies #[trigger] leads_back(forward, inverse, i) by {
        assert(A <= letters[i] < A + 26);
        lemma_last_place(letters, i);
    }
    assert forall|o: int| 0 <= o < 26 implies #[trigger] leads_back(inverse, forward, o) by {
        let i = lemma_permutation_covers(letters, o);
        lemma_last_place(letters, i);
    }
}

/// Pairs of different contacts, no contact in two of them.
pub open spec fn are_disjoint(pairs: Seq<(u8, u8)>) -> bool {
    &&& forall|i: int|
        0 <= i < pairs.len() ==> (#[trigger] pairs[i]).0 < 26 && pairs[i].1 < 26 && pairs[i].0
            != pairs[i].1
    &&& forall|i: int, j: int|
        0 <= i < j < pairs.len() ==> !touches(#[trigger] pairs[i], (#[trigger] pairs[j]).0)
            && !touches(pairs[i], pairs[j].1)
}

/// The contact is at one end of the pair.
pub open spec fn touches(pair: (u8, u8), c: u8) -> bool {
    pair.0 == c || pair.1 == c
}

/// No cable ends at the contact.
pub open spec fn is_free(pairs: Seq<(u8, u8)>, c: u8) -> bool {
    forall|i: int| 0 <= i < pairs.len() ==> !touches(#[trigger] pairs[i], c)
}

/// Without its last pair, disjoint pairs are disjoint, and the last pair is free of
/// them.
proof fn lemma_front(pairs: Seq<(u8, u8)>)
    requires
        are_disjoint(pairs),
        pairs.len() > 0,
    ensures
        are_disjoint(pairs.drop_last()),
        is_free(pairs.drop_last(), pairs.last().0),
        is_free(pairs.drop_last(), pairs.last().1),
        pairs.last().0 < 26,
        pairs.last().1 < 26,
{
    let front = pairs.drop_last();
    let n = front.len() as int;
    assert(forall|i: int| 0 <= i < front.len() ==> front[i] == pairs[i]);
    assert(pairs[n] == pairs.last());
    assert forall|i: int| 0 <= i < front.len() implies !touches(#[trigger] front[i], pairs[n].0)
        && !touches(front[i], pairs[n].1) by {
        assert(front[i] == pairs[i]);
    }
}

/// Without its last pair, pairs of contacts are pairs of contacts.
proof fn lemma_contacts_front(pairs: Seq<(u8, u8)>)
    requires
        are_contacts(pairs),
        pairs.len() > 0,
    ensures
        are_contacts(pairs.drop_last()),
        pairs.last().0 < 26,
        pairs.last().1 < 26,
{
    let front = pairs.drop_last();
    assert(pairs[pairs.len() - 1] == pairs.last());
    assert forall|i: int| 0 <= i < front.len() implies (#[trigger] front[i]).0 < 26 && front[i].1
        < 26 by {
        assert(front[i] == pairs[i]);
    }
}

/// The plugboard has a place for every contact.
proof fn lemma_board_len(board: Seq<u8>, pairs: Seq<(u8, u8)>)
    requires
        are_contacts(pairs),
        board.len() == 26,
    ensures
        plugged(board, pairs).len() == 26,
    decreases pairs.len(),
{
    if pairs.len() > 0 {
        lemma_contacts_front(pairs);
        lemma_board_len(board, pairs.drop_last());
    }
}

/// A contact at which no cable ends is free of all cables but the last.
proof fn lemma_free_front(pairs: Seq<(u8, u8)>, c: u8)
    requires
        pairs.len() > 0,
    ensures
        is_free(pairs, c) == (is_free(pairs.drop_last(), c) && !touches(pairs.last(), c)),
{
    let front = pairs.drop_last();
    assert(forall|i: int| 0 <= i < front.len() ==> front[i] == pairs[i]);
    assert(pairs[pairs.len() - 1] == pairs.last());
    if is_free(pairs, c) {
        assert forall|i: int| 0 <= i < front.len() implies !touches(#[trigger] front[i], c) by {
            assert(front[i] == pairs[i]);
        }
    }
    if is_free(front, c) && !touches(pairs.last(), c) {
        assert forall|i: int| 0 <= i < pairs.len() implies !touches(#[trigger] pairs[i], c) by {
            if i < front.len() {
                assert(front[i] == pairs[i]);
            }
        }
    }
}

/// Plugging in cables leaves every contact alone at which none of them ends.
pub proof fn free_contacts_stay(board: Seq<u8>, pairs: Seq<(u8, u8)>, c: u8)
    requires
        are_contacts(pairs),
        board.len() == 26,
        c < 26,
        is_free(pairs, c),
    ensures
        plugged(board, pairs)[c as int] == board[c as int],
    decreases pairs.len(),
{
    if pairs.len() > 0 {
        lemma_contacts_front(pairs);
        lemma_board_len(board, pairs.drop_last());
        lemma_free_front(pairs, c);
        free_contacts_stay(board, pairs.drop_last(), c);
    }
}

/// A contact at which one of the cables ends is led where the cables say, whatever
/// was plugged in before.
pub proof fn cables_override(board: Seq<u8>, other: Seq<u8>, pairs: Seq<(u8, u8)>, c: u8)
    requires
        are_contacts(pairs),
        board.len() == 26,
        other.len() == 26,
        c < 26,
        !is_free(pairs, c),
    ensures
        plugged(board, pairs)[c as int] == plugged(other, pairs)[c as int],
    decreases pairs.len(),
{
    let front = pairs.drop_last();
    lemma_contacts_front(pairs);
    lemma_free_front(pairs, c);
    lemma_board_len(board, front);
    lemma_board_len(other, front);
    if !touches(pairs.last(), c) {
        cables_override(board, other, front, c);
    }
}

/// Plugging in some cables and then some more is plugging them all in.
pub proof fn plugging_adds_up(board: Seq<u8>, first: Seq<(u8, u8)>, more: Seq<(u8, u8)>)
    ensures
        plugged(plugged(board, first), more) == plugged(board, first + more),
    decreases more.len(),
{
    if more.len() == 0 {
        assert(first + more =~= first);
    } else {
        plugging_adds_up(board, first, more.drop_last());
        assert((first + more).drop_last() =~= first + more.drop_last());
        assert((first + more).last() == more.last());
    }
}

/// Plugging in the same cables again changes nothing.
pub proof fn plugging_again_changes_nothing(board: Seq<u8>, pairs: Seq<(u8, u8)>)
    requires
        are_contacts(pairs),
        board.len() == 26,
    ensures
        plugged(plugged(board, pairs), pairs) == plugged(board, pairs),
{
    let once = plugged(board, pairs);
    let twice = plugged(once, pairs);
    lemma_board_len(board, pairs);
    lemma_board_len(once, pairs);
    assert forall|c: int| 0 <= c < 26 implies twice[c] == once[c] by {
        let contact = c as u8;
        if is_free(pairs, contact) {
            free_contacts_stay(once, pairs, contact);
        } else {
            cables_override(once, board, pairs, contact);
        }
    }
    assert(twice =~= once);
}

/// Disjoint cables swap the two contacts of each pair.
pub proof fn cables_swap_their_ends(pairs: Seq<(u8, u8)>, i: int)
    requires
        are_disjoint(pairs),
        0 <= i < pairs.len(),
    ensures
        plugged(open_plugboard(), pairs)[pairs[i].0 as int] == pairs[i].1,
        plugged(open_plugboard(), pairs)[pairs[i].1 as int] == pairs[i].0,
    decreases pairs.len(),
{
    let front = pairs.drop_last();
    lemma_front(pairs);
    lemma_board_len(open_plugboard(), front);
    if i < front.len() {
        cables_swap_their_ends(front, i);
        assert(front[i] == pairs[i]);
        assert(!touches(front[i], pairs.last().0));
        assert(!touches(front[i], pairs.last().1));
        assert(front[i].0 < 26 && front[i].1 < 26);
    }
}

/// Disjoint cables make a plugboard that undoes itself.
pub proof fn disjoint_cables_swap(pairs: Seq<(u8, u8)>)
    requires
        are_disjoint(pairs),
    ensures
        is_swapping(plugged(open_plugboard(), pairs)),
{
    lemma_board_len(open_plugboard(), pairs);
    let board = plugged(open_plugboard(), pairs);
    assert forall|c: int| 0 <= c < 26 implies #[trigger] leads_back(board, board, c) by {
        let contact = c as u8;
        if is_free(pairs, contact) {
            free_contacts_stay(open_plugboard(), pairs, contact);
        } else {
            let i = choose|i: int| 0 <= i < pairs.len() && touches(#[trigger] pairs[i], contact);
            cables_swap_their_ends(pairs, i);
        }
    }
}

} // verus!
