//! The machine as its parts show it: how it is wired, how the rotors move, and which
//! way the current takes, told by positions, rings, notches and contacts.

use vstd::arithmetic::div_mod::lemma_mod_multiples_vanish;
use vstd::prelude::*;
use vstd::string::*;

use crate::enigma::{
    are_contacts, contact_table, is_letters, last_place, open_plugboard, plugged, standard_rotor, MachineView,
    RotorSpec, RotorView, Stage, REFLECTORS, ROTORS,
};

verus! {

/// The wiring of a rotor is read off its letters: contact `i` leads to the contact
/// of letter `i`, and contacts past the last letter lead to contact 0.
pub proof fn letters_wire_a_rotor(spec: RotorSpec, position: u8, ring: u8, i: int)
    requires
        is_letters(spec.wiring.spec_bytes()),
        0 <= i < 26,
    ensures
        RotorView::mounted(spec, position, ring).forward.len() == 26,
        i < spec.wiring.spec_bytes().len() ==> RotorView::mounted(
            spec,
            position,
            ring,
        ).forward[i] + 65 == spec.wiring.spec_bytes()[i],
        i >= spec.wiring.spec_bytes().len() ==> RotorView::mounted(
            spec,
            position,
            ring,
        ).forward[i] == 0,
{
}

/// A table of contacts is read off bytes in the same way, whatever letters they are.
pub proof fn bytes_make_a_table(bytes: Seq<u8>, i: int)
    requires
        0 <= i < 26,
        forall|k: int| 0 <= k < bytes.len() ==> #[trigger] bytes[k] >= 65,
    ensures
        contact_table(bytes).len() == 26,
        i < bytes.len() ==> contact_table(bytes)[i] + 65 == bytes[i],
        i >= bytes.len() ==> contact_table(bytes)[i] == 0,
{
}

/// Where a letter is found last.
proof fn lemma_found_last(letters: Seq<u8>, o: int)
    requires
        0 <= o < 26,
    ensures
        letters.len() > 0 ==> 0 <= last_place(letters, o) < letters.len(),
        letters.len() == 0 ==> last_place(letters, o) == 0,
        forall|k: int|
            0 <= k < letters.len() && #[trigger] letters[k] == 65 + o ==> letters[last_place(
                letters,
                o,
            )] == 65 + o && k <= last_place(letters, o),
        (forall|k: int| 0 <= k < letters.len() ==> #[trigger] letters[k] != 65 + o)
            ==> last_place(letters, o) == 0,
    decreases letters.len(),
{
    if letters.len() > 0 {
        let front = letters.drop_last();
        lemma_found_last(front, o);
        assert(forall|k: int| 0 <= k < front.len() ==> front[k] == letters[k]);
        if letters.last() != 65 + o {
            assert forall|k: int|
                0 <= k < letters.len() && #[trigger] letters[k] == 65 + o implies letters[last_place(
                letters,
                o,
            )] == 65 + o && k <= last_place(letters, o) by {
                assert(front[k] == 65 + o);
            }
        }
    }
}

/// The way back through a rotor leads each contact to the last place of its letter,
/// and to contact 0 where the letter does not occur.
pub proof fn the_way_back_leads_to_the_letter(
    spec: RotorSpec,
    position: u8,
    ring: u8,
    o: int,
    k: int,
)
    requires
        is_letters(spec.wiring.spec_bytes()),
        0 <= o < 26,
    ensures
        RotorView::mounted(spec, position, ring).inverse.len() == 26,
        0 <= k < spec.wiring.spec_bytes().len() && spec.wiring.spec_bytes()[k] == 65 + o ==> {
            let back = RotorView::mounted(spec, position, ring).inverse[o] as int;
            k <= back < spec.wiring.spec_bytes().len() && spec.wiring.spec_bytes()[back] == 65 + o
        },
        (forall|j: int|
            0 <= j < spec.wiring.spec_bytes().len() ==> #[trigger] spec.wiring.spec_bytes()[j]
                != 65 + o) ==> RotorView::mounted(spec, position, ring).inverse[o] == 0,
{
    lemma_found_last(spec.wiring.spec_bytes(), o);
}

/// A rotor is mounted with the letter, the ring setting and the make that were asked
/// for.
pub proof fn a_rotor_is_mounted_as_asked(spec: RotorSpec, position: u8, ring: u8)
    ensures
        RotorView::mounted(spec, position, ring).spec == spec,
        RotorView::mounted(spec, position, ring).position == position,
        RotorView::mounted(spec, position, ring).ring == ring,
{
}

/// A rotor turned against its ring turns its wiring along: a signal meets the wiring
/// as many contacts on as the position is ahead of the ring setting, and leaves it
/// as many contacts back. So it is for both ways through.
pub proof fn a_signal_turns_with_the_wiring(r: RotorView, c: u8)
    ensures
        r.fwd(c) < 26,
        (r.fwd(c) + r.position - r.ring) % 26 == r.forward[(c + r.position - r.ring) % 26] % 26,
        r.bwd(c) < 26,
        (r.bwd(c) + r.position - r.ring) % 26 == r.inverse[(c + r.position - r.ring) % 26] % 26,
{
    let turn = r.position - r.ring;
    lemma_turned(c as int, turn);
    lemma_turned(r.forward[(c + turn) % 26] as int, turn);
    lemma_turned(r.inverse[(c + turn) % 26] as int, turn);
}

/// The turn of the wiring is the position less the ring setting, counted round and
/// round; a rotor is at its notch when the letter of the notch is in its window.
pub proof fn turn_and_notch(r: RotorView)
    requires
        r.position < 26,
        r.ring < 26,
    ensures
        r.position >= r.ring ==> r.offset() == r.position - r.ring,
        r.position < r.ring ==> r.offset() == r.position - r.ring + 26,
        r.at_notch() <==> r.position == r.spec.notch,
{
}

/// Turning round and round: whole turns do not count.
proof fn lemma_turned(x: int, turn: int)
    ensures
        (x + turn % 26) % 26 == (x + turn) % 26,
        ((x - turn % 26) % 26 + turn) % 26 == x % 26,
{
    let off = turn % 26;
    let q = turn / 26;
    let k = (x - off) / 26;
    assert(turn == 26 * q + off);
    assert(x - off == 26 * k + (x - off) % 26);
    assert(x + turn == 26 * q + (x + off));
    lemma_mod_multiples_vanish(q, x + off, 26);
    assert((x - off) % 26 + turn == 26 * (q - k) + x);
    lemma_mod_multiples_vanish(q - k, x, 26);
}

/// A click shows the next letter in the window, `A` after `Z`, and changes nothing
/// else of the rotor.
pub proof fn a_click_shows_the_next_letter(r: RotorView)
    requires
        r.position < 26,
    ensures
        r.position < 25 ==> r.stepped().position == r.position + 1,
        r.position == 25 ==> r.stepped().position == 0,
        r.stepped().spec == r.spec,
        r.stepped().forward == r.forward,
        r.stepped().inverse == r.inverse,
        r.stepped().ring == r.ring,
{
}

/// On a key press the right rotor always moves on by one letter. The middle rotor
/// does if and only if the letter in the window of the right rotor, or in its own, is
/// that of the notch; the left rotor if and only if the middle one stands at its
/// notch. All notches are read before anything moves, and the record of the press
/// tells which rotors moved.
pub proof fn notches_move_the_rotors(m: MachineView)
    ensures
        ({
            let right_notch = m.right.position == m.right.spec.notch;
            let middle_notch = m.middle.position == m.middle.spec.notch;
            let next = m.stepped();
            &&& next.right.position == (m.right.position + 1) % 26
            &&& next.middle.position == if right_notch || middle_notch {
                (m.middle.position + 1) % 26
            } else {
                m.middle.position as int
            }
            &&& next.left.position == if middle_notch {
                (m.left.position + 1) % 26
            } else {
                m.left.position as int
            }
            &&& m.step_flags().len() == 3
            &&& m.step_flags()[0] == middle_notch
            &&& m.step_flags()[1] == (right_notch || middle_notch)
            &&& m.step_flags()[2]
        }),
{
}

/// A key press moves rotors and does nothing else to the machine.
pub proof fn a_press_moves_only_the_rotors(m: MachineView)
    ensures
        m.stepped().left == (RotorView { position: m.stepped().left.position, ..m.left }),
        m.stepped().middle == (RotorView { position: m.stepped().middle.position, ..m.middle }),
        m.stepped().right == (RotorView { position: m.stepped().right.position, ..m.right }),
        m.stepped().reflector == m.reflector,
        m.stepped().plugboard == m.plugboard,
{
}

/// What moves is decided by the middle and the right rotor alone: neither the left
/// rotor, nor wirings, rings, reflector and plugboard have a say.
pub proof fn the_left_rotor_has_no_say(m: MachineView, other: MachineView)
    requires
        m.middle.position == other.middle.position,
        m.middle.spec.notch == other.middle.spec.notch,
        m.right.position == other.right.position,
        m.right.spec.notch == other.right.spec.notch,
    ensures
        m.step_flags() == other.step_flags(),
{
}

/// The record of a press: the key, the rotors that moved, and ten hops, from the
/// plugboard through the rotors right to left, the reflector, the rotors left to
/// right and the plugboard to the lamp. Every hop is what its part makes of the
/// signal, the rotors standing where the press has moved them.
pub proof fn the_current_passes_part_by_part(m: MachineView, key: u8)
    ensures
        ({
            let t = m.trace(key);
            let n = m.stepped();
            let h = t.hops;
            &&& t.key == key
            &&& t.stepped == m.step_flags()
            &&& h.len() == 10
            &&& h[0].stage == Stage::PlugIn && h[0].input == key
            &&& h[0].output == n.plugboard[key as int]
            &&& h[1].stage == Stage::Rotor(2) && h[1].output == n.right.fwd(h[0].output)
            &&& h[2].stage == Stage::Rotor(1) && h[2].output == n.middle.fwd(h[1].output)
            &&& h[3].stage == Stage::Rotor(0) && h[3].output == n.left.fwd(h[2].output)
            &&& h[4].stage == Stage::Reflector && h[4].output == n.reflector[h[3].output as int]
            &&& h[5].stage == Stage::RotorBack(0) && h[5].output == n.left.bwd(h[4].output)
            &&& h[6].stage == Stage::RotorBack(1) && h[6].output == n.middle.bwd(h[5].output)
            &&& h[7].stage == Stage::RotorBack(2) && h[7].output == n.right.bwd(h[6].output)
            &&& h[8].stage == Stage::PlugOut && h[8].output == n.plugboard[h[7].output as int]
            &&& h[9].stage == Stage::Lamp && h[9].output == h[8].output
            &&& t.lamp == h[9].output
        }),
{
}

/// A message is enciphered letter by letter, each by the machine that the presses
/// before it have left.
pub proof fn letters_are_enciphered_one_by_one(m: MachineView, text: Seq<u8>, i: int)
    requires
        0 <= i < text.len(),
    ensures
        m.encipher(text).len() == text.len(),
        m.encipher(text)[i] == m.run(i as nat).trace(text[i]).lamp,
        m.run(0) == m,
        m.run((i + 1) as nat) == m.run(i as nat).stepped(),
{
}

/// A plugboard without cables leaves every letter as it is.
pub proof fn an_open_plugboard_swaps_nothing(c: u8)
    requires
        c < 26,
    ensures
        open_plugboard().len() == 26,
        open_plugboard()[c as int] == c,
        plugged(open_plugboard(), Seq::empty()) == open_plugboard(),
{
}

/// One more cable leads each of its two letters to the other and leaves the rest of
/// the board as it was.
pub proof fn one_more_cable(board: Seq<u8>, pairs: Seq<(u8, u8)>, a: u8, b: u8, c: u8)
    requires
        board.len() == 26,
        are_contacts(pairs),
        a < 26,
        b < 26,
        c < 26,
    ensures
        plugged(board, pairs.push((a, b)))[b as int] == a,
        plugged(board, pairs.push((a, b)))[a as int] == b,
        c != a && c != b ==> plugged(board, pairs.push((a, b)))[c as int] == plugged(
            board,
            pairs,
        )[c as int],
        plugged(board, pairs.push((a, b))).len() == 26,
{
    lemma_board_keeps_its_size(board, pairs);
    assert(pairs.push((a, b)).drop_last() =~= pairs);
    assert(pairs.push((a, b)).last() == (a, b));
}

proof fn lemma_board_keeps_its_size(board: Seq<u8>, pairs: Seq<(u8, u8)>)
    requires
        board.len() == 26,
        are_contacts(pairs),
    ensures
        plugged(board, pairs).len() == 26,
    decreases pairs.len(),
{
    if pairs.len() > 0 {
        let front = pairs.drop_last();
        assert(forall|i: int| 0 <= i < front.len() ==> front[i] == pairs[i]);
        lemma_board_keeps_its_size(board, front);
        assert(pairs[pairs.len() - 1] == pairs.last());
    }
}

/// The makes of rotor: which letter each of them wires a contact to, and the letter
/// at which it lets the next rotor step (Q, E, V, J and Z).
pub proof fn the_standard_rotors()
    ensures
        ROTORS[0].0@ == "I"@ && ROTORS[0].1@ == "EKMFLGDQVZNTOWYHXUSPAIBRCJ"@,
        ROTORS[1].0@ == "II"@ && ROTORS[1].1@ == "AJDKSIRUXBLHWTMCQGZNPYFVOE"@,
        ROTORS[2].0@ == "III"@ && ROTORS[2].1@ == "BDFHJLCPRTXVZNYEIWGAKMUSQO"@,
        ROTORS[3].0@ == "IV"@ && ROTORS[3].1@ == "ESOVPZJAYQUIRHXLNFTGKDCMWB"@,
        ROTORS[4].0@ == "V"@ && ROTORS[4].1@ == "VZBRGITYUPSDNHLXAWMJQOFECK"@,
        'A' as int + ROTORS[0].2 == 'Q' as int,
        'A' as int + ROTORS[1].2 == 'E' as int,
        'A' as int + ROTORS[2].2 == 'V' as int,
        'A' as int + ROTORS[3].2 == 'J' as int,
        'A' as int + ROTORS[4].2 == 'Z' as int,
{
}

/// A standard rotor has the name, the wiring and the notch of its make.
pub proof fn a_standard_rotor_is_of_its_make(i: int)
    ensures
        standard_rotor(i).name == ROTORS[i].0,
        standard_rotor(i).wiring == ROTORS[i].1,
        standard_rotor(i).notch == ROTORS[i].2,
{
}

/// The reflectors: B and C, and the letter that each of them swaps a letter for.
pub proof fn the_standard_reflectors()
    ensures
        REFLECTORS[0].0@ == "B"@ && REFLECTORS[0].1@ == "YRUHQSLDPXNGOKMIEBFZCWVJAT"@,
        REFLECTORS[1].0@ == "C"@ && REFLECTORS[1].1@ == "FVPJIAOYEDRZXWGCTKUQSBNMHL"@,
{
}

} // verus!
