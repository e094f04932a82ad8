//! The standard wirings: every rotor is a permutation of the contacts, and every
//! reflector swaps them in pairs.

use vstd::prelude::*;
use vstd::string::*;
use vstd::utf8::*;

use crate::enigma::{contact_table, is_letters, standard_rotor, A, REFLECTORS};

verus! {

/// The 26 letters, each exactly once.
pub open spec fn is_permutation(letters: Seq<u8>) -> bool {
    &&& letters.len() == 26
    &&& is_letters(letters)
    &&& forall|i: int, j: int|
        0 <= i < j < 26 ==> #[trigger] letters[i] != #[trigger] letters[j]
}

/// The table leads contact `i` to a contact from which the other table leads back.
pub open spec fn leads_back(table: Seq<u8>, other: Seq<u8>, i: int) -> bool {
    table[i] < 26 && other[table[i] as int] == i
}

/// A table that swaps the contacts in pairs and leaves none where it is.
pub open spec fn is_pairing(table: Seq<u8>) -> bool {
    &&& table.len() == 26
    &&& forall|i: int| 0 <= i < 26 ==> #[trigger] leads_back(table, table, i) && table[i] != i
}

/// Upper-case letters, with `places` telling where each of them stands.
spec fn is_placed(text: Seq<char>, places: Seq<int>) -> bool {
    &&& text.len() == 26
    &&& forall|i: int|
        0 <= i < 26 ==> 'A' <= #[trigger] text[i] <= 'Z' && places[text[i] as int - A] == i
}

/// The bytes of a string of upper-case letters.
proof fn lemma_letter_bytes(text: &str)
    requires
        forall|i: int| 0 <= i < text@.len() ==> 'A' <= #[trigger] text@[i] <= 'Z',
    ensures
        text.spec_bytes() == Seq::new(text@.len(), |i: int| text@[i] as u8),
{
    assert(is_ascii_chars(text@));
    is_ascii_spec_bytes(text);
}

proof fn lemma_placed_is_permutation(text: &str, places: Seq<int>)
    requires
        is_placed(text@, places),
    ensures
        is_permutation(text.spec_bytes()),
{
    lemma_letter_bytes(text);
    let letters = text.spec_bytes();
    assert forall|i: int, j: int| 0 <= i < j < 26 implies #[trigger] letters[i] != #[trigger] letters[j] by {
        assert(places[text@[i] as int - A] == i);
        assert(places[text@[j] as int - A] == j);
    }
}

/// An index below 26 is one of 26 numbers.
proof fn lemma_index_cases(i: int)
    requires
        0 <= i < 26,
    ensures
        i == 0 || i == 1 || i == 2 || i == 3 || i == 4 || i == 5 || i == 6 || i == 7 || i == 8
        || i == 9 || i == 10 || i == 11 || i == 12 || i == 13 || i == 14 || i == 15 || i == 16 || i == 17
        || i == 18 || i == 19 || i == 20 || i == 21 || i == 22 || i == 23 || i == 24 || i == 25,
{
}

proof fn lemma_rotor_i()
    ensures
        is_permutation("EKMFLGDQVZNTOWYHXUSPAIBRCJ".spec_bytes()),
{
    reveal_strlit("EKMFLGDQVZNTOWYHXUSPAIBRCJ");
    let places: Seq<int> = seq![
        20, 22, 24, 6, 0, 3, 5, 15, 21, 25, 1, 4, 2,
        10, 12, 19, 7, 23, 18, 11, 17, 8, 13, 16, 14, 9,
    ];
    let text = "EKMFLGDQVZNTOWYHXUSPAIBRCJ"@;
    assert forall|i: int| 0 <= i < 26 implies 'A' <= #[trigger] text[i] <= 'Z'
        && places[text[i] as int - A] == i by {
        lemma_index_cases(i);
    }
    lemma_placed_is_permutation("EKMFLGDQVZNTOWYHXUSPAIBRCJ", places);
}

proof fn lemma_rotor_ii()
    ensures
        is_permutation("AJDKSIRUXBLHWTMCQGZNPYFVOE".spec_bytes()),
{
    reveal_strlit("AJDKSIRUXBLHWTMCQGZNPYFVOE");
    let places: Seq<int> = seq![
        0, 9, 15, 2, 25, 22, 17, 11, 5, 1, 3, 10, 14,
        19, 24, 20, 16, 6, 4, 13, 7, 23, 12, 8, 21, 18,
    ];
    let text = "AJDKSIRUXBLHWTMCQGZNPYFVOE"@;
    assert forall|i: int| 0 <= i < 26 implies 'A' <= #[trigger] text[i] <= 'Z'
        && places[text[i] as int - A] == i by {
        lemma_index_cases(i);
    }
    lemma_placed_is_permutation("AJDKSIRUXBLHWTMCQGZNPYFVOE", places);
}

proof fn lemma_rotor_iii()
    ensures
        is_permutation("BDFHJLCPRTXVZNYEIWGAKMUSQO".spec_bytes()),
{
    reveal_strlit("BDFHJLCPRTXVZNYEIWGAKMUSQO");
    let places: Seq<int> = seq![
        19, 0, 6, 1, 15, 2, 18, 3, 16, 4, 20, 5, 21,
        13, 25, 7, 24, 8, 23, 9, 22, 11, 17, 10, 14, 12,
    ];
    let text = "BDFHJLCPRTXVZNYEIWGAKMUSQO"@;
    assert forall|i: int| 0 <= i < 26 implies 'A' <= #[trigger] text[i] <= 'Z'
        && places[text[i] as int - A] == i by {
        lemma_index_cases(i);
    }
    lemma_placed_is_permutation("BDFHJLCPRTXVZNYEIWGAKMUSQO", places);
}

proof fn lemma_rotor_iv()
    ensures
        is_permutation("ESOVPZJAYQUIRHXLNFTGKDCMWB".spec_bytes()),
{
    reveal_strlit("ESOVPZJAYQUIRHXLNFTGKDCMWB");
    let places: Seq<int> = seq![
        7, 25, 22, 21, 0, 17, 19, 13, 11, 6, 20, 15, 23,
        16, 2, 4, 9, 12, 1, 18, 10, 3, 24, 14, 8, 5,
    ];
    let text = "ESOVPZJAYQUIRHXLNFTGKDCMWB"@;
    assert forall|i: int| 0 <= i < 26 implies 'A' <= #[trigger] text[i] <= 'Z'
        && places[text[i] as int - A] == i by {
        lemma_index_cases(i);
    }
    lemma_placed_is_permutation("ESOVPZJAYQUIRHXLNFTGKDCMWB", places);
}

proof fn lemma_rotor_v()
    ensures
        is_permutation("VZBRGITYUPSDNHLXAWMJQOFECK".spec_bytes()),
{
    reveal_strlit("VZBRGITYUPSDNHLXAWMJQOFECK");
    let places: Seq<int> = seq![
        16, 2, 24, 11, 23, 22, 4, 13, 5, 19, 25, 14, 18,
        12, 21, 9, 20, 3, 10, 6, 8, 0, 17, 15, 7, 1,
    ];
    let text = "VZBRGITYUPSDNHLXAWMJQOFECK"@;
    assert forall|i: int| 0 <= i < 26 implies 'A' <= #[trigger] text[i] <= 'Z'
        && places[text[i] as int - A] == i by {
        lemma_index_cases(i);
    }
    lemma_placed_is_permutation("VZBRGITYUPSDNHLXAWMJQOFECK", places);
}

proof fn lemma_reflector_b()
    ensures
        "YRUHQSLDPXNGOKMIEBFZCWVJAT".spec_bytes().len() == 26,
        is_letters("YRUHQSLDPXNGOKMIEBFZCWVJAT".spec_bytes()),
        is_pairing(contact_table("YRUHQSLDPXNGOKMIEBFZCWVJAT".spec_bytes())),
{
    reveal_strlit("YRUHQSLDPXNGOKMIEBFZCWVJAT");
    let text = "YRUHQSLDPXNGOKMIEBFZCWVJAT"@;
    assert forall|i: int| 0 <= i < 26 implies 'A' <= #[trigger] text[i] <= 'Z' && text[i] as int - A
        != i && text[text[i] as int - A] as int - A == i by {
        lemma_index_cases(i);
    }
    lemma_letter_bytes("YRUHQSLDPXNGOKMIEBFZCWVJAT");
    let table = contact_table("YRUHQSLDPXNGOKMIEBFZCWVJAT".spec_bytes());
    assert forall|i: int| 0 <= i < 26 implies #[trigger] leads_back(table, table, i) && table[i] != i by {
        assert(table[i] == text[i] as int - A);
    }
}

proof fn lemma_reflector_c()
    ensures
        "FVPJIAOYEDRZXWGCTKUQSBNMHL".spec_bytes().len() == 26,
        is_letters("FVPJIAOYEDRZXWGCTKUQSBNMHL".spec_bytes()),
        is_pairing(contact_table("FVPJIAOYEDRZXWGCTKUQSBNMHL".spec_bytes())),
{
    reveal_strlit("FVPJIAOYEDRZXWGCTKUQSBNMHL");
    let text = "FVPJIAOYEDRZXWGCTKUQSBNMHL"@;
    assert forall|i: int| 0 <= i < 26 implies 'A' <= #[trigger] text[i] <= 'Z' && text[i] as int - A
        != i && text[text[i] as int - A] as int - A == i by {
        lemma_index_cases(i);
    }
    lemma_letter_bytes("FVPJIAOYEDRZXWGCTKUQSBNMHL");
    let table = contact_table("FVPJIAOYEDRZXWGCTKUQSBNMHL".spec_bytes());
    assert forall|i: int| 0 <= i < 26 implies #[trigger] leads_back(table, table, i) && table[i] != i by {
        assert(table[i] == text[i] as int - A);
    }
}

/// Every standard rotor is wired as a permutation.
pub proof fn standard_rotors_are_permutations(index: int)
    requires
        0 <= index < 5,
    ensures
        is_permutation(standard_rotor(index).wiring.spec_bytes()),
        standard_rotor(index).notch < 26,
{
    lemma_rotor_i();
    lemma_rotor_ii();
    lemma_rotor_iii();
    lemma_rotor_iv();
    lemma_rotor_v();
    assert(index == 0 || index == 1 || index == 2 || index == 3 || index == 4);
}

/// Every standard reflector swaps the contacts in pairs, none with itself.
pub proof fn standard_reflectors_are_pairings(index: int)
    requires
        0 <= index < 2,
    ensures
        REFLECTORS[index].1.spec_bytes().len() == 26,
        is_letters(REFLECTORS[index].1.spec_bytes()),
        is_pairing(contact_table(REFLECTORS[index].1.spec_bytes())),
{
    lemma_reflector_b();
    lemma_reflector_c();
    assert(index == 0 || index == 1);
}

} // verus!
