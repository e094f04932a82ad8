//! Pieces of text: letters, decimal numbers, padding, groups of five.

use vstd::prelude::*;
use vstd::string::*;

use crate::enigma::A;

verus! {

/// `String::push` of the standard library: appends the character, and nothing else.
pub assume_specification[ String::push ](s: &mut String, c: char)
    ensures
        final(s)@ == old(s)@.push(c),
;

/// The letter of contact `v`.
pub open spec fn letter_of(v: u8) -> char {
    (A + v) as char
}

/// The letter of contact `v` (0 to 25).
pub fn letter(v: u8) -> (c: char)
    requires
        v <= 190,
    ensures
        c == letter_of(v),
{
    (A + v) as char
}

/// Appends the letter of contact `v` (0 to 25).
pub fn push_letter(s: &mut String, v: u8)
    requires
        v <= 190,
    ensures
        final(s)@ == old(s)@ + seq![letter_of(v)],
{
    s.push(letter(v));
    proof {
        assert(s@ =~= old(s)@ + seq![letter_of(v)]);
    }
}

/// The contact of a letter of either case; other characters have none.
pub open spec fn contact_of(c: char) -> Option<u8> {
    if 'A' <= c <= 'Z' {
        Some((c as int - 'A' as int) as u8)
    } else if 'a' <= c <= 'z' {
        Some((c as int - 'a' as int) as u8)
    } else {
        None
    }
}

/// The contact of a letter of either case.
pub fn contact(c: char) -> (v: Option<u8>)
    ensures
        v == contact_of(c),
        v matches Some(n) ==> n < 26,
{
    if 'A' <= c && c <= 'Z' {
        Some(c as u8 - 'A' as u8)
    } else if 'a' <= c && c <= 'z' {
        Some(c as u8 - 'a' as u8)
    } else {
        None
    }
}

/// Only the letters `A` to `Z`.
pub open spec fn is_upper(text: Seq<char>) -> bool {
    forall|i: int| 0 <= i < text.len() ==> 'A' <= #[trigger] text[i] <= 'Z'
}

pub open spec fn digit_of(n: int) -> char {
    ('0' as int + n) as char
}

/// A number in decimal, without leading zeros.
pub open spec fn decimal(n: nat) -> Seq<char>
    decreases n,
{
    if n < 10 {
        seq![digit_of(n as int)]
    } else {
        decimal(n / 10).push(digit_of((n % 10) as int))
    }
}

/// Appends a number in decimal.
pub fn push_decimal(s: &mut String, n: u64)
    ensures
        final(s)@ == old(s)@ + decimal(n as nat),
    decreases n,
{
    if n >= 10 {
        push_decimal(s, n / 10);
    }
    s.push(('0' as u8 + (n % 10) as u8) as char);
    proof {
        assert(s@ =~= old(s)@ + decimal(n as nat));
    }
}

/// The character `c`, `n` times.
pub open spec fn repeated(c: char, n: nat) -> Seq<char> {
    Seq::new(n, |i: int| c)
}

/// Appends a character `n` times.
pub fn push_repeated(s: &mut String, c: char, n: usize)
    ensures
        final(s)@ == old(s)@ + repeated(c, n as nat),
{
    let mut i: usize = 0;
    proof {
        assert(s@ =~= old(s)@ + repeated(c, 0));
    }
    while i < n
        invariant
            i <= n,
            s@ == old(s)@ + repeated(c, i as nat),
        decreases n - i,
    {
        s.push(c);
        i += 1;
        proof {
            assert(s@ =~= old(s)@ + repeated(c, i as nat));
        }
    }
}

/// What is missing from `len` to `width`.
pub open spec fn missing(width: nat, len: nat) -> nat {
    if len < width {
        (width - len) as nat
    } else {
        0
    }
}

/// A number in decimal, filled up with leading zeros to `width` characters; a
/// minus sign counts as one of them.
pub open spec fn zero_padded(n: int, width: nat) -> Seq<char> {
    if n >= 0 {
        repeated('0', missing(width, decimal(n as nat).len())) + decimal(n as nat)
    } else {
        seq!['-'] + repeated('0', missing(width, (decimal((-n) as nat).len() + 1) as nat))
            + decimal((-n) as nat)
    }
}

/// How many digits a number has in decimal.
fn decimal_len(n: u64) -> (len: usize)
    ensures
        len == decimal(n as nat).len(),
        1 <= len <= 20,
{
    let mut len: usize = 1;
    let mut rest: u64 = n;
    proof {
        lemma_decimal_len(n);
    }
    while rest >= 10
        invariant
            1 <= len,
            decimal(n as nat).len() <= 20,
            decimal(n as nat).len() == decimal(rest as nat).len() + len - 1,
        decreases rest,
    {
        rest = rest / 10;
        len += 1;
    }
    len
}

spec fn power_of_ten(k: nat) -> nat
    decreases k,
{
    if k == 0 {
        1
    } else {
        10 * power_of_ten((k - 1) as nat)
    }
}

proof fn lemma_short_decimal(n: nat, k: nat)
    requires
        n < power_of_ten(k),
        k > 0,
    ensures
        1 <= decimal(n).len() <= k,
    decreases k,
{
    if n >= 10 {
        assert(power_of_ten(0) == 1);
        lemma_short_decimal(n / 10, (k - 1) as nat);
    }
}

proof fn lemma_decimal_len(n: u64)
    ensures
        1 <= decimal(n as nat).len() <= 20,
{
    reveal_with_fuel(power_of_ten, 21);
    lemma_short_decimal(n as nat, 20);
}

/// Appends a number in decimal, filled up with leading zeros to `width` characters.
pub fn push_zero_padded(s: &mut String, n: i64, width: usize)
    ensures
        final(s)@ == old(s)@ + zero_padded(n as int, width as nat),
{
    let mut len: usize = 0;
    let magnitude: u64 = if n >= 0 {
        n as u64
    } else {
        s.push('-');
        len = 1;
        (-(n + 1)) as u64 + 1
    };
    len = len + decimal_len(magnitude);
    if len < width {
        push_repeated(s, '0', width - len);
    } else {
        proof {
            assert(s@ =~= s@ + repeated('0', 0));
        }
    }
    push_decimal(s, magnitude);
    proof {
        assert(s@ =~= old(s)@ + zero_padded(n as int, width as nat));
    }
}

/// The text in groups of five, a space between them.
pub open spec fn grouped(text: Seq<char>) -> Seq<char> {
    if text.len() == 0 {
        text
    } else {
        Seq::new(
            (text.len() + (text.len() - 1) / 5) as nat,
            |k: int|
                if k % 6 == 5 {
                    ' '
                } else {
                    text[k - k / 6]
                },
        )
    }
}

/// The text in groups of five, a space between them.
pub fn group(text: &str) -> (out: String)
    requires
        is_ascii(text),
    ensures
        out@ == grouped(text@),
{
    let bytes = text.as_bytes();
    let mut out: String = String::new();
    let mut i: usize = 0;
    proof {
        assert(out@ =~= grouped(text@.take(0)));
    }
    while i < bytes.len()
        invariant
            bytes@ == Seq::new(text@.len(), |k: int| text@[k] as u8),
            is_ascii(text),
            i <= bytes.len(),
            out@ == grouped(text@.take(i as int)),
        decreases bytes.len() - i,
    {
        if i > 0 && i % 5 == 0 {
            out.push(' ');
        }
        out.push(bytes[i] as char);
        proof {
            assert(bytes@[i as int] as char == text@[i as int]);
            assert(out@ =~= grouped(text@.take(i + 1)));
        }
        i += 1;
    }
    proof {
        assert(text@.take(i as int) =~= text@);
    }
    out
}

/// Grouping only inserts spaces: without every sixth character the text is back.
pub proof fn grouping_keeps_the_text(text: Seq<char>, i: int)
    requires
        0 <= i < text.len(),
    ensures
        i + i / 5 < grouped(text).len(),
        grouped(text)[i + i / 5] == text[i],
{
    let k = i + i / 5;
    assert(k / 6 == i / 5);
    assert(k % 6 != 5);
}

/// The text filled up with spaces on the right.
pub open spec fn left_aligned(text: Seq<char>, width: nat) -> Seq<char> {
    text + repeated(' ', missing(width, text.len()))
}

/// Appends a text filled up with spaces on the right.
pub fn push_left_aligned(s: &mut String, text: &str, width: usize)
    ensures
        final(s)@ == old(s)@ + left_aligned(text@, width as nat),
{
    let len: usize = text.unicode_len();
    s.append(text);
    push_repeated(s, ' ', width.saturating_sub(len));
    proof {
        assert(s@ =~= old(s)@ + left_aligned(text@, width as nat));
    }
}

/// The text between spaces, the odd one on the right.
pub open spec fn centred(text: Seq<char>, width: nat) -> Seq<char> {
    let fill = missing(width, text.len());
    repeated(' ', fill / 2) + text + repeated(' ', (fill - fill / 2) as nat)
}

/// Appends a text between spaces, the odd one on the right.
pub fn push_centred(s: &mut String, text: &str, width: usize)
    ensures
        final(s)@ == old(s)@ + centred(text@, width as nat),
{
    let fill: usize = width.saturating_sub(text.unicode_len());
    push_repeated(s, ' ', fill / 2);
    s.append(text);
    push_repeated(s, ' ', fill - fill / 2);
    proof {
        assert(s@ =~= old(s)@ + centred(text@, width as nat));
    }
}

/// The letters of the contacts 0 to 25 are `A` to `Z` in order. A letter of either
/// case has its place in the alphabet as its contact, and nothing else has one.
pub proof fn letters_stand_for_their_places(v: u8, c: char)
    requires
        v < 26,
    ensures
        letter_of(v) as int == 'A' as int + v,
        contact_of(letter_of(v)) == Some(v),
        contact_of(('a' as int + v) as char) == Some(v),
        contact_of(c) is Some <==> 'A' <= c <= 'Z' || 'a' <= c <= 'z',
        contact_of(c) == Some(v) <==> c as int == 'A' as int + v || c as int == 'a' as int + v,
{
}

/// The number that digits stand for, read from left to right.
pub open spec fn read_digits(text: Seq<char>) -> int
    decreases text.len(),
{
    if text.len() == 0 {
        0
    } else {
        10 * read_digits(text.drop_last()) + (text.last() as int - '0' as int)
    }
}

/// Only digits.
pub open spec fn are_digits(text: Seq<char>) -> bool {
    forall|i: int| 0 <= i < text.len() ==> '0' <= #[trigger] text[i] <= '9'
}

/// A number in decimal reads back as the number, and has no leading zero but for
/// zero itself.
pub proof fn decimals_read_back(n: nat)
    ensures
        are_digits(decimal(n)),
        read_digits(decimal(n)) == n,
        decimal(n).len() >= 1,
        n > 0 ==> decimal(n)[0] != '0',
        n < 10 ==> decimal(n).len() == 1,
    decreases n,
{
    if n < 10 {
        assert(decimal(n).drop_last() =~= Seq::empty());
        assert(read_digits(Seq::empty()) == 0);
    } else {
        decimals_read_back(n / 10);
        assert(decimal(n).drop_last() =~= decimal(n / 10));
        assert(decimal(n).last() == digit_of((n % 10) as int));
    }
}

/// Leading zeros do not count.
proof fn lemma_leading_zeros(zeros: nat, digits: Seq<char>)
    requires
        are_digits(digits),
    ensures
        are_digits(repeated('0', zeros) + digits),
        read_digits(repeated('0', zeros) + digits) == read_digits(digits),
    decreases zeros + digits.len(),
{
    let text = repeated('0', zeros) + digits;
    if digits.len() > 0 {
        lemma_leading_zeros(zeros, digits.drop_last());
        assert(text.drop_last() =~= repeated('0', zeros) + digits.drop_last());
        assert(text.last() == digits.last());
    } else if zeros > 0 {
        let fewer = (zeros - 1) as nat;
        lemma_leading_zeros(fewer, digits);
        assert(text.drop_last() =~= repeated('0', fewer) + digits);
        assert(text.last() == '0');
    } else {
        assert(text =~= digits);
    }
}

/// A number filled up with zeros still reads as the number; it takes the width asked
/// for, or as much as its digits need.
pub proof fn padded_numbers_read_back(n: nat, width: nat)
    ensures
        are_digits(zero_padded(n as int, width)),
        read_digits(zero_padded(n as int, width)) == n,
        zero_padded(n as int, width).len() == if decimal(n).len() < width {
            width
        } else {
            decimal(n).len()
        },
{
    decimals_read_back(n);
    lemma_leading_zeros(missing(width, decimal(n).len()), decimal(n));
}

/// A number below zero has a minus sign, and reads as the number behind it; the sign
/// counts as one of the characters asked for.
pub proof fn negative_numbers_have_a_sign(n: nat, width: nat)
    requires
        n > 0,
    ensures
        ({
            let text = zero_padded(-n, width);
            &&& text[0] == '-'
            &&& are_digits(text.skip(1))
            &&& read_digits(text.skip(1)) == n
            &&& text.len() == if decimal(n).len() + 1 < width {
                width
            } else {
                decimal(n).len() + 1
            }
        }),
{
    decimals_read_back(n);
    let zeros = missing(width, (decimal(n).len() + 1) as nat);
    lemma_leading_zeros(zeros, decimal(n));
    assert(zero_padded(-n, width).skip(1) =~= repeated('0', zeros) + decimal(n));
}

/// Every sixth character of a grouped text is a space, none of the others comes from
/// anywhere but the text, and there is no space at the end.
pub proof fn groups_have_five_letters(text: Seq<char>, k: int)
    requires
        0 <= k < grouped(text).len(),
    ensures
        k % 6 == 5 ==> grouped(text)[k] == ' ',
        k % 6 != 5 ==> 0 <= k - k / 6 < text.len() && grouped(text)[k] == text[k - k / 6],
        (grouped(text).len() - 1) % 6 != 5,
        grouped(text).len() == text.len() + (text.len() - 1) / 5,
{
    let n = text.len() as int;
    let len = n + (n - 1) / 5;
    assert(k - k / 6 < n);
}

/// A text filled up on the right begins with the text, goes on with spaces, and is as
/// wide as asked for, or as the text.
pub proof fn a_left_aligned_text_comes_first(text: Seq<char>, width: nat, i: int)
    ensures
        left_aligned(text, width).take(text.len() as int) == text,
        text.len() <= i < left_aligned(text, width).len() ==> left_aligned(text, width)[i] == ' ',
        left_aligned(text, width).len() == if text.len() < width {
            width
        } else {
            text.len()
        },
{
    assert(left_aligned(text, width).take(text.len() as int) =~= text);
}

/// A centred text stands between spaces, as many before it as behind it or one fewer.
pub proof fn a_centred_text_stands_in_the_middle(text: Seq<char>, width: nat, i: int)
    ensures
        ({
            let out = centred(text, width);
            let room = out.len() - text.len();
            &&& out.len() == if text.len() < width {
                width
            } else {
                text.len()
            }
            &&& out.subrange(room / 2, room / 2 + text.len()) == text
            &&& 0 <= i < room / 2 ==> out[i] == ' '
            &&& room / 2 + text.len() <= i < out.len() ==> out[i] == ' '
        }),
{
    let out = centred(text, width);
    let room = out.len() - text.len();
    assert(out.subrange(room / 2, room / 2 + text.len()) =~= text);
}

} // verus!
