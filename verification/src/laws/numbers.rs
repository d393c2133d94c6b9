//! Integers as bytes and as digits.

use vstd::prelude::*;

use crate::decimal;
use crate::wire;

verus! {

/// Two bytes are read as 256 times the first plus the second, wherever they
/// stand, and a number of that form is written as these two bytes.
pub proof fn two_bytes_are_big_endian(a: u8, b: u8, before: Seq<u8>, after: Seq<u8>)
    ensures
        wire::be16(before + seq![a, b] + after, before.len() as int) == 256 * a + b,
        wire::be16_bytes((256 * a + b) as nat) == seq![a, b],
{
    let s = before + seq![a, b] + after;
    assert(s[before.len() as int] == a && s[before.len() as int + 1] == b);
    assert(wire::be16_bytes((256 * a + b) as nat) =~= seq![a, b]);
}

/// Four bytes are the digits of a number to the base 256, the highest first.
pub proof fn four_bytes_are_big_endian(
    a: u8,
    b: u8,
    c: u8,
    d: u8,
    before: Seq<u8>,
    after: Seq<u8>,
)
    ensures
        wire::be32(before + seq![a, b, c, d] + after, before.len() as int) == 16777216 * a + 65536
            * b + 256 * c + d,
        wire::be32_bytes((16777216 * a + 65536 * b + 256 * c + d) as nat) == seq![a, b, c, d],
{
    let s = before + seq![a, b, c, d] + after;
    let at = before.len() as int;
    let four = seq![a, b, c, d];
    assert(s[at] == a && s[at + 1] == b && s[at + 2] == c && s[at + 3] == d);
    assert(wire::be32(four, 0) == 16777216 * a + 65536 * b + 256 * c + d);
    wire::be32_writes_back(four, 0);
    assert(four.subrange(0, 4) =~= four);
}

/// The digit for a number below ten.
pub open spec fn digit(d: nat) -> char {
    (48 + d) as char
}

/// A number below ten is written as its digit, and any other as the number of its
/// tens followed by the digit of the rest.
pub proof fn digits_are_written_by_tens(tens: nat, d: nat)
    requires
        d < 10,
    ensures
        decimal::decimal_text(10 * tens + d) == if tens == 0 {
            seq![digit(d)]
        } else {
            decimal::decimal_text(tens).push(digit(d))
        },
{
    assert((10 * tens + d) / 10 == tens && (10 * tens + d) % 10 == d);
}

/// One digit stands for itself, and a digit behind a numeral adds to ten times
/// what the numeral stands for.
pub proof fn digits_are_read_by_tens(s: Seq<char>, d: nat)
    requires
        d < 10,
    ensures
        decimal::decimal_value(seq![digit(d)]) == Some(d),
        decimal::decimal_value(s) matches Some(v) ==> decimal::decimal_value(s.push(digit(d)))
            == Some(10 * v + d),
{
    let one = seq![digit(d)];
    assert(one.drop_last() =~= Seq::<char>::empty());
    assert(decimal::digits_value(one.drop_last()) == 0);
    assert(decimal::digits_value(one) == d);
    assert(decimal::unsigned_part(one) =~= one);
    if decimal::decimal_value(s) is Some {
        let digits = decimal::unsigned_part(s);
        let longer = s.push(digit(d));
        assert(s.len() > 0);
        assert(decimal::unsigned_part(longer) =~= digits.push(digit(d)));
        let all = digits.push(digit(d));
        assert(all.drop_last() =~= digits);
        assert forall|i: int| 0 <= i < all.len() implies decimal::is_digit(#[trigger] all[i]) by {
            if i < digits.len() {
                assert(decimal::is_digit(digits[i]));
            }
        }
    }
}

/// A plus sign in front changes nothing, unless there is one already.
pub proof fn plus_sign_is_passed_over(s: Seq<char>)
    requires
        s.len() == 0 || s[0] != '+',
    ensures
        decimal::decimal_value(seq!['+'] + s) == decimal::decimal_value(s),
{
    assert((seq!['+'] + s).drop_first() =~= s);
}

/// Nothing but digits is a numeral, with at least one of them and at most a plus
/// sign in front.
pub proof fn other_text_is_no_numeral(s: Seq<char>)
    requires
        s.len() == 0 || s == seq!['+'] || exists|i: int|
            0 <= i < s.len() && !(48 <= #[trigger] s[i] as u32 <= 57) && (i > 0 || s[i] != '+'),
    ensures
        decimal::decimal_value(s) is None,
{
    if s.len() > 0 && s != seq!['+'] {
        let i = choose|i: int|
            0 <= i < s.len() && !(48 <= #[trigger] s[i] as u32 <= 57) && (i > 0 || s[i] != '+');
        let digits = decimal::unsigned_part(s);
        if s[0] == '+' {
            assert(digits[i - 1] == s[i]);
            assert(!decimal::is_digit(digits[i - 1]));
        } else {
            assert(!decimal::is_digit(digits[i]));
        }
    }
}

} // verus!
