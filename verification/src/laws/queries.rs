//! Query strings, byte by byte and pair by pair.

use vstd::prelude::*;
use vstd::utf8::*;

use crate::query;
use crate::text;

verus! {

/// The bytes of the hexadecimal digits with small letters.
pub open spec fn small_digits() -> Seq<u8> {
    seq![48, 49, 50, 51, 52, 53, 54, 55, 56, 57, 97, 98, 99, 100, 101, 102]
}

/// The bytes of the hexadecimal digits with capital letters.
pub open spec fn capital_digits() -> Seq<u8> {
    seq![48, 49, 50, 51, 52, 53, 54, 55, 56, 57, 65, 66, 67, 68, 69, 70]
}

/// A hexadecimal digit has its place among the sixteen for its value, and no
/// other byte has one.
pub proof fn hex_digits_have_their_values(b: u8, v: u8)
    ensures
        (query::hex_value(b) == Some(v)) == (v < 16 && (small_digits()[v as int] == b
            || capital_digits()[v as int] == b)),
        query::hex_value(b) matches Some(n) ==> n < 16,
{
}

/// An escape stands for the byte that its two digits give, whatever follows it.
pub proof fn escapes_stand_for_bytes(high: u8, low: u8, x: u8, y: u8, rest: Seq<u8>)
    requires
        high < 16,
        low < 16,
        small_digits()[high as int] == x || capital_digits()[high as int] == x,
        small_digits()[low as int] == y || capital_digits()[low as int] == y,
    ensures
        query::percent_bytes(seq![37u8, x, y] + rest) == seq![(16 * high + low) as u8]
            + query::percent_bytes(rest),
{
    let s = seq![37u8, x, y] + rest;
    hex_digits_have_their_values(x, high);
    hex_digits_have_their_values(y, low);
    assert(s[0] == 37 && s[1] == x && s[2] == y);
    assert(s.skip(3) =~= rest);
}

/// Whether a byte is a hexadecimal digit.
pub open spec fn is_hex_digit(b: u8) -> bool {
    small_digits().contains(b) || capital_digits().contains(b)
}

proof fn lemma_hex_digit(b: u8)
    ensures
        query::hex_value(b) is Some == is_hex_digit(b),
{
    if let Some(v) = query::hex_value(b) {
        hex_digits_have_their_values(b, v);
        assert(small_digits()[v as int] == b || capital_digits()[v as int] == b);
    }
    if is_hex_digit(b) {
        let v = if small_digits().contains(b) {
            choose|v: int| 0 <= v < 16 && small_digits()[v] == b
        } else {
            choose|v: int| 0 <= v < 16 && capital_digits()[v] == b
        };
        hex_digits_have_their_values(b, v as u8);
    }
}

/// Any byte that begins no escape is kept, but a plus sign gives a space.
pub proof fn other_bytes_are_kept(b: u8, rest: Seq<u8>)
    requires
        b != 37 || rest.len() < 2 || !is_hex_digit(rest[0]) || !is_hex_digit(rest[1]),
    ensures
        query::percent_bytes(seq![b] + rest) == seq![
            if b == 43 {
                32u8
            } else {
                b
            },
        ] + query::percent_bytes(rest),
        query::percent_bytes(Seq::<u8>::empty()) == Seq::<u8>::empty(),
{
    let s = seq![b] + rest;
    assert(s[0] == b);
    assert(s.skip(1) =~= rest);
    if rest.len() >= 2 {
        lemma_hex_digit(rest[0]);
        lemma_hex_digit(rest[1]);
        assert(s[1] == rest[0] && s[2] == rest[1]);
    }
}

/// What is decoded is the text of the decoded bytes, where these are UTF-8.
pub proof fn decoded_text_has_the_decoded_bytes(s: Seq<char>)
    ensures
        valid_utf8(query::percent_bytes(encode_utf8(s))) ==> encode_utf8(query::percent_decoded(s))
            == query::percent_bytes(encode_utf8(s)),
        !valid_utf8(query::percent_bytes(encode_utf8(s))) ==> query::percent_decoded(s)
            == text::utf8_replaced(query::percent_bytes(encode_utf8(s))),
{
    if valid_utf8(query::percent_bytes(encode_utf8(s))) {
        decode_utf8_encode_utf8(query::percent_bytes(encode_utf8(s)));
    }
}

/// A piece without an equals sign is a name with an empty value, and no piece at
/// all gives no parameter.
pub proof fn bare_names_have_empty_values(name: Seq<char>)
    requires
        !name.contains('&'),
        !name.contains('='),
    ensures
        query::query_map(name) == if name.len() == 0 {
            Map::<Seq<char>, Seq<char>>::empty()
        } else {
            Map::<Seq<char>, Seq<char>>::empty().insert(
                query::percent_decoded(name),
                Seq::<char>::empty(),
            )
        },
{
    assert forall|j: int| 0 <= j < name.len() implies name[j] != '&' && name[j] != '=' by {
        assert(name.contains(name[j]));
    }
    text::lemma_first_index_is(name, '&', name.len() as int);
    text::lemma_first_index_is(name, '=', name.len() as int);
    assert(query::query_pieces(name) =~= seq![name]);
    assert(seq![name].drop_last() =~= Seq::<Seq<char>>::empty());
    let none = Seq::<char>::empty();
    query::plain_text_is_unchanged(none);
    reveal_with_fuel(query::pieces_map, 2);
}

} // verus!
