//! Request targets and query strings.

use vstd::hash_map::StringHashMap;
use vstd::prelude::*;
use vstd::utf8::*;
#[allow(unused_imports)]
use vstd::string::*;

use crate::text;
use crate::text::{lossy_text, same_text, split_once};

verus! {

/// The path and the query of a request target: what stands before and after the
/// first question mark.
pub open spec fn target_parts(target: Seq<char>) -> (Seq<char>, Seq<char>) {
    match text::split_at_first(target, '?') {
        Some(parts) => parts,
        None => (target, seq![]),
    }
}

/// Parts a request target into path and query.
pub fn split_target(target: &str) -> (parts: (String, String))
    ensures
        (parts.0@, parts.1@) == target_parts(target@),
{
    match split_once(target, '?') {
        Some((path, query)) => (path.to_owned(), query.to_owned()),
        None => (target.to_owned(), String::new()),
    }
}

/// The value of a hexadecimal digit.
pub open spec fn hex_value(b: u8) -> Option<u8> {
    if 0x30 <= b <= 0x39 {
        Some((b - 0x30) as u8)
    } else if 0x61 <= b <= 0x66 {
        Some((b - 0x61 + 10) as u8)
    } else if 0x41 <= b <= 0x46 {
        Some((b - 0x41 + 10) as u8)
    } else {
        None
    }
}

/// The value of a hexadecimal digit.
pub fn hex(b: u8) -> (value: Option<u8>)
    ensures
        value == hex_value(b),
{
    match b {
        0x30..=0x39 => Some(b - 0x30),
        0x61..=0x66 => Some(b - 0x61 + 10),
        0x41..=0x46 => Some(b - 0x41 + 10),
        _ => None,
    }
}

/// Whether `s` begins with a percent sign and two hexadecimal digits.
pub open spec fn begins_with_escape(s: Seq<u8>) -> bool {
    s.len() > 2 && s[0] == 0x25 && hex_value(s[1]) is Some && hex_value(s[2]) is Some
}

/// `s` with each escape replaced by the byte it stands for and each plus sign by
/// a space.
pub open spec fn percent_bytes(s: Seq<u8>) -> Seq<u8>
    decreases s.len(),
{
    if s.len() == 0 {
        seq![]
    } else if begins_with_escape(s) {
        seq![(hex_value(s[1])->0 * 16 + hex_value(s[2])->0) as u8] + percent_bytes(s.skip(3))
    } else {
        seq![
            if s[0] == 0x2b {
                0x20u8
            } else {
                s[0]
            },
        ] + percent_bytes(s.skip(1))
    }
}

/// The text that a part of a query stands for.
pub open spec fn percent_decoded(s: Seq<char>) -> Seq<char> {
    text::lossy(percent_bytes(encode_utf8(s)))
}

/// Decodes a part of a query.
pub fn percent_decode(s: &str) -> (decoded: String)
    ensures
        decoded@ == percent_decoded(s@),
        forall|a: Seq<char>, b: Seq<char>|
            #![trigger percent_decoded(a), percent_decoded(b)]
            s@ == a + b && !a.contains('%') ==> decoded@ == percent_decoded(a) + percent_decoded(b),
        encode_utf8(decoded@).len() <= encode_utf8(s@).len(),
{
    let bytes = s.as_bytes();
    let mut out: Vec<u8> = Vec::with_capacity(bytes.len());
    let mut i: usize = 0;
    assert(bytes@.skip(0) =~= bytes@);
    assert(out@ + percent_bytes(bytes@) =~= percent_bytes(bytes@));
    while i < bytes.len()
        invariant
            i <= bytes@.len(),
            out@ + percent_bytes(bytes@.skip(i as int)) == percent_bytes(bytes@),
        decreases bytes@.len() - i,
    {
        let ghost rest = bytes@.skip(i as int);
        let ghost before = out@;
        if bytes[i] == 0x25 && bytes.len() - i > 2 {
            if let (Some(a), Some(b)) = (hex(bytes[i + 1]), hex(bytes[i + 2])) {
                assert(begins_with_escape(rest));
                out.push(a * 16 + b);
                assert(rest.skip(3) =~= bytes@.skip(i + 3));
                assert(out@ + percent_bytes(rest.skip(3)) =~= before + percent_bytes(rest));
                i += 3;
                continue;
            }
        }
        assert(!begins_with_escape(rest));
        out.push(
            if bytes[i] == 0x2b {
                0x20
            } else {
                bytes[i]
            },
        );
        assert(rest.skip(1) =~= bytes@.skip(i + 1));
        assert(out@ + percent_bytes(rest.skip(1)) =~= before + percent_bytes(rest));
        i += 1;
    }
    assert(out@ =~= percent_bytes(bytes@));
    let decoded = lossy_text(out.as_slice());
    proof {
        assert forall|a: Seq<char>, b: Seq<char>|
            #![trigger percent_decoded(a), percent_decoded(b)]
            s@ == a + b && !a.contains('%') implies decoded@ == percent_decoded(a)
            + percent_decoded(b) by {
            let front = percent_bytes(encode_utf8(a));
            let back = percent_bytes(encode_utf8(b));
            lemma_parts_decode(a, b);
            lemma_plus_signs(a);
            encode_utf8_valid_utf8(spaced(a));
            let k = front.len() as int;
            assert(out@.take(k) =~= front);
            assert(out@.skip(k) =~= back);
        }
        let units = lemma_units(s@);
        lemma_replaced_len(units, decoded@);
    }
    decoded
}

/// The parameters of a query, each name with one value.
pub struct QueryParams {
    values: StringHashMap<String>,
}

impl View for QueryParams {
    type V = Map<Seq<char>, Seq<char>>;

    closed spec fn view(&self) -> Map<Seq<char>, Seq<char>> {
        self.values@.map_values(|value: String| value@)
    }
}

impl QueryParams {
    /// No parameters.
    pub fn new() -> (params: QueryParams)
        ensures
            params@ == Map::<Seq<char>, Seq<char>>::empty(),
    {
        let params = QueryParams { values: StringHashMap::new() };
        assert(params@ =~= Map::<Seq<char>, Seq<char>>::empty());
        params
    }

    /// Gives `name` the value `value`, whatever it had before.
    pub fn insert(&mut self, name: String, value: String)
        ensures
            final(self)@ == old(self)@.insert(name@, value@),
    {
        self.values.insert(name, value);
        assert(self@ =~= old(self)@.insert(name@, value@));
    }

    /// The value of `name`.
    pub fn get(&self, name: &str) -> (value: Option<&String>)
        ensures
            match value {
                Some(v) => self@.contains_key(name@) && self@[name@] == v@,
                None => !self@.contains_key(name@),
            },
    {
        self.values.get(name)
    }
}

/// What stands between the ampersands of a query.
pub open spec fn query_pieces(query: Seq<char>) -> Seq<Seq<char>>
    decreases query.len(),
{
    proof {
        text::lemma_first_index(query, '&');
    }
    match text::split_at_first(query, '&') {
        Some((piece, rest)) => seq![piece] + query_pieces(rest),
        None => seq![query],
    }
}

/// The name and the value that a piece of a query stands for.
pub open spec fn query_pair(piece: Seq<char>) -> (Seq<char>, Seq<char>) {
    match text::split_at_first(piece, '=') {
        Some((name, value)) => (percent_decoded(name), percent_decoded(value)),
        None => (percent_decoded(piece), percent_decoded(seq![])),
    }
}

/// The parameters that pieces give: an empty piece gives none, and a later one
/// overrules an earlier one of the same name.
pub open spec fn pieces_map(pieces: Seq<Seq<char>>) -> Map<Seq<char>, Seq<char>>
    decreases pieces.len(),
{
    if pieces.len() == 0 {
        Map::empty()
    } else if pieces.last().len() == 0 {
        pieces_map(pieces.drop_last())
    } else {
        let (name, value) = query_pair(pieces.last());
        pieces_map(pieces.drop_last()).insert(name, value)
    }
}

/// The parameters of a query.
pub open spec fn query_map(query: Seq<char>) -> Map<Seq<char>, Seq<char>> {
    pieces_map(query_pieces(query))
}

fn insert_piece(params: &mut QueryParams, piece: &str)
    ensures
        final(params)@ == if piece@.len() == 0 {
            old(params)@
        } else {
            old(params)@.insert(query_pair(piece@).0, query_pair(piece@).1)
        },
{
    if piece.is_empty() {
        return;
    }
    proof {
        reveal_strlit("");
    }
    let (name, value) = match split_once(piece, '=') {
        Some(parts) => parts,
        None => (piece, ""),
    };
    assert(""@ =~= Seq::<char>::empty());
    params.insert(percent_decode(name), percent_decode(value));
}

/// Reads the parameters of a query.
pub fn parse_query(query: &str) -> (params: QueryParams)
    ensures
        params@ == query_map(query@),
{
    let mut params = QueryParams::new();
    let mut rest: &str = query;
    let ghost mut done: Seq<Seq<char>> = seq![];
    assert(done + query_pieces(rest@) =~= query_pieces(query@));
    loop
        invariant
            done + query_pieces(rest@) == query_pieces(query@),
            params@ == pieces_map(done),
        decreases rest@.len(),
    {
        proof {
            text::lemma_first_index(rest@, '&');
        }
        let ghost before = done;
        match split_once(rest, '&') {
            Some((piece, tail)) => {
                insert_piece(&mut params, piece);
                proof {
                    done = done.push(piece@);
                    assert(done.drop_last() =~= before);
                    assert(done + query_pieces(tail@) =~= before + (seq![piece@] + query_pieces(
                        tail@,
                    )));
                }
                rest = tail;
            },
            None => {
                insert_piece(&mut params, rest);
                proof {
                    done = done.push(rest@);
                    assert(done.drop_last() =~= before);
                    assert(done =~= before + seq![rest@]);
                }
                return params;
            },
        }
    }
}

/// A target is its path, and its query behind a question mark where it has one;
/// the path has no question mark.
pub proof fn target_parts_rejoin(target: Seq<char>)
    ensures
        !target_parts(target).0.contains('?'),
        target.contains('?') ==> target == target_parts(target).0 + seq!['?'] + target_parts(
            target,
        ).1,
        !target.contains('?') ==> target_parts(target) == (target, Seq::<char>::empty()),
{
    text::lemma_first_index(target, '?');
    let i = text::first_index(target, '?');
    if i < target.len() {
        assert(target =~= target.take(i) + seq!['?'] + target.skip(i + 1));
        assert(target.contains(target[i]));
    }
}

/// A path without a question mark, a question mark and a query are parted into
/// that path and that query again.
pub proof fn path_and_query_are_parted(path: Seq<char>, query: Seq<char>)
    requires
        !path.contains('?'),
    ensures
        target_parts(path + seq!['?'] + query) == (path, query),
{
    let target = path + seq!['?'] + query;
    assert forall|j: int| 0 <= j < path.len() implies target[j] != '?' by {
        assert(path.contains(target[j]));
    }
    text::lemma_first_index_is(target, '?', path.len() as int);
    assert(target.take(path.len() as int) =~= path);
    assert(target.skip(path.len() + 1int) =~= query);
}

/// What one step of decoding a part of a query yields.
ghost enum Unit {
    /// A character that stands for itself, or a space that stands for a plus sign.
    Kept(char),
    /// A byte that stood there as an escape.
    Escape(u8),
}

spec fn unit_bytes(unit: Unit) -> Seq<u8> {
    match unit {
        Unit::Kept(c) => encode_utf8(seq![c]),
        Unit::Escape(b) => seq![b],
    }
}

/// The bytes that were read for a unit.
spec fn unit_cost(unit: Unit) -> nat {
    match unit {
        Unit::Kept(c) => encode_utf8(seq![c]).len(),
        Unit::Escape(_) => 3,
    }
}

spec fn units_bytes(units: Seq<Unit>) -> Seq<u8>
    decreases units.len(),
{
    if units.len() == 0 {
        seq![]
    } else {
        unit_bytes(units[0]) + units_bytes(units.drop_first())
    }
}

spec fn units_cost(units: Seq<Unit>) -> nat
    decreases units.len(),
{
    if units.len() == 0 {
        0
    } else {
        unit_cost(units[0]) + units_cost(units.drop_first())
    }
}

proof fn lemma_units_split(units: Seq<Unit>, j: int)
    requires
        0 <= j <= units.len(),
    ensures
        units_bytes(units) == units_bytes(units.take(j)) + units_bytes(units.skip(j)),
        units_cost(units) == units_cost(units.take(j)) + units_cost(units.skip(j)),
    decreases j,
{
    if j == 0 {
        assert(units.skip(0) =~= units);
        assert(units_bytes(units.take(0)) + units_bytes(units) =~= units_bytes(units));
    } else {
        let rest = units.drop_first();
        lemma_units_split(rest, j - 1);
        assert(units.take(j).drop_first() =~= rest.take(j - 1));
        assert(units.skip(j) =~= rest.skip(j - 1));
        assert(units_bytes(units) =~= units_bytes(units.take(j)) + units_bytes(units.skip(j)));
    }
}

proof fn lemma_units_len(units: Seq<Unit>)
    ensures
        units_bytes(units).len() <= units_cost(units),
    decreases units.len(),
{
    if units.len() > 0 {
        lemma_units_len(units.drop_first());
    }
}

/// A character is at least one byte, the first of which does not continue another.
proof fn lemma_kept(c: char)
    ensures
        encode_utf8(seq![c]).len() > 0,
        valid_utf8(encode_utf8(seq![c])),
        !is_continuation_byte(encode_utf8(seq![c])[0]),
{
    let bytes = encode_utf8(seq![c]);
    encode_utf8_valid_utf8(seq![c]);
    encode_utf8_first_scalar(seq![c]);
    assert(bytes.len() > 0);
    is_char_boundary_start_end_of_seq(bytes);
    is_char_boundary_iff_not_is_continuation_byte(bytes, 0);
}

/// The unit that byte `p` begins, or that it stands within.
proof fn lemma_locate(units: Seq<Unit>, p: int) -> (j: int)
    requires
        0 <= p <= units_bytes(units).len(),
    ensures
        0 <= j <= units.len(),
        units_bytes(units.take(j)).len() <= p,
        p == units_bytes(units.take(j)).len() || (j < units.len() && units[j] is Kept && p
            < units_bytes(units.take(j)).len() + unit_bytes(units[j]).len()),
    decreases units.len(),
{
    assert(units.take(0) =~= Seq::<Unit>::empty());
    if p == 0 {
        0
    } else {
        let first = unit_bytes(units[0]);
        if p < first.len() {
            0
        } else {
            let rest = units.drop_first();
            let i = lemma_locate(rest, p - first.len());
            assert(units.take(i + 1).drop_first() =~= rest.take(i));
            i + 1
        }
    }
}

/// The bytes up to the longest front that is UTF-8 are those of whole units, and
/// an escape follows.
proof fn lemma_break_at_escape(units: Seq<Unit>, k: int, n: int) -> (j: int)
    requires
        text::breaks_at(units_bytes(units), k, n),
    ensures
        0 <= j < units.len(),
        units_bytes(units.take(j)) == units_bytes(units).take(k),
        units[j] is Escape,
{
    let bytes = units_bytes(units);
    let front = bytes.take(k);
    let j = lemma_locate(units, k);
    lemma_units_split(units, j);
    let p = units_bytes(units.take(j)).len() as int;
    assert(bytes.take(p) =~= units_bytes(units.take(j)));
    assert(j < units.len()) by {
        if j == units.len() {
            assert(units.take(j) =~= units);
        }
    }
    let back = units.skip(j);
    assert(back[0] == units[j]);
    if let Unit::Kept(c) = units[j] {
        let encoded = encode_utf8(seq![c]);
        lemma_kept(c);
        assert(bytes[p] == encoded[0]);
        assert(valid_utf8(bytes.take(p))) by {
            if p < k {
                assert(front[p] == bytes[p]);
                is_char_boundary_iff_not_is_continuation_byte(front, p);
                valid_utf8_split(front, p);
                assert(front.subrange(0, p) =~= bytes.take(p));
            }
        }
        valid_utf8_concat(bytes.take(p), encoded);
        assert(bytes.take(p + encoded.len()) =~= bytes.take(p) + encoded);
        assert(false);
    }
    j
}

/// The bytes that a replacement stands for are those of whole units.
proof fn lemma_replaced_units(units: Seq<Unit>, j: int, k: int, n: int) -> (m: int)
    requires
        text::breaks_at(units_bytes(units), k, n),
        0 <= j < units.len(),
        units_bytes(units.take(j)).len() == k,
        units[j] is Escape,
    ensures
        j < m <= units.len(),
        units_bytes(units.skip(m)) == units_bytes(units).skip(k + n),
        units_cost(units) >= units_cost(units.take(j)) + 3 + units_cost(units.skip(m)),
{
    let bytes = units_bytes(units);
    let back = units.skip(j);
    let rest = units.skip(j + 1);
    lemma_units_split(units, j);
    assert(back.drop_first() =~= rest);
    assert(back[0] == units[j]);
    let i = lemma_locate(rest, n - 1);
    lemma_units_split(rest, i);
    let p = units_bytes(rest.take(i)).len() as int;
    if p != n - 1 {
        if let Unit::Kept(c) = rest[i] {
            lemma_kept(c);
            assert(rest.skip(i)[0] == rest[i]);
            assert(units_bytes(rest)[p] == encode_utf8(seq![c])[0]);
            assert(bytes[k + 1 + p] == units_bytes(rest)[p]);
            assert(is_continuation_byte(bytes[k + 1 + p]));
        }
        assert(false);
    }
    let m = j + 1 + i;
    assert(units.skip(m) =~= rest.skip(i));
    assert(units_bytes(units.skip(m)) =~= bytes.skip(k + n));
    m
}

/// Replacements take no more bytes than the escapes that they stand for.
proof fn lemma_replaced_len(units: Seq<Unit>, decoded: Seq<char>)
    requires
        text::replaced_in(units_bytes(units), decoded),
    ensures
        encode_utf8(decoded).len() <= units_cost(units),
    decreases units.len(),
{
    let bytes = units_bytes(units);
    lemma_units_len(units);
    if valid_utf8(bytes) {
        decode_utf8_encode_utf8(bytes);
    } else {
        let (k, n) = choose|k: int, n: int| #[trigger]
            text::breaks_at(bytes, k, n) && decoded == decode_utf8(bytes.take(k)) + seq![
                '\u{FFFD}',
            ] + text::lossy(bytes.skip(k + n)) && text::replaced_in(
                bytes.skip(k + n),
                text::lossy(bytes.skip(k + n)),
            );
        let j = lemma_break_at_escape(units, k, n);
        let m = lemma_replaced_units(units, j, k, n);
        let rest = text::lossy(bytes.skip(k + n));
        lemma_replaced_len(units.skip(m), rest);
        let front = decode_utf8(bytes.take(k));
        let mark = seq!['\u{FFFD}'];
        decode_utf8_encode_utf8(bytes.take(k));
        lemma_units_len(units.take(j));
        text::encode_utf8_joins(front + mark, rest);
        text::encode_utf8_joins(front, mark);
        assert(encode_utf8(mark).len() == 3) by {
            reveal_with_fuel(encode_utf8, 2);
        }
    }
}

proof fn lemma_unit_in_front(unit: Unit, units: Seq<Unit>)
    ensures
        units_bytes(seq![unit] + units) == unit_bytes(unit) + units_bytes(units),
        units_cost(seq![unit] + units) == unit_cost(unit) + units_cost(units),
{
    assert((seq![unit] + units).drop_first() =~= units);
}

/// A character that does not begin an escape is kept, but for the plus sign.
proof fn lemma_first_unit(s: Seq<char>)
    requires
        s.len() > 0,
        !begins_with_escape(encode_utf8(s)),
    ensures
        ({
            let c = kept(s[0]);
            let rest = encode_utf8(s.drop_first());
            &&& percent_bytes(encode_utf8(s)) == encode_utf8(seq![c]) + percent_bytes(rest)
            &&& encode_utf8(s).len() == encode_utf8(seq![c]).len() + rest.len()
        }),
{
    let bytes = encode_utf8(s);
    let first = seq![s[0]];
    let rest = s.drop_first();
    let c = kept(s[0]);
    assert(s =~= first + rest);
    assert(spaced(first) =~= seq![c]);
    text::encode_utf8_joins(first, rest);
    if s[0] == '%' {
        is_ascii_chars_encode_utf8(first);
        assert(encode_utf8(first) =~= seq![0x25u8]);
        assert(bytes.skip(1) =~= encode_utf8(rest));
        assert(percent_bytes(bytes) =~= encode_utf8(first) + percent_bytes(encode_utf8(rest)));
    } else {
        assert(!first.contains('%'));
        lemma_parts_decode(first, rest);
        lemma_plus_signs(first);
        if s[0] == '+' {
            is_ascii_chars_encode_utf8(first);
            is_ascii_chars_encode_utf8(seq![c]);
        }
    }
}

/// The units that a part of a query is decoded to.
proof fn lemma_units(s: Seq<char>) -> (units: Seq<Unit>)
    ensures
        units_bytes(units) == percent_bytes(encode_utf8(s)),
        units_cost(units) == encode_utf8(s).len(),
    decreases s.len(),
{
    let bytes = encode_utf8(s);
    if s.len() == 0 {
        Seq::<Unit>::empty()
    } else if begins_with_escape(bytes) {
        let i = text::lemma_ascii_byte(s, 2);
        let rest = lemma_units(s.skip(i + 1));
        let b = (hex_value(bytes[1])->0 * 16 + hex_value(bytes[2])->0) as u8;
        lemma_unit_in_front(Unit::Escape(b), rest);
        let units = seq![Unit::Escape(b)] + rest;
        assert(units_bytes(units) == percent_bytes(bytes));
        assert(units_cost(units) == bytes.len());
        units
    } else {
        let rest = lemma_units(s.drop_first());
        let c = kept(s[0]);
        lemma_first_unit(s);
        lemma_unit_in_front(Unit::Kept(c), rest);
        let units = seq![Unit::Kept(c)] + rest;
        assert(units_bytes(units) == percent_bytes(bytes));
        assert(units_cost(units) == bytes.len());
        units
    }
}

/// The hexadecimal digit for `n`.
pub open spec fn hex_digit(n: nat) -> u8 {
    if n < 10 {
        (0x30 + n) as u8
    } else {
        (0x41 + n - 10) as u8
    }
}

/// `bytes` with every byte written as an escape.
pub open spec fn percent_escaped(bytes: Seq<u8>) -> Seq<u8>
    decreases bytes.len(),
{
    if bytes.len() == 0 {
        seq![]
    } else {
        seq![0x25u8, hex_digit(bytes[0] as nat / 16), hex_digit(bytes[0] as nat % 16)]
            + percent_escaped(bytes.skip(1))
    }
}

/// Escapes stand for the bytes they were made of, whatever those are.
pub proof fn escapes_decode(bytes: Seq<u8>)
    ensures
        percent_bytes(percent_escaped(bytes)) == bytes,
    decreases bytes.len(),
{
    if bytes.len() > 0 {
        let s = percent_escaped(bytes);
        escapes_decode(bytes.skip(1));
        assert(hex_value(s[1]) == Some((bytes[0] / 16) as u8));
        assert(hex_value(s[2]) == Some((bytes[0] % 16) as u8));
        assert(begins_with_escape(s));
        assert(s.skip(3) =~= percent_escaped(bytes.skip(1)));
        assert(percent_bytes(s) =~= bytes);
    }
}

/// Whether the three bytes of `s` from `at` on are an escape of `b`, with capital
/// or small letters.
pub open spec fn is_escape(s: Seq<u8>, at: int, b: u8) -> bool {
    &&& s[at] == 0x25
    &&& hex_value(s[at + 1]) == Some((b / 16) as u8)
    &&& hex_value(s[at + 2]) == Some((b % 16) as u8)
}

/// Whether `s` is `bytes` with every byte written as an escape.
pub open spec fn is_escaped(s: Seq<u8>, bytes: Seq<u8>) -> bool {
    &&& s.len() == 3 * bytes.len()
    &&& forall|i: int| 0 <= i < bytes.len() ==> is_escape(s, 3 * i, #[trigger] bytes[i])
}

/// Escapes stand for the bytes they were made of, whatever the case of their
/// letters.
pub proof fn escapes_decode_in_either_case(s: Seq<u8>, bytes: Seq<u8>)
    requires
        is_escaped(s, bytes),
    ensures
        percent_bytes(s) == bytes,
    decreases bytes.len(),
{
    if bytes.len() > 0 {
        let rest = bytes.skip(1);
        let tail = s.skip(3);
        assert(is_escape(s, 0, bytes[0]));
        assert forall|i: int| 0 <= i < rest.len() implies is_escape(
            tail,
            3 * i,
            #[trigger] rest[i],
        ) by {
            assert(is_escape(s, 3 * (i + 1), bytes[i + 1]));
        }
        escapes_decode_in_either_case(tail, rest);
        assert(begins_with_escape(s));
        assert(percent_bytes(s) =~= bytes);
    }
}

/// A text is read back from its escapes, whatever the case of their letters.
pub proof fn escaped_text_decodes_in_either_case(escaped: Seq<char>, s: Seq<char>)
    requires
        is_escaped(encode_utf8(escaped), encode_utf8(s)),
    ensures
        percent_decoded(escaped) == s,
{
    escapes_decode_in_either_case(encode_utf8(escaped), encode_utf8(s));
    encode_utf8_valid_utf8(s);
    encode_utf8_decode_utf8(s);
}

/// Bytes behind ones without a percent sign are decoded as they are by themselves.
pub proof fn bytes_decode_in_parts(x: Seq<u8>, y: Seq<u8>)
    requires
        !x.contains(0x25),
    ensures
        percent_bytes(x + y) == percent_bytes(x) + percent_bytes(y),
    decreases x.len(),
{
    if x.len() == 0 {
        assert(x + y =~= y);
        assert(percent_bytes(x) + percent_bytes(y) =~= percent_bytes(y));
    } else {
        let rest = x.skip(1);
        assert(x.contains(x[0]));
        assert forall|i: int| 0 <= i < rest.len() implies rest[i] != 0x25 by {
            assert(x.contains(x[i + 1]));
        }
        bytes_decode_in_parts(rest, y);
        assert((x + y).skip(1) =~= rest + y);
        assert((x + y)[0] == x[0]);
        assert(percent_bytes(x + y) =~= percent_bytes(x) + percent_bytes(y));
    }
}

proof fn lemma_parts_decode(a: Seq<char>, b: Seq<char>)
    requires
        !a.contains('%'),
    ensures
        percent_bytes(encode_utf8(a + b)) == percent_bytes(encode_utf8(a)) + percent_bytes(
            encode_utf8(b),
        ),
{
    text::encode_utf8_joins(a, b);
    text::lemma_no_ascii_byte(a, '%');
    bytes_decode_in_parts(encode_utf8(a), encode_utf8(b));
}

/// Text behind one without a percent sign is decoded as it is by itself, where
/// it decodes to UTF-8. Of any text this is what [`percent_decode`] ensures.
pub proof fn text_decodes_in_parts(a: Seq<char>, b: Seq<char>)
    requires
        !a.contains('%'),
        valid_utf8(percent_bytes(encode_utf8(b))),
    ensures
        percent_decoded(a + b) == percent_decoded(a) + percent_decoded(b),
{
    let back = percent_bytes(encode_utf8(b));
    lemma_parts_decode(a, b);
    lemma_plus_signs(a);
    plus_signs_are_spaces(a);
    let whole = spaced(a) + decode_utf8(back);
    decode_utf8_encode_utf8(back);
    text::encode_utf8_joins(spaced(a), decode_utf8(back));
    encode_utf8_valid_utf8(whole);
    encode_utf8_decode_utf8(whole);
}

/// `s` with a space for each plus sign.
pub open spec fn spaced(s: Seq<char>) -> Seq<char> {
    s.map_values(|c: char| kept(c))
}

/// What a character that begins no escape stands for.
pub open spec fn kept(c: char) -> char {
    if c == '+' {
        ' '
    } else {
        c
    }
}

proof fn lemma_plain_bytes(s: Seq<u8>)
    requires
        !s.contains(0x25),
        !s.contains(0x2b),
    ensures
        percent_bytes(s) == s,
    decreases s.len(),
{
    if s.len() > 0 {
        assert(s.contains(s[0]));
        let rest = s.skip(1);
        assert forall|i: int| 0 <= i < rest.len() implies rest[i] != 0x25 && rest[i] != 0x2b by {
            assert(s.contains(s[i + 1]));
        }
        lemma_plain_bytes(rest);
        assert(percent_bytes(s) =~= s);
    }
}

proof fn lemma_plus_signs(s: Seq<char>)
    requires
        !s.contains('%'),
    ensures
        percent_bytes(encode_utf8(s)) == encode_utf8(spaced(s)),
    decreases s.len(),
{
    if s.len() > 0 {
        let first = seq![s[0]];
        let rest = s.drop_first();
        assert(s =~= first + rest);
        assert(s.contains(s[0]));
        assert forall|i: int| 0 <= i < rest.len() implies rest[i] != '%' by {
            assert(s.contains(s[i + 1]));
        }
        assert(!first.contains('%'));
        lemma_parts_decode(first, rest);
        lemma_plus_signs(rest);
        assert(spaced(s) =~= spaced(first) + spaced(rest));
        text::encode_utf8_joins(spaced(first), spaced(rest));
        assert(percent_bytes(encode_utf8(first)) == encode_utf8(spaced(first))) by {
            if s[0] == '+' {
                is_ascii_chars_encode_utf8(first);
                is_ascii_chars_encode_utf8(spaced(first));
                assert(encode_utf8(first) =~= seq![0x2bu8]);
                assert(encode_utf8(spaced(first)) =~= seq![0x20u8]);
                assert(encode_utf8(first).skip(1) =~= Seq::<u8>::empty());
                reveal_with_fuel(percent_bytes, 2);
                assert(percent_bytes(encode_utf8(first)) =~= seq![0x20u8]);
            } else {
                assert(spaced(first) =~= first);
                text::lemma_no_ascii_byte(first, '%');
                text::lemma_no_ascii_byte(first, '+');
                lemma_plain_bytes(encode_utf8(first));
            }
        }
    } else {
        assert(spaced(s) =~= s);
    }
}

/// A text without percent signs stands for itself, with a space for each plus
/// sign.
pub proof fn plus_signs_are_spaces(s: Seq<char>)
    requires
        !s.contains('%'),
    ensures
        percent_decoded(s) == spaced(s),
{
    lemma_plus_signs(s);
    encode_utf8_valid_utf8(spaced(s));
    encode_utf8_decode_utf8(spaced(s));
}

/// A text without percent and plus signs stands for itself.
pub proof fn plain_text_is_unchanged(s: Seq<char>)
    requires
        !s.contains('%'),
        !s.contains('+'),
    ensures
        percent_decoded(s) == s,
{
    plus_signs_are_spaces(s);
    assert forall|i: int| 0 <= i < s.len() implies spaced(s)[i] == s[i] by {
        assert(s.contains(s[i]));
    }
    assert(spaced(s) =~= s);
}

proof fn lemma_pieces_joined(a: Seq<char>, b: Seq<char>)
    ensures
        query_pieces(a + seq!['&'] + b) == query_pieces(a) + query_pieces(b),
    decreases a.len(),
{
    let whole = a + seq!['&'] + b;
    let i = text::first_index(a, '&');
    text::lemma_first_index(a, '&');
    text::lemma_first_index_is(whole, '&', i);
    assert(whole.take(i) =~= a.take(i));
    if i < a.len() {
        let rest = a.skip(i + 1);
        lemma_pieces_joined(rest, b);
        assert(whole.skip(i + 1) =~= rest + seq!['&'] + b);
        assert(seq![a.take(i)] + (query_pieces(rest) + query_pieces(b)) =~= (seq![a.take(i)]
            + query_pieces(rest)) + query_pieces(b));
    } else {
        assert(a.take(i) =~= a);
        assert(whole.skip(i + 1) =~= b);
    }
}

proof fn lemma_pieces_map_joined(p: Seq<Seq<char>>, q: Seq<Seq<char>>)
    ensures
        pieces_map(p + q) == pieces_map(p).union_prefer_right(pieces_map(q)),
    decreases q.len(),
{
    if q.len() == 0 {
        assert(p + q =~= p);
        assert(pieces_map(p) =~= pieces_map(p).union_prefer_right(pieces_map(q)));
    } else {
        lemma_pieces_map_joined(p, q.drop_last());
        assert((p + q).drop_last() =~= p + q.drop_last());
        assert((p + q).last() == q.last());
        assert(pieces_map(p + q) =~= pieces_map(p).union_prefer_right(pieces_map(q)));
    }
}

/// The parameters of two queries joined by an ampersand are those of the first,
/// overruled by those of the second.
pub proof fn later_queries_overrule(a: Seq<char>, b: Seq<char>)
    ensures
        query_map(a + seq!['&'] + b) == query_map(a).union_prefer_right(query_map(b)),
{
    lemma_pieces_joined(a, b);
    lemma_pieces_map_joined(query_pieces(a), query_pieces(b));
}

/// A pair at the end of a query gives its name its value, whatever stood before.
pub proof fn last_pair_wins(query: Seq<char>, piece: Seq<char>)
    requires
        !piece.contains('&'),
        piece.len() > 0,
    ensures
        query_map(query + seq!['&'] + piece) == query_map(query).insert(
            query_pair(piece).0,
            query_pair(piece).1,
        ),
{
    assert forall|j: int| 0 <= j < piece.len() implies piece[j] != '&' by {
        assert(piece.contains(piece[j]));
    }
    text::lemma_first_index_is(piece, '&', piece.len() as int);
    assert(query_pieces(piece) =~= seq![piece]);
    lemma_pieces_joined(query, piece);
    assert((query_pieces(query) + seq![piece]).drop_last() =~= query_pieces(query));
}

/// `s` with every byte of its UTF-8 form written as an escape.
pub open spec fn escaped_text(s: Seq<char>) -> Seq<char> {
    percent_escaped(encode_utf8(s)).map_values(|b: u8| b as char)
}

proof fn lemma_escapes_are_plain(bytes: Seq<u8>)
    ensures
        forall|i: int|
            0 <= i < percent_escaped(bytes).len() ==> {
                let b = #[trigger] percent_escaped(bytes)[i];
                b == 0x25 || 0x30 <= b <= 0x39 || 0x41 <= b <= 0x46
            },
    decreases bytes.len(),
{
    if bytes.len() > 0 {
        let rest = percent_escaped(bytes.skip(1));
        lemma_escapes_are_plain(bytes.skip(1));
        assert forall|i: int| 0 <= i < percent_escaped(bytes).len() implies {
            let b = #[trigger] percent_escaped(bytes)[i];
            b == 0x25 || 0x30 <= b <= 0x39 || 0x41 <= b <= 0x46
        } by {
            if i >= 3 {
                assert(percent_escaped(bytes)[i] == rest[i - 3]);
            }
        }
    }
}

/// Any text is read back from its escapes.
pub proof fn escaped_text_decodes(s: Seq<char>)
    ensures
        percent_decoded(escaped_text(s)) == s,
        !escaped_text(s).contains('&'),
        !escaped_text(s).contains('='),
        !escaped_text(s).contains('?'),
{
    let bytes = encode_utf8(s);
    let escaped = percent_escaped(bytes);
    let chars = escaped_text(s);
    lemma_escapes_are_plain(bytes);
    assert forall|i: int| 0 <= i < chars.len() implies (#[trigger] chars[i]) as u32
        == escaped[i] as u32 && (chars[i] as u32) < 0x80 by {
        assert(escaped[i] < 0x80);
    }
    is_ascii_chars_encode_utf8(chars);
    assert(encode_utf8(chars) =~= escaped);
    escapes_decode(bytes);
    encode_utf8_valid_utf8(s);
    encode_utf8_decode_utf8(s);
}

/// A query of one pair gives one parameter.
pub proof fn one_pair_is_read(name: Seq<char>, value: Seq<char>)
    requires
        !name.contains('&'),
        !name.contains('='),
        !value.contains('&'),
    ensures
        query_map(name + seq!['='] + value) == Map::<Seq<char>, Seq<char>>::empty().insert(
            percent_decoded(name),
            percent_decoded(value),
        ),
{
    let query = name + seq!['='] + value;
    assert forall|j: int| 0 <= j < query.len() implies query[j] != '&' by {
        if j < name.len() {
            assert(name.contains(query[j]));
        } else if j > name.len() {
            assert(value.contains(value[j - name.len() - 1]));
        }
    }
    text::lemma_first_index_is(query, '&', query.len() as int);
    assert forall|j: int| 0 <= j < name.len() implies query[j] != '=' by {
        assert(name.contains(query[j]));
    }
    text::lemma_first_index_is(query, '=', name.len() as int);
    assert(query.take(name.len() as int) =~= name);
    assert(query.skip(name.len() + 1int) =~= value);
    assert(query_pieces(query) =~= seq![query]);
    assert(seq![query].drop_last() =~= Seq::<Seq<char>>::empty());
    reveal_with_fuel(pieces_map, 2);
}

} // verus!
