//! Text: its UTF-8 form, splitting it at a character, trimming it and
//! telling two texts apart.

use vstd::prelude::*;
use vstd::utf8::*;
#[allow(unused_imports)]
use vstd::string::*;

verus! {

/// The position of the first `c` in `s`, or its length where there is none.
pub open spec fn first_index(s: Seq<char>, c: char) -> int
    decreases s.len(),
{
    if s.len() == 0 || s[0] == c {
        0
    } else {
        1 + first_index(s.drop_first(), c)
    }
}

/// The position of the last `c` in `s`, or -1 where there is none.
pub open spec fn last_index(s: Seq<char>, c: char) -> int
    decreases s.len(),
{
    if s.len() == 0 || s.last() == c {
        s.len() - 1
    } else {
        last_index(s.drop_last(), c)
    }
}

/// What stands before and after the first `c`, where there is one.
pub open spec fn split_at_first(s: Seq<char>, c: char) -> Option<(Seq<char>, Seq<char>)> {
    let i = first_index(s, c);
    if i < s.len() {
        Some((s.take(i), s.skip(i + 1)))
    } else {
        None
    }
}

/// What stands before and after the last `c`, where there is one.
pub open spec fn split_at_last(s: Seq<char>, c: char) -> Option<(Seq<char>, Seq<char>)> {
    let i = last_index(s, c);
    if i >= 0 {
        Some((s.take(i), s.skip(i + 1)))
    } else {
        None
    }
}

pub proof fn lemma_first_index(s: Seq<char>, c: char)
    ensures
        0 <= first_index(s, c) <= s.len(),
        first_index(s, c) < s.len() ==> s[first_index(s, c)] == c,
        forall|j: int| 0 <= j < first_index(s, c) ==> s[j] != c,
    decreases s.len(),
{
    if s.len() > 0 && s[0] != c {
        lemma_first_index(s.drop_first(), c);
        assert forall|j: int| 0 <= j < first_index(s, c) implies s[j] != c by {
            if j > 0 {
                assert(s[j] == s.drop_first()[j - 1]);
            }
        }
    }
}

/// The first index is the one place that holds `c` with no `c` before it.
pub proof fn lemma_first_index_is(s: Seq<char>, c: char, i: int)
    requires
        0 <= i <= s.len(),
        i < s.len() ==> s[i] == c,
        forall|j: int| 0 <= j < i ==> s[j] != c,
    ensures
        first_index(s, c) == i,
{
    lemma_first_index(s, c);
}

pub proof fn lemma_last_index(s: Seq<char>, c: char)
    ensures
        -1 <= last_index(s, c) < s.len(),
        last_index(s, c) >= 0 ==> s[last_index(s, c)] == c,
        forall|j: int| last_index(s, c) < j < s.len() ==> s[j] != c,
    decreases s.len(),
{
    if s.len() > 0 && s.last() != c {
        lemma_last_index(s.drop_last(), c);
        assert forall|j: int| last_index(s, c) < j < s.len() implies s[j] != c by {
            if j < s.len() - 1 {
                assert(s[j] == s.drop_last()[j]);
            }
        }
    }
}

/// The last index is the one place that holds `c` with no `c` behind it.
pub proof fn lemma_last_index_is(s: Seq<char>, c: char, i: int)
    requires
        -1 <= i < s.len(),
        i >= 0 ==> s[i] == c,
        forall|j: int| i < j < s.len() ==> s[j] != c,
    ensures
        last_index(s, c) == i,
{
    lemma_last_index(s, c);
}

/// The UTF-8 form of two texts joined is their UTF-8 forms joined.
pub proof fn encode_utf8_joins(a: Seq<char>, b: Seq<char>)
    ensures
        encode_utf8(a + b) == encode_utf8(a) + encode_utf8(b),
    decreases a.len(),
{
    if a.len() == 0 {
        assert(a + b =~= b);
    } else {
        assert((a + b).drop_first() =~= a.drop_first() + b);
        encode_utf8_joins(a.drop_first(), b);
    }
}

/// Two texts with one UTF-8 form are the same text.
pub proof fn encode_utf8_injective(a: Seq<char>, b: Seq<char>)
    requires
        encode_utf8(a) == encode_utf8(b),
    ensures
        a == b,
{
    encode_utf8_decode_utf8(a);
    encode_utf8_decode_utf8(b);
}

/// An ASCII character is encoded as itself, and the bytes of any other
/// character lie outside ASCII.
proof fn lemma_encode_scalar(c: u32)
    requires
        is_scalar(c),
    ensures
        c < 0x80 ==> encode_scalar(c) == seq![c as u8],
        c >= 0x80 ==> encode_scalar(c).len() >= 2,
        c >= 0x80 ==> forall|i: int|
            0 <= i < encode_scalar(c).len() ==> #[trigger] encode_scalar(c)[i] >= 0x80,
{
    assert(c < 0x80 ==> (c & 0x7F) as u8 == c as u8) by (bit_vector);
    assert(0xC0u8 | ((c >> 6) & 0x1F) as u8 >= 0x80) by (bit_vector);
    assert(0xE0u8 | ((c >> 12) & 0x0F) as u8 >= 0x80) by (bit_vector);
    assert(0xF0u8 | ((c >> 18) & 0x7) as u8 >= 0x80) by (bit_vector);
    assert(0x80u8 | (c & 0x3F) as u8 >= 0x80) by (bit_vector);
    assert(0x80u8 | ((c >> 6) & 0x3F) as u8 >= 0x80) by (bit_vector);
    assert(0x80u8 | ((c >> 12) & 0x3F) as u8 >= 0x80) by (bit_vector);
}

/// The character whose encoding is the ASCII byte at `i` of a text's UTF-8 form.
pub proof fn lemma_ascii_byte(chars: Seq<char>, i: int) -> (k: int)
    requires
        0 <= i < encode_utf8(chars).len(),
        encode_utf8(chars)[i] < 0x80,
    ensures
        0 <= k < chars.len(),
        chars[k] as u32 == encode_utf8(chars)[i] as u32,
        encode_utf8(chars.take(k)) == encode_utf8(chars).take(i),
        encode_utf8(chars.skip(k)) == encode_utf8(chars).skip(i),
        encode_utf8(chars.skip(k + 1)) == encode_utf8(chars).skip(i + 1),
    decreases chars.len(),
{
    let c = chars[0] as u32;
    char_is_scalar(chars[0]);
    lemma_encode_scalar(c);
    let head = encode_scalar(c);
    let rest = encode_utf8(chars.drop_first());
    assert(encode_utf8(chars) == head + rest);
    if i < head.len() {
        assert(encode_utf8(chars)[i] == head[i]);
        assert(i == 0 && head.len() == 1);
        assert(chars.take(0) =~= Seq::<char>::empty());
        assert(encode_utf8(chars).take(0) =~= Seq::<u8>::empty());
        assert(chars.skip(0) =~= chars);
        assert(encode_utf8(chars).skip(0) =~= encode_utf8(chars));
        assert(chars.skip(1) =~= chars.drop_first());
        assert(encode_utf8(chars).skip(1) =~= rest);
        0
    } else {
        let j = i - head.len();
        assert(encode_utf8(chars)[i] == rest[j]);
        let k = lemma_ascii_byte(chars.drop_first(), j);
        let tail = chars.drop_first();
        assert(chars.take(k + 1) =~= seq![chars[0]] + tail.take(k));
        encode_utf8_joins(seq![chars[0]], tail.take(k));
        assert(seq![chars[0]].drop_first() =~= Seq::<char>::empty());
        assert(encode_utf8(seq![chars[0]]) =~= head) by {
            reveal_with_fuel(encode_utf8, 2);
        }
        assert(encode_utf8(chars).take(i) =~= head + rest.take(j));
        assert(chars.skip(k + 1) =~= tail.skip(k));
        assert(encode_utf8(chars).skip(i) =~= rest.skip(j));
        assert(chars.skip(k + 2) =~= tail.skip(k + 1));
        assert(encode_utf8(chars).skip(i + 1) =~= rest.skip(j + 1));
        k + 1
    }
}

/// The place, in a text's UTF-8 form, of the ASCII character at `k`.
proof fn lemma_ascii_char(chars: Seq<char>, k: int) -> (i: int)
    requires
        0 <= k < chars.len(),
        (chars[k] as u32) < 0x80,
    ensures
        0 <= i < encode_utf8(chars).len(),
        encode_utf8(chars)[i] as u32 == chars[k] as u32,
        i == encode_utf8(chars.take(k)).len(),
{
    let before = chars.take(k);
    let after = chars.skip(k);
    assert(chars =~= before + after);
    encode_utf8_joins(before, after);
    char_is_scalar(chars[k]);
    lemma_encode_scalar(chars[k] as u32);
    assert(after[0] == chars[k]);
    let i = encode_utf8(before).len() as int;
    assert(encode_utf8(after)[0] == encode_scalar(chars[k] as u32)[0]);
    i
}

/// More characters take more bytes.
proof fn lemma_encode_grows(chars: Seq<char>, j: int, k: int)
    requires
        0 <= j < k <= chars.len(),
    ensures
        encode_utf8(chars.take(j)).len() < encode_utf8(chars.take(k)).len(),
{
    let middle = chars.subrange(j, k);
    assert(chars.take(k) =~= chars.take(j) + middle);
    encode_utf8_joins(chars.take(j), middle);
    char_is_scalar(middle[0]);
    lemma_encode_scalar(middle[0] as u32);
}

/// A text cut at byte `i`, where an ASCII byte stands, falls apart at a character.
proof fn lemma_cut(chars: Seq<char>, i: int) -> (k: int)
    requires
        0 <= i < encode_utf8(chars).len(),
        encode_utf8(chars)[i] < 0x80,
    ensures
        0 <= k < chars.len(),
        chars[k] as u32 == encode_utf8(chars)[i] as u32,
        encode_utf8(chars.take(k)) == encode_utf8(chars).subrange(0, i),
        encode_utf8(chars.skip(k + 1)) == encode_utf8(chars).subrange(
            i + 1,
            encode_utf8(chars).len() as int,
        ),
        is_char_boundary(encode_utf8(chars), i),
        is_char_boundary(encode_utf8(chars), i + 1),
{
    let bytes = encode_utf8(chars);
    let k = lemma_ascii_byte(chars, i);
    encode_utf8_valid_utf8(chars);
    is_char_boundary_iff_not_is_continuation_byte(bytes, i);
    if i + 1 == bytes.len() {
        is_char_boundary_start_end_of_seq(bytes);
    } else {
        is_char_boundary_iff_not_is_continuation_byte(bytes, i + 1);
        let rest = chars.skip(k + 1);
        assert(bytes.skip(i + 1)[0] == bytes[i + 1]);
        encode_utf8_first_scalar(rest);
        assert(!is_continuation_byte(bytes[i + 1]));
    }
    k
}

/// A text without the character `c` of ASCII has no such byte in its UTF-8 form.
pub proof fn lemma_no_ascii_byte(chars: Seq<char>, c: char)
    requires
        (c as u32) < 0x80,
        !chars.contains(c),
    ensures
        !encode_utf8(chars).contains(c as u8),
{
    if encode_utf8(chars).contains(c as u8) {
        let i = choose|i: int|
            0 <= i < encode_utf8(chars).len() && encode_utf8(chars)[i] == c as u8;
        let k = lemma_ascii_byte(chars, i);
        lemma_same_char(chars[k], c);
        assert(chars.contains(chars[k]));
    }
}

proof fn lemma_same_char(a: char, b: char)
    requires
        a as u32 == b as u32,
    ensures
        a == b,
{
    char_u32_cast(a, a as u32);
    char_u32_cast(b, b as u32);
}

/// Splits `s` at its first `separator`.
pub fn split_once<'a>(s: &'a str, separator: char) -> (parts: Option<(&'a str, &'a str)>)
    requires
        (separator as u32) < 0x80,
    ensures
        match parts {
            Some((before, after)) => split_at_first(s@, separator) == Some((before@, after@)),
            None => split_at_first(s@, separator) is None,
        },
{
    let bytes = s.as_bytes();
    let mut i: usize = 0;
    while i < bytes.len()
        invariant
            bytes@ == encode_utf8(s@),
            (separator as u32) < 0x80,
            i <= bytes@.len(),
            forall|j: int| 0 <= j < i ==> bytes@[j] != separator as u8,
        decreases bytes@.len() - i,
    {
        if bytes[i] == separator as u8 {
            proof {
                let k = lemma_cut(s@, i as int);
                assert forall|j: int| 0 <= j < k implies s@[j] != separator by {
                    if s@[j] == separator {
                        let p = lemma_ascii_char(s@, j);
                        lemma_encode_grows(s@, j, k);
                    }
                }
                lemma_same_char(s@[k], separator);
                lemma_first_index_is(s@, separator, k);
            }
            let (before, _) = s.split_at(i);
            let (_, after) = s.split_at(i + 1);
            proof {
                let k = first_index(s@, separator);
                encode_utf8_injective(before@, s@.take(k));
                encode_utf8_injective(after@, s@.skip(k + 1));
            }
            return Some((before, after));
        }
        i += 1;
    }
    proof {
        assert forall|j: int| 0 <= j < s@.len() implies s@[j] != separator by {
            if s@[j] == separator {
                let p = lemma_ascii_char(s@, j);
            }
        }
        lemma_first_index_is(s@, separator, s@.len() as int);
    }
    None
}

/// Splits `s` at its last `separator`.
pub fn rsplit_once<'a>(s: &'a str, separator: char) -> (parts: Option<(&'a str, &'a str)>)
    requires
        (separator as u32) < 0x80,
    ensures
        match parts {
            Some((before, after)) => split_at_last(s@, separator) == Some((before@, after@)),
            None => split_at_last(s@, separator) is None,
        },
{
    let bytes = s.as_bytes();
    let mut i: usize = bytes.len();
    while i > 0
        invariant
            bytes@ == encode_utf8(s@),
            (separator as u32) < 0x80,
            i <= bytes@.len(),
            forall|j: int| i <= j < bytes@.len() ==> bytes@[j] != separator as u8,
        decreases i,
    {
        i -= 1;
        if bytes[i] == separator as u8 {
            proof {
                let k = lemma_cut(s@, i as int);
                assert forall|j: int| k < j < s@.len() implies s@[j] != separator by {
                    if s@[j] == separator {
                        let p = lemma_ascii_char(s@, j);
                        lemma_encode_grows(s@, k, j);
                    }
                }
                lemma_same_char(s@[k], separator);
                lemma_last_index_is(s@, separator, k);
            }
            let (before, _) = s.split_at(i);
            let (_, after) = s.split_at(i + 1);
            proof {
                let k = last_index(s@, separator);
                encode_utf8_injective(before@, s@.take(k));
                encode_utf8_injective(after@, s@.skip(k + 1));
            }
            return Some((before, after));
        }
    }
    proof {
        assert forall|j: int| 0 <= j < s@.len() implies s@[j] != separator by {
            if s@[j] == separator {
                let p = lemma_ascii_char(s@, j);
            }
        }
        lemma_last_index_is(s@, separator, -1);
    }
    None
}

/// The characters of the Unicode property White_Space.
pub open spec fn is_white_space(c: char) -> bool {
    let u = c as u32;
    ||| 0x09 <= u <= 0x0d
    ||| u == 0x20
    ||| u == 0x85
    ||| u == 0xa0
    ||| u == 0x1680
    ||| 0x2000 <= u <= 0x200a
    ||| u == 0x2028
    ||| u == 0x2029
    ||| u == 0x202f
    ||| u == 0x205f
    ||| u == 0x3000
}

/// `s` without the white space at its front.
pub open spec fn trimmed_front(s: Seq<char>) -> Seq<char>
    decreases s.len(),
{
    if s.len() > 0 && is_white_space(s[0]) {
        trimmed_front(s.drop_first())
    } else {
        s
    }
}

/// `s` without the white space at its back.
pub open spec fn trimmed_back(s: Seq<char>) -> Seq<char>
    decreases s.len(),
{
    if s.len() > 0 && is_white_space(s.last()) {
        trimmed_back(s.drop_last())
    } else {
        s
    }
}

/// `s` without the white space at its front and back.
pub open spec fn trimmed(s: Seq<char>) -> Seq<char> {
    trimmed_back(trimmed_front(s))
}

/// The characters of `s`.
pub fn chars_of(s: &str) -> (chars: Vec<char>)
    ensures
        chars@ == s@,
{
    let mut chars: Vec<char> = Vec::new();
    for c in it: s.chars()
        invariant
            it.seq() == s@,
            chars@ == s@.take(it.index()),
    {
        chars.push(c);
    }
    assert(s@.take(s@.len() as int) =~= s@);
    chars
}

fn white_space(c: char) -> (yes: bool)
    ensures
        yes == is_white_space(c),
{
    let u: u32 = c as u32;
    (0x09 <= u && u <= 0x0d) || u == 0x20 || u == 0x85 || u == 0xa0 || u == 0x1680 || (0x2000 <= u
        && u <= 0x200a) || u == 0x2028 || u == 0x2029 || u == 0x202f || u == 0x205f || u == 0x3000
}

/// `s` without leading and trailing white space.
pub fn trim<'a>(s: &'a str) -> (inner: &'a str)
    ensures
        inner@ == trimmed(s@),
{
    let chars = chars_of(s);
    let mut from: usize = 0;
    assert(s@.skip(0) =~= s@);
    while from < chars.len() && white_space(chars[from])
        invariant
            chars@ == s@,
            from <= s@.len(),
            trimmed_front(s@) == trimmed_front(s@.skip(from as int)),
        decreases s@.len() - from,
    {
        assert(s@.skip(from as int).drop_first() =~= s@.skip(from + 1));
        from += 1;
    }
    let ghost front = s@.skip(from as int);
    assert(trimmed_front(s@) == front);
    let mut to: usize = chars.len();
    assert(s@.subrange(from as int, to as int) =~= front);
    while from < to && white_space(chars[to - 1])
        invariant
            chars@ == s@,
            from <= to <= s@.len(),
            trimmed_back(front) == trimmed_back(s@.subrange(from as int, to as int)),
        decreases to,
    {
        assert(s@.subrange(from as int, to as int).drop_last() =~= s@.subrange(
            from as int,
            to - 1,
        ));
        to -= 1;
    }
    s.substring_char(from, to)
}

/// Whether `a` and `b` are the same text.
pub fn same_text(a: &str, b: &str) -> (yes: bool)
    ensures
        yes == (a@ == b@),
{
    let x = a.as_bytes();
    let y = b.as_bytes();
    if x.len() != y.len() {
        return false;
    }
    let mut i: usize = 0;
    while i < x.len()
        invariant
            x@ == encode_utf8(a@),
            y@ == encode_utf8(b@),
            x@.len() == y@.len(),
            i <= x@.len(),
            forall|j: int| 0 <= j < i ==> x@[j] == y@[j],
        decreases x@.len() - i,
    {
        if x[i] != y[i] {
            return false;
        }
        i += 1;
    }
    proof {
        assert(x@ =~= y@);
        encode_utf8_injective(a@, b@);
    }
    true
}

/// `c` with an ASCII capital made small.
pub open spec fn ascii_lower(c: char) -> char {
    if 'A' <= c <= 'Z' {
        (c as u32 + 32) as char
    } else {
        c
    }
}

/// Whether two texts differ at most in the case of ASCII letters.
pub open spec fn equal_but_for_case(a: Seq<char>, b: Seq<char>) -> bool {
    &&& a.len() == b.len()
    &&& forall|i: int| 0 <= i < a.len() ==> ascii_lower(#[trigger] a[i]) == ascii_lower(b[i])
}

fn lower(c: char) -> (l: char)
    ensures
        l == ascii_lower(c),
{
    if 'A' <= c && c <= 'Z' {
        (c as u8 + 32) as char
    } else {
        c
    }
}

/// Whether two texts differ at most in the case of ASCII letters.
pub fn eq_ignore_ascii_case(a: &str, b: &str) -> (yes: bool)
    ensures
        yes == equal_but_for_case(a@, b@),
{
    let x = chars_of(a);
    let y = chars_of(b);
    if x.len() != y.len() {
        return false;
    }
    let mut i: usize = 0;
    while i < x.len()
        invariant
            x@ == a@,
            y@ == b@,
            x@.len() == y@.len(),
            i <= x@.len(),
            forall|j: int| 0 <= j < i ==> ascii_lower(#[trigger] a@[j]) == ascii_lower(b@[j]),
        decreases x@.len() - i,
    {
        if lower(x[i]) != lower(y[i]) {
            assert(ascii_lower(a@[i as int]) != ascii_lower(b@[i as int]));
            return false;
        }
        i += 1;
    }
    true
}

/// What each string says.
pub open spec fn text_views(strings: Seq<String>) -> Seq<Seq<char>> {
    strings.map_values(|s: String| s@)
}

/// The text that `bytes` encode, where they are UTF-8. Calls
/// `String::from_utf8`, of which it claims that it accepts exactly the UTF-8
/// byte strings and returns the text they encode.
#[verifier::external_body]
pub(crate) fn utf8_text(bytes: Vec<u8>) -> (text: Option<String>)
    ensures
        match text {
            Some(s) => valid_utf8(bytes@) && s@ == decode_utf8(bytes@),
            None => !valid_utf8(bytes@),
        },
{
    String::from_utf8(bytes).ok()
}

/// What `String::from_utf8_lossy` makes of bytes that are not UTF-8.
pub uninterp spec fn utf8_replaced(bytes: Seq<u8>) -> Seq<char>;

/// The text of `bytes`, with a replacement for what is not UTF-8.
pub open spec fn lossy(bytes: Seq<u8>) -> Seq<char> {
    if valid_utf8(bytes) {
        decode_utf8(bytes)
    } else {
        utf8_replaced(bytes)
    }
}

/// Whether the first `k` bytes are UTF-8, no more of the first bytes are, and the
/// `n` bytes behind them do not make a character: one, or two or three of which
/// those after the first can only continue a character.
pub open spec fn breaks_at(bytes: Seq<u8>, k: int, n: int) -> bool {
    &&& 0 <= k
    &&& 1 <= n <= 3
    &&& k + n <= bytes.len()
    &&& valid_utf8(bytes.take(k))
    &&& forall|j: int| k < j <= bytes.len() ==> !valid_utf8(#[trigger] bytes.take(j))
    &&& forall|i: int| k < i < k + n ==> is_continuation_byte(#[trigger] bytes[i])
}

/// Whether `text` is the text of `bytes` with one replacement character for each
/// row of up to three bytes that do not make a character.
pub open spec fn replaced_in(bytes: Seq<u8>, text: Seq<char>) -> bool
    decreases bytes.len(),
{
    if valid_utf8(bytes) {
        text == decode_utf8(bytes)
    } else {
        exists|k: int, n: int| #[trigger]
            breaks_at(bytes, k, n) && text == decode_utf8(bytes.take(k)) + seq!['\u{FFFD}'] + lossy(
                bytes.skip(k + n),
            ) && replaced_in(bytes.skip(k + n), lossy(bytes.skip(k + n)))
    }
}

/// The text of `bytes`, with a replacement for what is not UTF-8. Calls
/// `String::from_utf8_lossy`, of which it claims that UTF-8 bytes give the text
/// they encode, that the text of any others depends on them alone, and that it
/// replaces nothing but what is not UTF-8: UTF-8 bytes in front keep their text,
/// and the text of what follows them is the one that it has by itself. Behind the
/// longest front that is UTF-8 one replacement character, U+FFFD, stands for one
/// to three bytes that do not make a character, and decoding goes on behind them.
/// How many bytes each replacement stands for is not claimed further.
#[verifier::external_body]
pub(crate) fn lossy_text(bytes: &[u8]) -> (text: String)
    ensures
        text@ == if valid_utf8(bytes@) {
            decode_utf8(bytes@)
        } else {
            utf8_replaced(bytes@)
        },
        forall|k: int|
            0 <= k <= bytes@.len() && valid_utf8(#[trigger] bytes@.take(k)) ==> text@
                == decode_utf8(bytes@.take(k)) + lossy(bytes@.skip(k)),
        replaced_in(bytes@, text@),
{
    String::from_utf8_lossy(bytes).into_owned()
}

} // verus!
