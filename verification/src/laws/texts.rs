//! Texts cut, trimmed and compared.

use vstd::prelude::*;
use vstd::utf8::*;

use crate::text;

verus! {

/// A text is cut at the first `c` in it, and only where there is one.
pub proof fn texts_are_cut_at_the_first(before: Seq<char>, c: char, after: Seq<char>)
    requires
        !before.contains(c),
    ensures
        text::split_at_first(before + seq![c] + after, c) == Some((before, after)),
        text::split_at_first(before, c) is None,
{
    let s = before + seq![c] + after;
    assert forall|j: int| 0 <= j < before.len() implies before[j] != c by {
        assert(before.contains(before[j]));
    }
    text::lemma_first_index_is(s, c, before.len() as int);
    text::lemma_first_index_is(before, c, before.len() as int);
    assert(s.take(before.len() as int) =~= before);
    assert(s.skip(before.len() + 1int) =~= after);
}

/// A text is cut at the last `c` in it, and only where there is one.
pub proof fn texts_are_cut_at_the_last(before: Seq<char>, c: char, after: Seq<char>)
    requires
        !after.contains(c),
    ensures
        text::split_at_last(before + seq![c] + after, c) == Some((before, after)),
        text::split_at_last(after, c) is None,
{
    let s = before + seq![c] + after;
    assert forall|j: int| before.len() < j < s.len() implies s[j] != c by {
        assert(after.contains(after[j - before.len() - 1]));
    }
    text::lemma_last_index_is(s, c, before.len() as int);
    assert forall|j: int| -1 < j < after.len() implies after[j] != c by {
        assert(after.contains(after[j]));
    }
    text::lemma_last_index_is(after, c, -1);
    assert(s.take(before.len() as int) =~= before);
    assert(s.skip(before.len() + 1int) =~= after);
}

/// The code points of the characters that count as white space.
pub open spec fn white_space_code_points() -> Seq<u32> {
    seq![
        0x9,
        0xa,
        0xb,
        0xc,
        0xd,
        0x20,
        0x85,
        0xa0,
        0x1680,
        0x2000,
        0x2001,
        0x2002,
        0x2003,
        0x2004,
        0x2005,
        0x2006,
        0x2007,
        0x2008,
        0x2009,
        0x200a,
        0x2028,
        0x2029,
        0x202f,
        0x205f,
        0x3000,
    ]
}

/// White space is what the list says.
pub proof fn white_space_is_listed(c: char)
    ensures
        text::is_white_space(c) == white_space_code_points().contains(c as u32),
{
    let u = c as u32;
    let list = white_space_code_points();
    if text::is_white_space(c) {
        if 0x9 <= u <= 0xd {
            assert(list[u - 0x9] == u);
        } else if 0x2000 <= u <= 0x200a {
            assert(list[u - 0x2000 + 9] == u);
        } else {
            assert(list[5] == 0x20 && list[6] == 0x85 && list[7] == 0xa0 && list[8] == 0x1680
                && list[20] == 0x2028 && list[21] == 0x2029 && list[22] == 0x202f && list[23]
                == 0x205f && list[24] == 0x3000);
        }
    }
}

proof fn lemma_trim_front(a: Seq<char>, s: Seq<char>)
    requires
        forall|i: int| 0 <= i < a.len() ==> text::is_white_space(#[trigger] a[i]),
    ensures
        text::trimmed_front(a + s) == text::trimmed_front(s),
    decreases a.len(),
{
    if a.len() == 0 {
        assert(a + s =~= s);
    } else {
        assert((a + s)[0] == a[0]);
        assert((a + s).drop_first() =~= a.drop_first() + s);
        lemma_trim_front(a.drop_first(), s);
    }
}

proof fn lemma_trim_back(s: Seq<char>, b: Seq<char>)
    requires
        forall|i: int| 0 <= i < b.len() ==> text::is_white_space(#[trigger] b[i]),
    ensures
        text::trimmed_back(s + b) == text::trimmed_back(s),
    decreases b.len(),
{
    if b.len() == 0 {
        assert(s + b =~= s);
    } else {
        assert((s + b).last() == b[b.len() - 1]);
        assert((s + b).drop_last() =~= s + b.drop_last());
        lemma_trim_back(s, b.drop_last());
    }
}

/// White space goes from both ends of a text, and nothing else does.
pub proof fn white_space_is_trimmed_from_the_ends(
    front: Seq<char>,
    inner: Seq<char>,
    back: Seq<char>,
)
    requires
        forall|i: int|
            0 <= i < front.len() ==> white_space_code_points().contains(
                (#[trigger] front[i]) as u32,
            ),
        forall|i: int|
            0 <= i < back.len() ==> white_space_code_points().contains((#[trigger] back[i]) as u32),
        inner.len() > 0 ==> !white_space_code_points().contains(inner[0] as u32)
            && !white_space_code_points().contains(inner.last() as u32),
    ensures
        text::trimmed(front + inner + back) == inner,
{
    assert forall|i: int| 0 <= i < front.len() implies text::is_white_space(#[trigger] front[i]) by {
        white_space_is_listed(front[i]);
    }
    assert forall|i: int| 0 <= i < back.len() implies text::is_white_space(#[trigger] back[i]) by {
        white_space_is_listed(back[i]);
    }
    assert(front + inner + back =~= front + (inner + back));
    lemma_trim_front(front, inner + back);
    if inner.len() > 0 {
        white_space_is_listed(inner[0]);
        white_space_is_listed(inner.last());
        assert((inner + back)[0] == inner[0]);
        lemma_trim_back(inner, back);
    } else {
        assert(inner + back =~= back);
        assert(back =~= back + Seq::<char>::empty());
        lemma_trim_front(back, Seq::<char>::empty());
        assert(text::trimmed(front + inner + back) =~= inner);
    }
}

/// Two characters are the same, or the small and the capital form of one letter
/// from A to Z.
pub open spec fn same_letter(a: char, b: char) -> bool {
    ||| a == b
    ||| 65 <= a as u32 <= 90 && b as u32 == a as u32 + 32
    ||| 65 <= b as u32 <= 90 && a as u32 == b as u32 + 32
}

proof fn lemma_same_letter(a: char, b: char)
    ensures
        same_letter(a, b) == (text::ascii_lower(a) == text::ascii_lower(b)),
{
    char_u32_cast(a, a as u32);
    char_u32_cast(b, b as u32);
    if 65 <= a as u32 <= 90 {
        assert(text::ascii_lower(a) as u32 == a as u32 + 32);
    }
    if 65 <= b as u32 <= 90 {
        assert(text::ascii_lower(b) as u32 == b as u32 + 32);
    }
}

/// Texts are equal but for case where they are so letter by letter.
pub proof fn texts_are_compared_letter_by_letter(a: Seq<char>, b: Seq<char>)
    ensures
        text::equal_but_for_case(a, b) == (a.len() == b.len() && forall|i: int|
            0 <= i < a.len() ==> same_letter(#[trigger] a[i], b[i])),
{
    assert forall|i: int| 0 <= i < a.len() implies same_letter(#[trigger] a[i], b[i]) == (
    text::ascii_lower(a[i]) == text::ascii_lower(b[i])) by {
        lemma_same_letter(a[i], b[i]);
    }
    if a.len() == b.len() && forall|i: int|
        0 <= i < a.len() ==> same_letter(#[trigger] a[i], b[i]) {
        assert forall|i: int| 0 <= i < a.len() implies text::ascii_lower(#[trigger] a[i])
            == text::ascii_lower(b[i]) by {
            assert(same_letter(a[i], b[i]));
        }
    }
    if text::equal_but_for_case(a, b) {
        assert forall|i: int| 0 <= i < a.len() implies same_letter(#[trigger] a[i], b[i]) by {
            assert(text::ascii_lower(a[i]) == text::ascii_lower(b[i]));
        }
    }
}

/// UTF-8 bytes give the text they encode, and a text is found again from its bytes.
pub proof fn utf8_bytes_give_their_text(s: Seq<char>)
    ensures
        text::lossy(encode_utf8(s)) == s,
{
    encode_utf8_valid_utf8(s);
    encode_utf8_decode_utf8(s);
}

/// The views of strings are those of each.
pub proof fn strings_are_viewed_one_by_one(strings: Seq<String>)
    ensures
        text::text_views(strings).len() == strings.len(),
        forall|i: int| 0 <= i < strings.len() ==> text::text_views(strings)[i] == #[trigger] strings[i]@,
{
}

} // verus!
