//! Big-endian integers, and byte strings preceded by a table of their lengths.

use vstd::prelude::*;

verus! {

/// The 16-bit big-endian integer at `at`.
pub open spec fn be16(s: Seq<u8>, at: int) -> nat {
    s[at] as nat * 256 + s[at + 1] as nat
}

/// The 32-bit big-endian integer at `at`.
pub open spec fn be32(s: Seq<u8>, at: int) -> nat {
    ((s[at] as nat * 256 + s[at + 1] as nat) * 256 + s[at + 2] as nat) * 256 + s[at + 3] as nat
}

/// `n` as two big-endian bytes.
pub open spec fn be16_bytes(n: nat) -> Seq<u8> {
    seq![(n / 256 % 256) as u8, (n % 256) as u8]
}

/// `n` as four big-endian bytes.
pub open spec fn be32_bytes(n: nat) -> Seq<u8> {
    seq![
        (n / 16777216 % 256) as u8,
        (n / 65536 % 256) as u8,
        (n / 256 % 256) as u8,
        (n % 256) as u8,
    ]
}

/// A 16-bit integer written big-endian is read back, wherever it stands.
pub proof fn be16_reads_back(n: nat, before: Seq<u8>, after: Seq<u8>)
    requires
        n <= u16::MAX,
    ensures
        be16(before + be16_bytes(n) + after, before.len() as int) == n,
{
    let s = before + be16_bytes(n) + after;
    let at = before.len() as int;
    assert(s[at] == be16_bytes(n)[0] && s[at + 1] == be16_bytes(n)[1]);
}

/// A 32-bit integer written big-endian is read back, wherever it stands.
pub proof fn be32_reads_back(n: nat, before: Seq<u8>, after: Seq<u8>)
    requires
        n <= u32::MAX,
    ensures
        be32(before + be32_bytes(n) + after, before.len() as int) == n,
{
    let s = before + be32_bytes(n) + after;
    let at = before.len() as int;
    let b = be32_bytes(n);
    assert(s[at] == b[0] && s[at + 1] == b[1] && s[at + 2] == b[2] && s[at + 3] == b[3]);
}

/// Two bytes are the big-endian form of the integer they hold.
pub proof fn be16_writes_back(s: Seq<u8>, at: int)
    requires
        0 <= at,
        at + 2 <= s.len(),
    ensures
        be16_bytes(be16(s, at)) == s.subrange(at, at + 2),
        be16(s, at) <= u16::MAX,
{
}

/// Four bytes are the big-endian form of the integer they hold.
pub proof fn be32_writes_back(s: Seq<u8>, at: int)
    requires
        0 <= at,
        at + 4 <= s.len(),
    ensures
        be32_bytes(be32(s, at)) == s.subrange(at, at + 4),
        be32(s, at) <= u32::MAX,
{
}

/// Reads the 16-bit big-endian integer at `at`.
pub fn read_be16(s: &[u8], at: usize) -> (n: u16)
    requires
        at + 2 <= s@.len(),
    ensures
        n == be16(s@, at as int),
{
    s[at] as u16 * 256 + s[at + 1] as u16
}

/// Reads the 32-bit big-endian integer at `at`.
pub fn read_be32(s: &[u8], at: usize) -> (n: u32)
    requires
        at + 4 <= s@.len(),
    ensures
        n == be32(s@, at as int),
{
    ((s[at] as u32 * 256 + s[at + 1] as u32) * 256 + s[at + 2] as u32) * 256 + s[at + 3] as u32
}

/// Appends `n` as two big-endian bytes.
pub fn push_be16(out: &mut Vec<u8>, n: u16)
    ensures
        final(out)@ == old(out)@ + be16_bytes(n as nat),
{
    out.push((n / 256) as u8);
    out.push((n % 256) as u8);
    assert(out@ =~= old(out)@ + be16_bytes(n as nat));
}

/// Appends `n` as four big-endian bytes.
pub fn push_be32(out: &mut Vec<u8>, n: u32)
    ensures
        final(out)@ == old(out)@ + be32_bytes(n as nat),
{
    out.push((n / 16777216) as u8);
    out.push((n / 65536 % 256) as u8);
    out.push((n / 256 % 256) as u8);
    out.push((n % 256) as u8);
    assert(out@ =~= old(out)@ + be32_bytes(n as nat));
}

/// Appends `bytes`.
pub fn push_bytes(out: &mut Vec<u8>, bytes: &[u8])
    ensures
        final(out)@ == old(out)@ + bytes@,
{
    out.extend_from_slice(bytes);
    assert(out@ =~= old(out)@ + bytes@);
}

/// What each vector holds.
pub open spec fn byte_views(vectors: Seq<Vec<u8>>) -> Seq<Seq<u8>> {
    vectors.map_values(|v: Vec<u8>| v@)
}

/// The length of each byte string, as 32-bit big-endian integers one after another.
pub open spec fn length_table(items: Seq<Seq<u8>>) -> Seq<u8>
    decreases items.len(),
{
    if items.len() == 0 {
        seq![]
    } else {
        length_table(items.drop_last()) + be32_bytes(items.last().len())
    }
}

/// The byte strings one after another.
pub open spec fn joined(items: Seq<Seq<u8>>) -> Seq<u8>
    decreases items.len(),
{
    if items.len() == 0 {
        seq![]
    } else {
        joined(items.drop_last()) + items.last()
    }
}

/// How the table and the joined bytes of the first `i + 1` byte strings grow out
/// of those of the first `i`.
pub proof fn lemma_take_next(items: Seq<Seq<u8>>, i: int)
    requires
        0 <= i < items.len(),
    ensures
        length_table(items.take(i + 1)) == length_table(items.take(i)) + be32_bytes(
            items[i].len(),
        ),
        joined(items.take(i + 1)) == joined(items.take(i)) + items[i],
{
    assert(items.take(i + 1).drop_last() =~= items.take(i));
}

pub proof fn lemma_length_table_len(items: Seq<Seq<u8>>)
    ensures
        length_table(items).len() == 4 * items.len(),
    decreases items.len(),
{
    if items.len() > 0 {
        lemma_length_table_len(items.drop_last());
    }
}

/// The table entry of each byte string is its length.
pub proof fn length_table_reads_back(items: Seq<Seq<u8>>, i: int, before: Seq<u8>, after: Seq<u8>)
    requires
        0 <= i < items.len(),
        items[i].len() <= u32::MAX,
    ensures
        be32(before + length_table(items) + after, before.len() + 4 * i) == items[i].len(),
    decreases items.len(),
{
    let table = length_table(items.drop_last());
    let entry = be32_bytes(items.last().len());
    lemma_length_table_len(items.drop_last());
    if i == items.len() - 1 {
        be32_reads_back(items[i].len(), before + table, after);
        assert(before + table + entry + after =~= before + length_table(items) + after);
    } else {
        length_table_reads_back(items.drop_last(), i, before, entry + after);
        assert(before + table + (entry + after) =~= before + length_table(items) + after);
    }
}

/// Byte strings with equal tables and equal joined bytes are equal, one by one.
pub proof fn table_and_joined_injective(a: Seq<Seq<u8>>, b: Seq<Seq<u8>>)
    requires
        a.len() == b.len(),
        forall|i: int| 0 <= i < a.len() ==> (#[trigger] a[i]).len() <= u32::MAX,
        forall|i: int| 0 <= i < b.len() ==> (#[trigger] b[i]).len() <= u32::MAX,
        length_table(a) == length_table(b),
        joined(a) == joined(b),
    ensures
        a == b,
    decreases a.len(),
{
    if a.len() > 0 {
        let n = a.len() - 1;
        let none = Seq::<u8>::empty();
        length_table_reads_back(a, n, none, none);
        length_table_reads_back(b, n, none, none);
        lemma_length_table_len(a.drop_last());
        lemma_length_table_len(b.drop_last());
        let m = 4 * n;
        assert(length_table(a).take(m) =~= length_table(a.drop_last()));
        assert(length_table(b).take(m) =~= length_table(b.drop_last()));
        let k = joined(a).len() - a.last().len();
        assert(joined(a).take(k) =~= joined(a.drop_last()));
        assert(joined(b).take(k) =~= joined(b.drop_last()));
        assert(joined(a).skip(k) =~= a.last());
        assert(joined(b).skip(k) =~= b.last());
        table_and_joined_injective(a.drop_last(), b.drop_last());
        assert(a =~= a.drop_last().push(a.last()));
        assert(b =~= b.drop_last().push(b.last()));
    }
}

pub proof fn lemma_joined_front(first: Seq<u8>, rest: Seq<Seq<u8>>)
    ensures
        joined(seq![first] + rest) == first + joined(rest),
    decreases rest.len(),
{
    if rest.len() == 0 {
        assert(seq![first] + rest =~= seq![first]);
        assert(seq![first].drop_last() =~= Seq::<Seq<u8>>::empty());
        assert(joined(seq![first]) =~= first) by {
            reveal_with_fuel(joined, 2);
        }
    } else {
        assert((seq![first] + rest).drop_last() =~= seq![first] + rest.drop_last());
        lemma_joined_front(first, rest.drop_last());
    }
}

/// Byte string `i` stands in the joined bytes behind all those before it.
pub proof fn lemma_joined_part(items: Seq<Seq<u8>>, i: int)
    requires
        0 <= i < items.len(),
    ensures
        joined(items.take(i)).len() + items[i].len() <= joined(items).len(),
        joined(items).subrange(
            joined(items.take(i)).len() as int,
            (joined(items.take(i)).len() + items[i].len()) as int,
        ) == items[i],
    decreases items.len(),
{
    let at = joined(items.take(i)).len() as int;
    if i == items.len() - 1 {
        assert(items.take(i) =~= items.drop_last());
        assert(joined(items).subrange(at, at + items[i].len()) =~= items[i]);
    } else {
        let front = items.drop_last();
        lemma_joined_part(front, i);
        assert(front.take(i) =~= items.take(i));
        assert(joined(items).subrange(at, at + items[i].len()) =~= joined(front).subrange(
            at,
            at + items[i].len(),
        ));
    }
}

} // verus!
