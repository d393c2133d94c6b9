//! Payloads of the decrypt protocol, byte by byte.

use vstd::prelude::*;
use vstd::utf8::*;

use crate::batch;
use crate::wire;

verus! {

/// The number that the two bytes from `at` on make, the higher one first.
pub open spec fn two_bytes(s: Seq<u8>, at: int) -> int {
    256 * s[at] + s[at + 1]
}

/// The number that the four bytes from `at` on make, the highest one first.
pub open spec fn four_bytes(s: Seq<u8>, at: int) -> int {
    16777216 * s[at] + 65536 * s[at + 1] + 256 * s[at + 2] + s[at + 3]
}

/// Whether the id, the URI and the table that the first eight bytes of a payload
/// announce are there, none of them empty.
pub open spec fn has_fixed_part(body: Seq<u8>) -> bool {
    &&& 8 <= body.len() <= usize::MAX
    &&& two_bytes(body, 0) > 0
    &&& two_bytes(body, 2) > 0
    &&& four_bytes(body, 4) > 0
    &&& fixed_len(body) <= body.len()
}

/// How many bytes stand before the samples.
pub open spec fn fixed_len(body: Seq<u8>) -> int {
    8 + 4 * four_bytes(body, 4) + two_bytes(body, 0) + two_bytes(body, 2)
}

/// The bytes of the store id.
pub open spec fn id_bytes(body: Seq<u8>) -> Seq<u8> {
    let from = 8 + 4 * four_bytes(body, 4);
    body.subrange(from, from + two_bytes(body, 0))
}

/// The bytes of the key URI, which end where the samples begin.
pub open spec fn uri_bytes(body: Seq<u8>) -> Seq<u8> {
    body.subrange(fixed_len(body) - two_bytes(body, 2), fixed_len(body))
}

/// Whether every entry of the table is from 1 to 64 MiB.
pub open spec fn has_good_table(body: Seq<u8>) -> bool {
    forall|i: int|
        0 <= i < four_bytes(body, 4) ==> 1 <= #[trigger] four_bytes(body, 8 + 4 * i) <= 67108864
}

/// Whether `starts` are the places where the samples begin that the table
/// announces, and behind them the place where the last one ends.
pub open spec fn are_starts(body: Seq<u8>, starts: Seq<int>) -> bool {
    &&& starts.len() == four_bytes(body, 4) + 1
    &&& starts[0] == fixed_len(body)
    &&& forall|i: int|
        0 <= i < starts.len() - 1 ==> #[trigger] starts[i + 1] == starts[i] + four_bytes(
            body,
            8 + 4 * i,
        )
}

proof fn lemma_numbers(body: Seq<u8>)
    ensures
        wire::be16(body, 0) == two_bytes(body, 0),
        wire::be16(body, 2) == two_bytes(body, 2),
        wire::be32(body, 4) == four_bytes(body, 4),
        forall|i: int| batch::sample_len(body, i) == #[trigger] four_bytes(body, 8 + 4 * i),
        batch::uri_end(body) == fixed_len(body),
        batch::table_end(body) == 8 + 4 * four_bytes(body, 4),
        batch::adam_end(body) == fixed_len(body) - two_bytes(body, 2),
{
}

proof fn lemma_table(body: Seq<u8>)
    ensures
        has_good_table(body) == !(exists|i: int|
            0 <= i < wire::be32(body, 4) && !batch::sample_len_allowed(
                #[trigger] batch::sample_len(body, i),
            )),
{
    lemma_numbers(body);
    if !has_good_table(body) {
        let i = choose|i: int|
            0 <= i < four_bytes(body, 4) && !(1 <= #[trigger] four_bytes(body, 8 + 4 * i)
                <= 67108864);
        assert(!batch::sample_len_allowed(batch::sample_len(body, i)));
    }
    if exists|i: int|
        0 <= i < wire::be32(body, 4) && !batch::sample_len_allowed(
            #[trigger] batch::sample_len(body, i),
        ) {
        let i = choose|i: int|
            0 <= i < wire::be32(body, 4) && !batch::sample_len_allowed(
                #[trigger] batch::sample_len(body, i),
            );
        assert(!(1 <= four_bytes(body, 8 + 4 * i) <= 67108864));
    }
}

proof fn lemma_reads_samples(body: Seq<u8>, starts: Seq<int>, samples: Seq<Seq<u8>>, i: int)
    requires
        body.len() <= usize::MAX,
        are_starts(body, starts),
        starts.last() == body.len(),
        forall|j: int| 0 <= j < starts.len() ==> 0 <= #[trigger] starts[j] <= body.len(),
        samples.len() == starts.len() - 1,
        forall|j: int|
            0 <= j < samples.len() ==> #[trigger] samples[j] == body.subrange(
                starts[j],
                starts[j + 1],
            ),
        0 <= i <= samples.len(),
    ensures
        batch::decode_samples(body, i, starts[i]) == Ok::<Seq<Seq<u8>>, batch::BatchFault>(
            samples.skip(i),
        ),
    decreases samples.len() - i,
{
    lemma_numbers(body);
    if i == samples.len() {
        assert(samples.skip(i) =~= Seq::<Seq<u8>>::empty());
    } else {
        lemma_reads_samples(body, starts, samples, i + 1);
        assert(batch::sample_len(body, i) == four_bytes(body, 8 + 4 * i));
        assert(starts[i + 1] == starts[i] + four_bytes(body, 8 + 4 * i));
        assert(samples[i] == body.subrange(starts[i], starts[i + 1]));
        assert(seq![samples[i]] + samples.skip(i + 1) =~= samples.skip(i));
    }
}

/// The places grow, as each sample takes bytes.
proof fn lemma_starts_grow(body: Seq<u8>, starts: Seq<int>, i: int, j: int)
    requires
        are_starts(body, starts),
        has_good_table(body),
        0 <= i <= j < starts.len(),
    ensures
        starts[i] <= starts[j],
    decreases j - i,
{
    if i < j {
        lemma_starts_grow(body, starts, i, j - 1);
        assert(starts[(j - 1) + 1] == starts[j - 1] + four_bytes(body, 8 + 4 * (j - 1)));
    }
}

/// A payload that holds what its first bytes and its table announce, with sample
/// lengths from 1 to 64 MiB and text for the id and the URI, is read: the id and
/// the URI are that text, and each sample is the bytes at its place.
pub proof fn sound_payloads_are_read(body: Seq<u8>, starts: Seq<int>)
    requires
        has_fixed_part(body),
        has_good_table(body),
        are_starts(body, starts),
        starts.last() == body.len(),
        valid_utf8(id_bytes(body)),
        valid_utf8(uri_bytes(body)),
    ensures
        batch::decode_batch(body) matches Ok(read) && {
            &&& encode_utf8(read.adam) == id_bytes(body)
            &&& encode_utf8(read.uri) == uri_bytes(body)
            &&& read.samples.len() == four_bytes(body, 4)
            &&& forall|i: int|
                0 <= i < read.samples.len() ==> #[trigger] read.samples[i] == body.subrange(
                    starts[i],
                    starts[i + 1],
                )
        },
{
    let samples = Seq::new(
        (starts.len() - 1) as nat,
        |i: int| body.subrange(starts[i], starts[i + 1]),
    );
    lemma_numbers(body);
    lemma_table(body);
    assert forall|j: int| 0 <= j < starts.len() implies 0 <= #[trigger] starts[j] <= body.len() by {
        lemma_starts_grow(body, starts, 0, j);
        lemma_starts_grow(body, starts, j, starts.len() - 1);
    }
    lemma_reads_samples(body, starts, samples, 0);
    assert(samples.skip(0) =~= samples);
    decode_utf8_encode_utf8(id_bytes(body));
    decode_utf8_encode_utf8(uri_bytes(body));
}

/// A store id, a key URI and samples of any length from 1 to 64 MiB are read from
/// the payload that holds them one after another, behind their lengths.
pub proof fn any_batch_is_read(
    body: Seq<u8>,
    adam: Seq<char>,
    uri: Seq<char>,
    samples: Seq<Seq<u8>>,
    starts: Seq<int>,
)
    requires
        body.len() <= usize::MAX,
        body.len() >= 8,
        0 < encode_utf8(adam).len() <= 65535,
        0 < encode_utf8(uri).len() <= 65535,
        0 < samples.len() <= 4294967295,
        forall|i: int| 0 <= i < samples.len() ==> 1 <= (#[trigger] samples[i]).len() <= 67108864,
        two_bytes(body, 0) == encode_utf8(adam).len(),
        two_bytes(body, 2) == encode_utf8(uri).len(),
        four_bytes(body, 4) == samples.len(),
        forall|i: int|
            0 <= i < samples.len() ==> #[trigger] four_bytes(body, 8 + 4 * i) == samples[i].len(),
        fixed_len(body) <= body.len(),
        id_bytes(body) == encode_utf8(adam),
        uri_bytes(body) == encode_utf8(uri),
        are_starts(body, starts),
        starts.last() == body.len(),
        forall|i: int|
            0 <= i < samples.len() ==> #[trigger] samples[i] == body.subrange(
                starts[i],
                starts[i + 1],
            ),
    ensures
        batch::decode_batch(body) == Ok::<batch::BatchView, batch::BatchFault>(
            batch::BatchView { adam, uri, samples },
        ),
{
    assert forall|i: int| 0 <= i < four_bytes(body, 4) implies 1 <= #[trigger] four_bytes(
        body,
        8 + 4 * i,
    ) <= 67108864 by {
        assert(samples[i].len() <= 67108864);
    }
    encode_utf8_valid_utf8(adam);
    encode_utf8_valid_utf8(uri);
    sound_payloads_are_read(body, starts);
    let read = batch::decode_batch(body)->Ok_0;
    crate::text::encode_utf8_injective(read.adam, adam);
    crate::text::encode_utf8_injective(read.uri, uri);
    assert(read.samples =~= samples);
}

/// A payload whose first part is missing or empty is refused for just that.
pub proof fn missing_parts_are_refused(body: Seq<u8>)
    requires
        body.len() <= usize::MAX,
    ensures
        body.len() < 8 ==> batch::decode_batch(body) == Err::<batch::BatchView, _>(
            batch::BatchFault::TooShort,
        ),
        body.len() >= 8 && (two_bytes(body, 0) == 0 || two_bytes(body, 2) == 0 || four_bytes(
            body,
            4,
        ) == 0) ==> batch::decode_batch(body) == Err::<batch::BatchView, _>(
            batch::BatchFault::EmptyField,
        ),
        body.len() >= 8 && two_bytes(body, 0) > 0 && two_bytes(body, 2) > 0 && four_bytes(body, 4)
            > 0 && fixed_len(body) > body.len() ==> batch::decode_batch(body) == Err::<
            batch::BatchView,
            _,
        >(
            if fixed_len(body) > usize::MAX {
                batch::BatchFault::TooLarge
            } else {
                batch::BatchFault::TruncatedHeader
            },
        ),
{
    lemma_numbers(body);
}

/// A payload is refused for a sample length just where the table has an entry
/// that is zero or more than 64 MiB, and the parts before the samples are there.
pub proof fn sample_lengths_are_refused(body: Seq<u8>)
    requires
        body.len() <= usize::MAX,
    ensures
        (batch::decode_batch(body) == Err::<batch::BatchView, _>(batch::BatchFault::SampleLength))
            == (has_fixed_part(body) && !has_good_table(body)),
{
    lemma_numbers(body);
    lemma_table(body);
    if has_fixed_part(body) && has_good_table(body) {
        lemma_samples_fault(body, 0, batch::uri_end(body));
    }
}

proof fn lemma_samples_fault(body: Seq<u8>, i: int, offset: int)
    ensures
        batch::decode_samples(body, i, offset) matches Err(fault) ==> {
            ||| fault == batch::BatchFault::TooLarge
            ||| fault == batch::BatchFault::TruncatedSample
            ||| fault == batch::BatchFault::TrailingBytes
        },
    decreases four_bytes(body, 4) - i,
{
    lemma_numbers(body);
    if i < wire::be32(body, 4) {
        lemma_samples_fault(body, i + 1, offset + batch::sample_len(body, i));
    }
}

/// Bytes that are not UTF-8 where the id or the URI stands are refused, the id
/// first.
pub proof fn texts_that_are_not_utf8_are_refused(body: Seq<u8>)
    requires
        has_fixed_part(body),
        has_good_table(body),
    ensures
        !valid_utf8(id_bytes(body)) ==> batch::decode_batch(body) == Err::<batch::BatchView, _>(
            batch::BatchFault::AdamNotUtf8,
        ),
        valid_utf8(id_bytes(body)) && !valid_utf8(uri_bytes(body)) ==> batch::decode_batch(body)
            == Err::<batch::BatchView, _>(batch::BatchFault::UriNotUtf8),
{
    lemma_numbers(body);
    lemma_table(body);
}

proof fn lemma_refuses_samples(body: Seq<u8>, starts: Seq<int>, i: int, m: int)
    requires
        body.len() <= usize::MAX,
        are_starts(body, starts),
        0 <= i <= m < starts.len(),
        forall|j: int| 0 <= j <= m ==> #[trigger] starts[j] <= body.len(),
        m < starts.len() - 1 ==> starts[m + 1] > body.len(),
        m == starts.len() - 1 ==> starts[m] < body.len(),
    ensures
        batch::decode_samples(body, i, starts[i]) == Err::<Seq<Seq<u8>>, _>(
            if m == starts.len() - 1 {
                batch::BatchFault::TrailingBytes
            } else if starts[m + 1] > usize::MAX {
                batch::BatchFault::TooLarge
            } else {
                batch::BatchFault::TruncatedSample
            },
        ),
    decreases m - i,
{
    lemma_numbers(body);
    if i < starts.len() - 1 {
        assert(batch::sample_len(body, i) == four_bytes(body, 8 + 4 * i));
        assert(starts[i + 1] == starts[i] + four_bytes(body, 8 + 4 * i));
        if i < m {
            lemma_refuses_samples(body, starts, i + 1, m);
        }
    }
}

/// A payload that ends within a sample, or goes on behind the last, is refused:
/// `m` is the sample that does not fit, or the number of samples where all do.
pub proof fn wrong_lengths_are_refused(body: Seq<u8>, starts: Seq<int>, m: int)
    requires
        has_fixed_part(body),
        has_good_table(body),
        valid_utf8(id_bytes(body)),
        valid_utf8(uri_bytes(body)),
        are_starts(body, starts),
        0 <= m < starts.len(),
        starts[m] <= body.len(),
        m < starts.len() - 1 ==> starts[m + 1] > body.len(),
        m == starts.len() - 1 ==> starts[m] < body.len(),
    ensures
        batch::decode_batch(body) == Err::<batch::BatchView, _>(
            if m == starts.len() - 1 {
                batch::BatchFault::TrailingBytes
            } else if starts[m + 1] > usize::MAX {
                batch::BatchFault::TooLarge
            } else {
                batch::BatchFault::TruncatedSample
            },
        ),
{
    lemma_numbers(body);
    lemma_table(body);
    assert forall|j: int| 0 <= j <= m implies #[trigger] starts[j] <= body.len() by {
        lemma_starts_grow(body, starts, j, m);
    }
    lemma_refuses_samples(body, starts, 0, m);
}

/// The client reads these messages.
pub proof fn refusals_have_their_messages()
    ensures
        batch::batch_fault_text(batch::BatchFault::TooShort) == "decrypt batch too short"@,
        batch::batch_fault_text(batch::BatchFault::EmptyField) == "empty decrypt batch field"@,
        batch::batch_fault_text(batch::BatchFault::TooLarge) == "decrypt batch too large"@,
        batch::batch_fault_text(batch::BatchFault::TruncatedHeader)
            == "truncated decrypt batch header"@,
        batch::batch_fault_text(batch::BatchFault::SampleLength)
            == "invalid decrypt sample length"@,
        batch::batch_fault_text(batch::BatchFault::AdamNotUtf8) == "adam_id is not utf-8"@,
        batch::batch_fault_text(batch::BatchFault::UriNotUtf8) == "uri is not utf-8"@,
        batch::batch_fault_text(batch::BatchFault::TruncatedSample) == "truncated decrypt sample"@,
        batch::batch_fault_text(batch::BatchFault::TrailingBytes)
            == "trailing decrypt batch bytes"@,
        batch::samples_fault_text(batch::SamplesFault::TooMany) == "too many decrypt samples"@,
        batch::samples_fault_text(batch::SamplesFault::SampleTooLarge)
            == "decrypt sample too large"@,
        batch::samples_fault_text(batch::SamplesFault::ResponseTooLarge)
            == "decrypt response too large"@,
{
}

/// Whether `starts` are the places where samples begin that stand behind their
/// number and the table of their lengths, and behind them the place where the
/// last one ends.
pub open spec fn are_answer_starts(samples: Seq<Seq<u8>>, starts: Seq<int>) -> bool {
    &&& starts.len() == samples.len() + 1
    &&& starts[0] == 4 + 4 * samples.len()
    &&& forall|i: int|
        0 <= i < samples.len() ==> #[trigger] starts[i + 1] == starts[i] + samples[i].len()
}

proof fn lemma_joined_starts(samples: Seq<Seq<u8>>, starts: Seq<int>, i: int)
    requires
        are_answer_starts(samples, starts),
        0 <= i <= samples.len(),
    ensures
        wire::joined(samples.take(i)).len() == starts[i] - starts[0],
    decreases i,
{
    if i > 0 {
        lemma_joined_starts(samples, starts, i - 1);
        wire::lemma_take_next(samples, i - 1);
        assert(starts[(i - 1) + 1] == starts[i - 1] + samples[i - 1].len());
    } else {
        assert(samples.take(0) =~= Seq::<Seq<u8>>::empty());
    }
}

/// An answer holds the number of samples, then the length of each, then the bytes
/// of each, and nothing else.
pub proof fn answers_hold_the_samples(samples: Seq<Seq<u8>>, starts: Seq<int>)
    requires
        samples.len() <= 4294967295,
        forall|i: int| 0 <= i < samples.len() ==> (#[trigger] samples[i]).len() <= 4294967295,
        are_answer_starts(samples, starts),
    ensures
        ({
            let payload = batch::encode_samples(samples);
            &&& payload.len() == starts.last()
            &&& four_bytes(payload, 0) == samples.len()
            &&& forall|i: int|
                0 <= i < samples.len() ==> #[trigger] four_bytes(payload, 4 + 4 * i)
                    == samples[i].len()
            &&& forall|i: int|
                0 <= i < samples.len() ==> #[trigger] samples[i] == payload.subrange(
                    starts[i],
                    starts[i + 1],
                )
        }),
{
    let payload = batch::encode_samples(samples);
    let count = wire::be32_bytes(samples.len());
    let table = wire::length_table(samples);
    let data = wire::joined(samples);
    wire::lemma_length_table_len(samples);
    lemma_joined_starts(samples, starts, samples.len() as int);
    assert(samples.take(samples.len() as int) =~= samples);
    wire::be32_reads_back(samples.len(), seq![], table + data);
    assert(Seq::<u8>::empty() + count + (table + data) =~= payload);
    assert(four_bytes(payload, 0) == wire::be32(payload, 0));
    assert forall|i: int| 0 <= i < samples.len() implies #[trigger] four_bytes(payload, 4 + 4 * i)
        == samples[i].len() by {
        wire::length_table_reads_back(samples, i, count, data);
    }
    assert forall|i: int| 0 <= i < samples.len() implies #[trigger] samples[i] == payload.subrange(
        starts[i],
        starts[i + 1],
    ) by {
        wire::lemma_joined_part(samples, i);
        lemma_joined_starts(samples, starts, i);
        lemma_joined_starts(samples, starts, i + 1);
        wire::lemma_take_next(samples, i);
        assert(starts[i + 1] == starts[i] + samples[i].len());
        assert(payload.subrange(starts[i], starts[i + 1]) =~= data.subrange(
            starts[i] - starts[0],
            starts[i + 1] - starts[0],
        ));
    }
}

proof fn lemma_no_fault(samples: Seq<Seq<u8>>, starts: Seq<int>, i: int, m: int)
    requires
        are_answer_starts(samples, starts),
        0 <= i <= m <= samples.len(),
        forall|j: int| 0 <= j < m ==> (#[trigger] samples[j]).len() <= 4294967295,
        forall|j: int| 0 <= j <= m ==> #[trigger] starts[j] <= usize::MAX,
    ensures
        batch::size_fault(samples.skip(i), starts[i]) == batch::size_fault(
            samples.skip(m),
            starts[m],
        ),
    decreases m - i,
{
    if i < m {
        lemma_no_fault(samples, starts, i + 1, m);
        assert(samples.skip(i)[0] == samples[i]);
        assert(samples.skip(i).drop_first() =~= samples.skip(i + 1));
        assert(starts[i + 1] == starts[i] + samples[i].len());
    }
}

proof fn lemma_answer_starts_grow(samples: Seq<Seq<u8>>, starts: Seq<int>, i: int, j: int)
    requires
        are_answer_starts(samples, starts),
        0 <= i <= j < starts.len(),
    ensures
        starts[i] <= starts[j],
    decreases j - i,
{
    if i < j {
        lemma_answer_starts_grow(samples, starts, i, j - 1);
        assert(starts[(j - 1) + 1] == starts[j - 1] + samples[j - 1].len());
    }
}

/// Samples that can be counted, measured and held are answered.
pub proof fn samples_that_fit_are_answered(samples: Seq<Seq<u8>>, starts: Seq<int>)
    requires
        samples.len() <= 4294967295,
        forall|i: int| 0 <= i < samples.len() ==> (#[trigger] samples[i]).len() <= 4294967295,
        are_answer_starts(samples, starts),
        starts.last() <= usize::MAX,
    ensures
        batch::samples_fault(samples) is None,
{
    let n = samples.len() as int;
    assert forall|j: int| 0 <= j <= n implies #[trigger] starts[j] <= usize::MAX by {
        lemma_answer_starts_grow(samples, starts, j, n);
    }
    lemma_no_fault(samples, starts, 0, n);
    assert(samples.skip(0) =~= samples);
    assert(samples.skip(n) =~= Seq::<Seq<u8>>::empty());
}

/// Samples that cannot be counted, measured or held are refused for the first of
/// these that shows; `m` is the first sample that cannot be added.
pub proof fn samples_that_do_not_fit_are_refused(
    samples: Seq<Seq<u8>>,
    starts: Seq<int>,
    m: int,
)
    requires
        are_answer_starts(samples, starts),
    ensures
        samples.len() > 4294967295 ==> batch::samples_fault(samples) == Some(
            batch::SamplesFault::TooMany,
        ),
        samples.len() <= 4294967295 && starts[0] > usize::MAX ==> batch::samples_fault(samples)
            == Some(batch::SamplesFault::ResponseTooLarge),
        samples.len() <= 4294967295 && 0 <= m < samples.len() && starts[m] <= usize::MAX && (
        forall|j: int| 0 <= j < m ==> (#[trigger] samples[j]).len() <= 4294967295) ==> {
            &&& samples[m].len() > 4294967295 ==> batch::samples_fault(samples) == Some(
                batch::SamplesFault::SampleTooLarge,
            )
            &&& samples[m].len() <= 4294967295 && starts[m + 1] > usize::MAX
                ==> batch::samples_fault(samples) == Some(batch::SamplesFault::ResponseTooLarge)
        },
{
    if samples.len() <= 4294967295 && 0 <= m < samples.len() && starts[m] <= usize::MAX && (forall|
        j: int,
    |
        0 <= j < m ==> (#[trigger] samples[j]).len() <= 4294967295) {
        assert forall|j: int| 0 <= j <= m implies #[trigger] starts[j] <= usize::MAX by {
            lemma_answer_starts_grow(samples, starts, j, m);
        }
        lemma_no_fault(samples, starts, 0, m);
        assert(samples.skip(0) =~= samples);
        assert(samples.skip(m)[0] == samples[m]);
        assert(starts[m + 1] == starts[m] + samples[m].len());
    }
}

/// The views of byte vectors are those of each.
pub proof fn byte_vectors_are_viewed_one_by_one(vectors: Seq<Vec<u8>>)
    ensures
        wire::byte_views(vectors).len() == vectors.len(),
        forall|i: int|
            0 <= i < vectors.len() ==> wire::byte_views(vectors)[i] == #[trigger] vectors[i]@,
{
}

} // verus!
