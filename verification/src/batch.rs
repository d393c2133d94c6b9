//! Payloads of the decrypt protocol: the batch that a client sends and the
//! samples that it gets back.

use vstd::prelude::*;
use vstd::slice::{slice_subrange, slice_to_vec};
use vstd::utf8::*;

use crate::error;
use crate::error::{IoError, IoErrorKind};
use crate::text::utf8_text;
use crate::wire;

verus! {

/// The most bytes that one sample of a batch may have.
pub const MAX_SAMPLE_LEN: u32 = 67108864;

/// Why a batch payload is refused.
pub enum BatchFault {
    TooShort,
    EmptyField,
    TooLarge,
    TruncatedHeader,
    SampleLength,
    AdamNotUtf8,
    UriNotUtf8,
    TruncatedSample,
    TrailingBytes,
}

/// What a batch payload says.
pub ghost struct BatchView {
    pub adam: Seq<char>,
    pub uri: Seq<char>,
    pub samples: Seq<Seq<u8>>,
}

/// The message for each fault of a batch payload.
pub open spec fn batch_fault_text(fault: BatchFault) -> Seq<char> {
    match fault {
        BatchFault::TooShort => "decrypt batch too short"@,
        BatchFault::EmptyField => "empty decrypt batch field"@,
        BatchFault::TooLarge => "decrypt batch too large"@,
        BatchFault::TruncatedHeader => "truncated decrypt batch header"@,
        BatchFault::SampleLength => "invalid decrypt sample length"@,
        BatchFault::AdamNotUtf8 => "adam_id is not utf-8"@,
        BatchFault::UriNotUtf8 => "uri is not utf-8"@,
        BatchFault::TruncatedSample => "truncated decrypt sample"@,
        BatchFault::TrailingBytes => "trailing decrypt batch bytes"@,
    }
}

/// Where the table of sample lengths ends.
pub open spec fn table_end(body: Seq<u8>) -> int {
    8int + 4 * wire::be32(body, 4)
}

/// Where the store id ends and the key URI begins.
pub open spec fn adam_end(body: Seq<u8>) -> int {
    table_end(body) + wire::be16(body, 0)
}

/// Where the key URI ends and the samples begin.
pub open spec fn uri_end(body: Seq<u8>) -> int {
    adam_end(body) + wire::be16(body, 2)
}

/// The length that the table gives for sample `i`.
pub open spec fn sample_len(body: Seq<u8>, i: int) -> nat {
    wire::be32(body, 8 + 4 * i)
}

pub open spec fn sample_len_allowed(n: nat) -> bool {
    0 < n <= MAX_SAMPLE_LEN
}

/// The samples from number `i` on, the first of which begins at `offset`.
pub open spec fn decode_samples(body: Seq<u8>, i: int, offset: int) -> Result<
    Seq<Seq<u8>>,
    BatchFault,
>
    decreases wire::be32(body, 4) - i,
{
    if i >= wire::be32(body, 4) {
        if offset == body.len() {
            Ok(seq![])
        } else {
            Err(BatchFault::TrailingBytes)
        }
    } else {
        let end = offset + sample_len(body, i);
        if end > usize::MAX {
            Err(BatchFault::TooLarge)
        } else if end > body.len() {
            Err(BatchFault::TruncatedSample)
        } else {
            match decode_samples(body, i + 1, end) {
                Ok(rest) => Ok(seq![body.subrange(offset, end)] + rest),
                Err(fault) => Err(fault),
            }
        }
    }
}

/// What a batch payload says, or the first fault in it.
pub open spec fn decode_batch(body: Seq<u8>) -> Result<BatchView, BatchFault> {
    if body.len() < 8 {
        Err(BatchFault::TooShort)
    } else if wire::be16(body, 0) == 0 || wire::be16(body, 2) == 0 || wire::be32(body, 4) == 0 {
        Err(BatchFault::EmptyField)
    } else if uri_end(body) > usize::MAX {
        Err(BatchFault::TooLarge)
    } else if body.len() < uri_end(body) {
        Err(BatchFault::TruncatedHeader)
    } else if exists|i: int|
        0 <= i < wire::be32(body, 4) && !sample_len_allowed(#[trigger] sample_len(body, i)) {
        Err(BatchFault::SampleLength)
    } else if !valid_utf8(body.subrange(table_end(body), adam_end(body))) {
        Err(BatchFault::AdamNotUtf8)
    } else if !valid_utf8(body.subrange(adam_end(body), uri_end(body))) {
        Err(BatchFault::UriNotUtf8)
    } else {
        match decode_samples(body, 0, uri_end(body)) {
            Ok(samples) => Ok(
                BatchView {
                    adam: decode_utf8(body.subrange(table_end(body), adam_end(body))),
                    uri: decode_utf8(body.subrange(adam_end(body), uri_end(body))),
                    samples,
                },
            ),
            Err(fault) => Err(fault),
        }
    }
}

fn batch_error(fault: BatchFault) -> (error: IoError)
    ensures
        error@ == (error::IoErrorView {
            kind: IoErrorKind::InvalidData,
            message: batch_fault_text(fault),
        }),
{
    let message: &str = match fault {
        BatchFault::TooShort => "decrypt batch too short",
        BatchFault::EmptyField => "empty decrypt batch field",
        BatchFault::TooLarge => "decrypt batch too large",
        BatchFault::TruncatedHeader => "truncated decrypt batch header",
        BatchFault::SampleLength => "invalid decrypt sample length",
        BatchFault::AdamNotUtf8 => "adam_id is not utf-8",
        BatchFault::UriNotUtf8 => "uri is not utf-8",
        BatchFault::TruncatedSample => "truncated decrypt sample",
        BatchFault::TrailingBytes => "trailing decrypt batch bytes",
    };
    IoError::new(IoErrorKind::InvalidData, message)
}

/// Where the fixed part of a batch ends, unless an address could not hold it.
fn fixed_ends(adam_len: usize, uri_len: usize, sample_count: usize) -> (ends: Option<
    (usize, usize, usize),
>)
    ensures
        match ends {
            Some((table, adam, uri)) => {
                &&& table == 8 + 4 * sample_count
                &&& adam == table + adam_len
                &&& uri == adam + uri_len
            },
            None => 8 + 4 * sample_count + adam_len + uri_len > usize::MAX,
        },
{
    let table_len = match sample_count.checked_mul(4) {
        Some(n) => n,
        None => return None,
    };
    let table = match table_len.checked_add(8) {
        Some(n) => n,
        None => return None,
    };
    let adam = match table.checked_add(adam_len) {
        Some(n) => n,
        None => return None,
    };
    match adam.checked_add(uri_len) {
        Some(uri) => Some((table, adam, uri)),
        None => None,
    }
}

/// Reads a decrypt batch: the store id, the key URI and the encrypted samples.
pub fn parse_decrypt_batch_payload(body: &[u8]) -> (result: Result<
    (String, String, Vec<Vec<u8>>),
    IoError,
>)
    ensures
        match result {
            Ok((adam, uri, samples)) => decode_batch(body@) == Ok::<BatchView, BatchFault>(
                BatchView { adam: adam@, uri: uri@, samples: wire::byte_views(samples@) },
            ),
            Err(error) => decode_batch(body@) matches Err(fault) && error@ == (error::IoErrorView {
                kind: IoErrorKind::InvalidData,
                message: batch_fault_text(fault),
            }),
        },
{
    if body.len() < 8 {
        return Err(batch_error(BatchFault::TooShort));
    }
    let adam_len: usize = wire::read_be16(body, 0) as usize;
    let uri_len: usize = wire::read_be16(body, 2) as usize;
    let sample_count: usize = wire::read_be32(body, 4) as usize;
    if adam_len == 0 || uri_len == 0 || sample_count == 0 {
        return Err(batch_error(BatchFault::EmptyField));
    }
    let (table, adam_stop, uri_stop) = match fixed_ends(adam_len, uri_len, sample_count) {
        Some(ends) => ends,
        None => return Err(batch_error(BatchFault::TooLarge)),
    };
    if body.len() < uri_stop {
        return Err(batch_error(BatchFault::TruncatedHeader));
    }
    let mut lengths: Vec<usize> = Vec::with_capacity(sample_count);
    let mut i: usize = 0;
    while i < sample_count
        invariant
            i <= sample_count,
            sample_count == wire::be32(body@, 4),
            table == 8 + 4 * sample_count,
            table <= body@.len(),
            lengths@.len() == i,
            forall|j: int|
                0 <= j < i ==> lengths@[j] == #[trigger] sample_len(body@, j) && sample_len_allowed(
                    sample_len(body@, j),
                ),
            (exists|k: int|
                0 <= k < wire::be32(body@, 4) && !sample_len_allowed(
                    #[trigger] sample_len(body@, k),
                )) ==> decode_batch(body@) == Err::<BatchView, BatchFault>(
                BatchFault::SampleLength,
            ),
        decreases sample_count - i,
    {
        let len = wire::read_be32(body, 8 + i * 4);
        assert(len == sample_len(body@, i as int));
        if len == 0 || len > MAX_SAMPLE_LEN {
            return Err(batch_error(BatchFault::SampleLength));
        }
        lengths.push(len as usize);
        i += 1;
    }
    let adam = match utf8_text(slice_to_vec(slice_subrange(body, table, adam_stop))) {
        Some(text) => text,
        None => return Err(batch_error(BatchFault::AdamNotUtf8)),
    };
    let uri = match utf8_text(slice_to_vec(slice_subrange(body, adam_stop, uri_stop))) {
        Some(text) => text,
        None => return Err(batch_error(BatchFault::UriNotUtf8)),
    };
    let mut offset: usize = uri_stop;
    let mut samples: Vec<Vec<u8>> = Vec::with_capacity(sample_count);
    let mut k: usize = 0;
    while k < sample_count
        invariant
            k <= sample_count,
            sample_count == wire::be32(body@, 4),
            lengths@.len() == sample_count,
            forall|j: int| 0 <= j < sample_count ==> lengths@[j] == #[trigger] sample_len(body@, j),
            offset <= body@.len(),
            samples@.len() == k,
            match decode_samples(body@, k as int, offset as int) {
                Ok(rest) => decode_samples(body@, 0, uri_end(body@)) == Ok::<
                    Seq<Seq<u8>>,
                    BatchFault,
                >(wire::byte_views(samples@) + rest),
                Err(fault) => decode_samples(body@, 0, uri_end(body@)) == Err::<
                    Seq<Seq<u8>>,
                    BatchFault,
                >(fault),
            },
            match decode_samples(body@, 0, uri_end(body@)) {
                Ok(all) => decode_batch(body@) == Ok::<BatchView, BatchFault>(
                    BatchView { adam: adam@, uri: uri@, samples: all },
                ),
                Err(fault) => decode_batch(body@) == Err::<BatchView, BatchFault>(fault),
            },
        decreases sample_count - k,
    {
        assert(lengths@[k as int] == sample_len(body@, k as int));
        let end = match offset.checked_add(lengths[k]) {
            Some(end) => end,
            None => return Err(batch_error(BatchFault::TooLarge)),
        };
        if end > body.len() {
            return Err(batch_error(BatchFault::TruncatedSample));
        }
        let ghost before = wire::byte_views(samples@);
        samples.push(slice_to_vec(slice_subrange(body, offset, end)));
        assert(wire::byte_views(samples@) =~= before.push(body@.subrange(offset as int, end as int)));
        proof {
            if let Ok(rest) = decode_samples(body@, k + 1, end as int) {
                assert(before + (seq![body@.subrange(offset as int, end as int)] + rest)
                    =~= wire::byte_views(samples@) + rest);
            }
        }
        offset = end;
        k += 1;
    }
    if offset != body.len() {
        return Err(batch_error(BatchFault::TrailingBytes));
    }
    assert(wire::byte_views(samples@) + Seq::<Seq<u8>>::empty() =~= wire::byte_views(samples@));
    Ok((adam, uri, samples))
}

/// Why samples cannot be sent.
pub enum SamplesFault {
    TooMany,
    SampleTooLarge,
    ResponseTooLarge,
}

/// The message for each fault of samples to be sent.
pub open spec fn samples_fault_text(fault: SamplesFault) -> Seq<char> {
    match fault {
        SamplesFault::TooMany => "too many decrypt samples"@,
        SamplesFault::SampleTooLarge => "decrypt sample too large"@,
        SamplesFault::ResponseTooLarge => "decrypt response too large"@,
    }
}

/// The first fault in adding `samples` to a payload of `size` bytes.
pub open spec fn size_fault(samples: Seq<Seq<u8>>, size: int) -> Option<SamplesFault>
    decreases samples.len(),
{
    if samples.len() == 0 {
        None
    } else if samples[0].len() > u32::MAX {
        Some(SamplesFault::SampleTooLarge)
    } else if size + samples[0].len() > usize::MAX {
        Some(SamplesFault::ResponseTooLarge)
    } else {
        size_fault(samples.drop_first(), size + samples[0].len())
    }
}

/// The first fault of samples to be sent.
pub open spec fn samples_fault(samples: Seq<Seq<u8>>) -> Option<SamplesFault> {
    if samples.len() > u32::MAX {
        Some(SamplesFault::TooMany)
    } else if 4 + 4 * samples.len() > usize::MAX {
        Some(SamplesFault::ResponseTooLarge)
    } else {
        size_fault(samples, 4int + 4 * samples.len())
    }
}

/// The payload of an answer: the number of samples, their lengths, their bytes.
pub open spec fn encode_samples(samples: Seq<Seq<u8>>) -> Seq<u8> {
    wire::be32_bytes(samples.len()) + wire::length_table(samples) + wire::joined(samples)
}

fn samples_error(fault: SamplesFault) -> (error: IoError)
    ensures
        error@ == (error::IoErrorView {
            kind: IoErrorKind::InvalidInput,
            message: samples_fault_text(fault),
        }),
{
    let message: &str = match fault {
        SamplesFault::TooMany => "too many decrypt samples",
        SamplesFault::SampleTooLarge => "decrypt sample too large",
        SamplesFault::ResponseTooLarge => "decrypt response too large",
    };
    IoError::new(IoErrorKind::InvalidInput, message)
}

/// Where `size_fault` finds nothing, every length fits in the table.
pub proof fn lemma_no_size_fault(samples: Seq<Seq<u8>>, size: int)
    requires
        size_fault(samples, size) is None,
    ensures
        forall|i: int| 0 <= i < samples.len() ==> (#[trigger] samples[i]).len() <= u32::MAX,
    decreases samples.len(),
{
    if samples.len() > 0 {
        lemma_no_size_fault(samples.drop_first(), size + samples[0].len());
        assert forall|i: int| 0 <= i < samples.len() implies (#[trigger] samples[i]).len()
            <= u32::MAX by {
            if i > 0 {
                assert(samples[i] == samples.drop_first()[i - 1]);
            }
        }
    }
}

/// Writes decrypted samples as the payload of an answer.
pub fn build_decrypt_samples_payload(samples: &[Vec<u8>]) -> (result: Result<Vec<u8>, IoError>)
    ensures
        match result {
            Ok(payload) => {
                &&& samples_fault(wire::byte_views(samples@)) is None
                &&& payload@ == encode_samples(wire::byte_views(samples@))
            },
            Err(error) => samples_fault(wire::byte_views(samples@)) matches Some(fault) && error@
                == (error::IoErrorView {
                kind: IoErrorKind::InvalidInput,
                message: samples_fault_text(fault),
            }),
        },
{
    let ghost views = wire::byte_views(samples@);
    let count: usize = samples.len();
    if count > u32::MAX as usize {
        return Err(samples_error(SamplesFault::TooMany));
    }
    let mut size: usize = match count.checked_mul(4) {
        Some(table) => match table.checked_add(4) {
            Some(size) => size,
            None => return Err(samples_error(SamplesFault::ResponseTooLarge)),
        },
        None => return Err(samples_error(SamplesFault::ResponseTooLarge)),
    };
    let mut i: usize = 0;
    assert(views.skip(0) =~= views);
    while i < count
        invariant
            i <= count,
            count == samples@.len(),
            views == wire::byte_views(samples@),
            size_fault(views.skip(i as int), size as int) == samples_fault(views),
        decreases count - i,
    {
        let len: usize = samples[i].len();
        assert(views.skip(i as int)[0] == samples@[i as int]@);
        assert(views.skip(i as int).drop_first() =~= views.skip(i + 1));
        if len > u32::MAX as usize {
            return Err(samples_error(SamplesFault::SampleTooLarge));
        }
        size = match size.checked_add(len) {
            Some(size) => size,
            None => return Err(samples_error(SamplesFault::ResponseTooLarge)),
        };
        i += 1;
    }
    proof {
        lemma_no_size_fault(views, 4int + 4 * views.len());
    }
    let mut out: Vec<u8> = Vec::with_capacity(size);
    wire::push_be32(&mut out, count as u32);
    let ghost start = wire::be32_bytes(count as nat);
    let mut j: usize = 0;
    assert(views.take(0) =~= Seq::<Seq<u8>>::empty());
    assert(out@ =~= start + wire::length_table(views.take(0)));
    while j < count
        invariant
            j <= count,
            count == samples@.len(),
            views == wire::byte_views(samples@),
            forall|k: int| 0 <= k < views.len() ==> (#[trigger] views[k]).len() <= u32::MAX,
            out@ == start + wire::length_table(views.take(j as int)),
        decreases count - j,
    {
        assert(views[j as int] == samples@[j as int]@);
        wire::push_be32(&mut out, samples[j].len() as u32);
        proof {
            wire::lemma_take_next(views, j as int);
        }
        j += 1;
    }
    assert(views.take(count as int) =~= views);
    let ghost front = out@;
    let mut k: usize = 0;
    assert(out@ =~= front + wire::joined(views.take(0)));
    while k < count
        invariant
            k <= count,
            count == samples@.len(),
            views == wire::byte_views(samples@),
            out@ == front + wire::joined(views.take(k as int)),
        decreases count - k,
    {
        assert(views[k as int] == samples@[k as int]@);
        wire::push_bytes(&mut out, samples[k].as_slice());
        proof {
            wire::lemma_take_next(views, k as int);
        }
        k += 1;
    }
    Ok(out)
}

/// The payload that says `batch`.
pub open spec fn encode_batch(batch: BatchView) -> Seq<u8> {
    wire::be16_bytes(encode_utf8(batch.adam).len()) + wire::be16_bytes(
        encode_utf8(batch.uri).len(),
    ) + wire::be32_bytes(batch.samples.len()) + wire::length_table(batch.samples) + encode_utf8(
        batch.adam,
    ) + encode_utf8(batch.uri) + wire::joined(batch.samples)
}

/// Whether a payload can say `batch`.
pub open spec fn batch_allowed(batch: BatchView) -> bool {
    &&& 0 < encode_utf8(batch.adam).len() <= u16::MAX
    &&& 0 < encode_utf8(batch.uri).len() <= u16::MAX
    &&& 0 < batch.samples.len() <= u32::MAX
    &&& forall|i: int|
        0 <= i < batch.samples.len() ==> sample_len_allowed((#[trigger] batch.samples[i]).len())
    &&& encode_batch(batch).len() <= usize::MAX
}

/// Seven parts joined, taken apart again at each of their ends.
proof fn lemma_seven_parts(
    a: Seq<u8>,
    u: Seq<u8>,
    n: Seq<u8>,
    table: Seq<u8>,
    adam: Seq<u8>,
    uri: Seq<u8>,
    data: Seq<u8>,
)
    ensures
        ({
            let body = a + u + n + table + adam + uri + data;
            let t = (a.len() + u.len() + n.len() + table.len()) as int;
            &&& body == Seq::<u8>::empty() + a + (u + n + table + adam + uri + data)
            &&& body == a + u + (n + table + adam + uri + data)
            &&& body == a + u + n + (table + adam + uri + data)
            &&& body == a + u + n + table + (adam + uri + data)
            &&& body.len() == t + adam.len() + uri.len() + data.len()
            &&& body.subrange(t, t + adam.len()) == adam
            &&& body.subrange(t + adam.len(), t + adam.len() + uri.len()) == uri
            &&& body.skip(t + adam.len() + uri.len()) == data
        }),
{
    let body = a + u + n + table + adam + uri + data;
    let t = (a.len() + u.len() + n.len() + table.len()) as int;
    assert(body =~= Seq::<u8>::empty() + a + (u + n + table + adam + uri + data));
    assert(body =~= a + u + (n + table + adam + uri + data));
    assert(body =~= a + u + n + (table + adam + uri + data));
    assert(body =~= a + u + n + table + (adam + uri + data));
    assert(body.subrange(t, t + adam.len()) =~= adam);
    assert(body.subrange(t + adam.len(), t + adam.len() + uri.len()) =~= uri);
    assert(body.skip(t + adam.len() + uri.len()) =~= data);
}

/// An entry of the table of sample lengths that follows the first eight bytes.
proof fn lemma_table_entry(front: Seq<u8>, samples: Seq<Seq<u8>>, back: Seq<u8>, i: int)
    requires
        front.len() == 8,
        0 <= i < samples.len(),
        forall|j: int|
            0 <= j < samples.len() ==> sample_len_allowed((#[trigger] samples[j]).len()),
    ensures
        sample_len(front + wire::length_table(samples) + back, i) == samples[i].len(),
{
    wire::length_table_reads_back(samples, i, front, back);
}

/// The places of the parts of a payload.
#[verifier::spinoff_prover]
#[verifier::rlimit(60)]
proof fn lemma_batch_layout(batch: BatchView)
    requires
        batch_allowed(batch),
    ensures
        ({
            let body = encode_batch(batch);
            &&& wire::be16(body, 0) == encode_utf8(batch.adam).len()
            &&& wire::be16(body, 2) == encode_utf8(batch.uri).len()
            &&& wire::be32(body, 4) == batch.samples.len()
            &&& uri_end(body) <= body.len()
            &&& body.subrange(table_end(body), adam_end(body)) == encode_utf8(batch.adam)
            &&& body.subrange(adam_end(body), uri_end(body)) == encode_utf8(batch.uri)
            &&& body.skip(uri_end(body)) == wire::joined(batch.samples)
            &&& forall|i: int|
                0 <= i < batch.samples.len() ==> #[trigger] sample_len(body, i)
                    == batch.samples[i].len()
        }),
{
    let body = encode_batch(batch);
    let adam = encode_utf8(batch.adam);
    let uri = encode_utf8(batch.uri);
    let table = wire::length_table(batch.samples);
    let data = wire::joined(batch.samples);
    let a = wire::be16_bytes(adam.len());
    let u = wire::be16_bytes(uri.len());
    let n = wire::be32_bytes(batch.samples.len());
    wire::lemma_length_table_len(batch.samples);
    lemma_seven_parts(a, u, n, table, adam, uri, data);
    assert(wire::be16(body, 0) == adam.len()) by {
        wire::be16_reads_back(adam.len(), seq![], u + n + table + adam + uri + data);
    }
    assert(wire::be16(body, 2) == uri.len()) by {
        wire::be16_reads_back(uri.len(), a, n + table + adam + uri + data);
    }
    assert(wire::be32(body, 4) == batch.samples.len()) by {
        wire::be32_reads_back(batch.samples.len(), a + u, table + adam + uri + data);
    }
    assert forall|i: int| 0 <= i < batch.samples.len() implies #[trigger] sample_len(body, i)
        == batch.samples[i].len() by {
        lemma_table_entry(a + u + n, batch.samples, adam + uri + data, i);
    }
}

/// Reading on from sample `i` of a payload gives the samples from `i` on.
proof fn lemma_samples_read_back(batch: BatchView, i: int)
    requires
        batch_allowed(batch),
        0 <= i <= batch.samples.len(),
    ensures
        decode_samples(
            encode_batch(batch),
            i,
            uri_end(encode_batch(batch)) + wire::joined(batch.samples.take(i)).len(),
        ) == Ok::<Seq<Seq<u8>>, BatchFault>(batch.samples.skip(i)),
    decreases batch.samples.len() - i,
{
    let body = encode_batch(batch);
    let samples = batch.samples;
    lemma_batch_layout(batch);
    let offset = uri_end(body) + wire::joined(samples.take(i)).len();
    if i == samples.len() {
        assert(samples.take(i) =~= samples);
        assert(samples.skip(i) =~= Seq::<Seq<u8>>::empty());
    } else {
        lemma_samples_read_back(batch, i + 1);
        wire::lemma_take_next(samples, i);
        wire::lemma_joined_part(samples, i);
        let end = offset + sample_len(body, i);
        assert(sample_len(body, i) == samples[i].len());
        assert(body.subrange(offset, end) =~= body.skip(uri_end(body)).subrange(
            offset - uri_end(body),
            end - uri_end(body),
        ));
        assert(seq![samples[i]] + samples.skip(i + 1) =~= samples.skip(i));
    }
}

/// A batch that is written as a payload is read back as it was.
pub proof fn batch_reads_back(batch: BatchView)
    requires
        batch_allowed(batch),
    ensures
        decode_batch(encode_batch(batch)) == Ok::<BatchView, BatchFault>(batch),
{
    let body = encode_batch(batch);
    lemma_batch_layout(batch);
    lemma_samples_read_back(batch, 0);
    assert(batch.samples.take(0) =~= Seq::<Seq<u8>>::empty());
    assert(batch.samples.skip(0) =~= batch.samples);
    encode_utf8_valid_utf8(batch.adam);
    encode_utf8_valid_utf8(batch.uri);
    encode_utf8_decode_utf8(batch.adam);
    encode_utf8_decode_utf8(batch.uri);
    assert forall|i: int| 0 <= i < wire::be32(body, 4) implies sample_len_allowed(
        #[trigger] sample_len(body, i),
    ) by {
        assert(sample_len(body, i) == batch.samples[i].len());
    }
}

/// The samples that are read are the rest of the payload, cut as the table says.
proof fn lemma_samples_write_back(body: Seq<u8>, i: int, offset: int)
    requires
        0 <= i <= wire::be32(body, 4),
        0 <= offset <= body.len(),
        decode_samples(body, i, offset) is Ok,
    ensures
        ({
            let samples = decode_samples(body, i, offset)->Ok_0;
            &&& samples.len() == wire::be32(body, 4) - i
            &&& wire::joined(samples) == body.skip(offset)
            &&& forall|j: int|
                0 <= j < samples.len() ==> (#[trigger] samples[j]).len() == sample_len(body, i + j)
        }),
    decreases wire::be32(body, 4) - i,
{
    let samples = decode_samples(body, i, offset)->Ok_0;
    if i == wire::be32(body, 4) {
        assert(body.skip(offset) =~= Seq::<u8>::empty());
    } else {
        let end = offset + sample_len(body, i);
        lemma_samples_write_back(body, i + 1, end);
        let rest = decode_samples(body, i + 1, end)->Ok_0;
        wire::lemma_joined_front(body.subrange(offset, end), rest);
        assert(body.subrange(offset, end) + body.skip(end) =~= body.skip(offset));
        assert forall|j: int| 0 <= j < samples.len() implies (#[trigger] samples[j]).len()
            == sample_len(body, i + j) by {
            if j > 0 {
                assert(samples[j] == rest[j - 1]);
            }
        }
    }
}

/// The table of samples with the lengths of a payload is the payload's own.
proof fn lemma_table_writes_back(body: Seq<u8>, samples: Seq<Seq<u8>>)
    requires
        8 + 4 * samples.len() <= body.len(),
        forall|j: int|
            0 <= j < samples.len() ==> (#[trigger] samples[j]).len() == sample_len(body, j),
    ensures
        wire::length_table(samples) == body.subrange(8, 8int + 4 * samples.len()),
    decreases samples.len(),
{
    if samples.len() == 0 {
        assert(body.subrange(8, 8) =~= Seq::<u8>::empty());
    } else {
        let n = samples.len() - 1;
        assert forall|j: int| 0 <= j < n implies (#[trigger] samples.drop_last()[j]).len()
            == sample_len(body, j) by {
            assert(samples.drop_last()[j] == samples[j]);
        }
        lemma_table_writes_back(body, samples.drop_last());
        wire::be32_writes_back(body, 8 + 4 * n);
        assert(samples[n].len() == sample_len(body, n));
        assert(body.subrange(8, 8 + 4 * n) + body.subrange(8 + 4 * n, 8 + 4 * n + 4)
            =~= body.subrange(8, 8int + 4 * samples.len()));
    }
}

/// A payload that is accepted is the one that says what was read from it: no
/// two payloads say the same.
pub proof fn batch_writes_back(body: Seq<u8>)
    requires
        body.len() <= usize::MAX,
        decode_batch(body) is Ok,
    ensures
        batch_allowed(decode_batch(body)->Ok_0),
        encode_batch(decode_batch(body)->Ok_0) == body,
{
    let batch = decode_batch(body)->Ok_0;
    lemma_samples_write_back(body, 0, uri_end(body));
    lemma_table_writes_back(body, batch.samples);
    decode_utf8_encode_utf8(body.subrange(table_end(body), adam_end(body)));
    decode_utf8_encode_utf8(body.subrange(adam_end(body), uri_end(body)));
    wire::be16_writes_back(body, 0);
    wire::be16_writes_back(body, 2);
    wire::be32_writes_back(body, 4);
    assert(encode_batch(batch) =~= body) by {
        assert(body =~= body.subrange(0, 2) + body.subrange(2, 4) + body.subrange(4, 8)
            + body.subrange(8, table_end(body)) + body.subrange(table_end(body), adam_end(body))
            + body.subrange(adam_end(body), uri_end(body)) + body.skip(uri_end(body)));
    }
    assert forall|i: int| 0 <= i < batch.samples.len() implies sample_len_allowed(
        (#[trigger] batch.samples[i]).len(),
    ) by {
        assert(sample_len_allowed(sample_len(body, i)));
    }
}

/// Samples that are cut by the same table end at the same place.
proof fn lemma_same_end(a: Seq<u8>, b: Seq<u8>, i: int, offset: int)
    requires
        wire::be32(a, 4) == wire::be32(b, 4),
        forall|j: int| i <= j < wire::be32(a, 4) ==> #[trigger] sample_len(a, j) == sample_len(b, j),
        decode_samples(a, i, offset) is Ok,
        decode_samples(b, i, offset) is Ok,
    ensures
        a.len() == b.len(),
    decreases wire::be32(a, 4) - i,
{
    if i < wire::be32(a, 4) {
        assert(sample_len(a, i) == sample_len(b, i));
        lemma_same_end(a, b, i + 1, offset + sample_len(a, i));
    }
}

/// No payload that is accepted is the beginning of a longer one that is.
pub proof fn batches_are_prefix_free(body: Seq<u8>, rest: Seq<u8>)
    requires
        decode_batch(body) is Ok,
        decode_batch(body + rest) is Ok,
    ensures
        rest.len() == 0,
{
    let whole = body + rest;
    assert(forall|i: int| 0 <= i < body.len() ==> whole[i] == body[i]);
    assert(wire::be16(body, 0) == wire::be16(whole, 0));
    assert(wire::be16(body, 2) == wire::be16(whole, 2));
    assert(wire::be32(body, 4) == wire::be32(whole, 4));
    assert forall|j: int| 0 <= j < wire::be32(body, 4) implies #[trigger] sample_len(body, j)
        == sample_len(whole, j) by {
        assert(8 + 4 * j + 3 < body.len());
    }
    lemma_same_end(body, whole, 0, uri_end(body));
}

/// An answer's payload tells which samples it carries.
pub proof fn samples_payload_injective(a: Seq<Seq<u8>>, b: Seq<Seq<u8>>)
    requires
        samples_fault(a) is None,
        samples_fault(b) is None,
        encode_samples(a) == encode_samples(b),
    ensures
        a == b,
{
    let none = Seq::<u8>::empty();
    lemma_no_size_fault(a, 4int + 4 * a.len());
    lemma_no_size_fault(b, 4int + 4 * b.len());
    wire::be32_reads_back(a.len(), none, wire::length_table(a) + wire::joined(a));
    wire::be32_reads_back(b.len(), none, wire::length_table(b) + wire::joined(b));
    assert(none + wire::be32_bytes(a.len()) + (wire::length_table(a) + wire::joined(a))
        =~= encode_samples(a));
    assert(none + wire::be32_bytes(b.len()) + (wire::length_table(b) + wire::joined(b))
        =~= encode_samples(b));
    wire::lemma_length_table_len(a);
    wire::lemma_length_table_len(b);
    let end = 4int + 4 * a.len();
    assert(encode_samples(a).subrange(4, end) =~= wire::length_table(a));
    assert(encode_samples(b).subrange(4, end) =~= wire::length_table(b));
    assert(encode_samples(a).skip(end) =~= wire::joined(a));
    assert(encode_samples(b).skip(end) =~= wire::joined(b));
    wire::table_and_joined_injective(a, b);
}

} // verus!
