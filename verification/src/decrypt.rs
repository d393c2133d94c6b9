//! The decrypt protocol: its frames, and what a client's frame is answered.

use vstd::prelude::*;
use vstd::slice::slice_to_vec;
use vstd::utf8::*;
#[allow(unused_imports)]
use vstd::string::*;

use crate::batch;
use crate::batch::{build_decrypt_samples_payload, parse_decrypt_batch_payload};
use crate::error;
use crate::error::{IoError, IoErrorKind};
use crate::wire;
use crate::worker::{worker_io_error, WorkerError};

verus! {

pub const DECRYPT_VERSION: u16 = 1;

pub const DECRYPT_KIND_BATCH: u16 = 1;

pub const DECRYPT_KIND_OK: u16 = 2;

pub const DECRYPT_KIND_ERROR: u16 = 3;

pub const DECRYPT_KIND_CLOSE: u16 = 9;

/// The bytes of a frame before its payload.
pub const FRAME_HEADER_LEN: usize = 16;

/// One frame of the decrypt protocol.
#[derive(Debug)]
pub struct DecryptFrame {
    pub kind: u16,
    pub request_id: u32,
    pub payload: Vec<u8>,
}

/// What a [`DecryptFrame`] holds.
pub ghost struct FrameView {
    pub kind: u16,
    pub request_id: u32,
    pub payload: Seq<u8>,
}

impl View for DecryptFrame {
    type V = FrameView;

    open spec fn view(&self) -> FrameView {
        FrameView { kind: self.kind, request_id: self.request_id, payload: self.payload@ }
    }
}

/// What stands in a frame before its payload.
#[derive(Clone, Copy, Debug, PartialEq, Eq, Structural)]
pub struct FrameHeader {
    pub kind: u16,
    pub request_id: u32,
    pub payload_len: u32,
}

/// The bytes that begin every frame: `WV2D`.
pub open spec fn frame_magic() -> Seq<u8> {
    seq![0x57u8, 0x56u8, 0x32u8, 0x44u8]
}

/// The bytes before a payload.
pub open spec fn encode_header(header: FrameHeader) -> Seq<u8> {
    frame_magic() + wire::be16_bytes(DECRYPT_VERSION as nat) + wire::be16_bytes(header.kind as nat)
        + wire::be32_bytes(header.request_id as nat) + wire::be32_bytes(header.payload_len as nat)
}

/// The bytes of a frame.
pub open spec fn encode_frame(frame: FrameView) -> Seq<u8> {
    encode_header(
        FrameHeader {
            kind: frame.kind,
            request_id: frame.request_id,
            payload_len: frame.payload.len() as u32,
        },
    ) + frame.payload
}

/// What the bytes before a payload say, where they are those of a frame.
pub open spec fn decode_header(bytes: Seq<u8>) -> Option<FrameHeader> {
    if bytes.len() == FRAME_HEADER_LEN && bytes.take(4) == frame_magic() && wire::be16(bytes, 4)
        == DECRYPT_VERSION {
        Some(
            FrameHeader {
                kind: wire::be16(bytes, 6) as u16,
                request_id: wire::be32(bytes, 8) as u32,
                payload_len: wire::be32(bytes, 12) as u32,
            },
        )
    } else {
        None
    }
}

/// Reads the bytes before a payload.
pub fn parse_frame_header(bytes: &[u8]) -> (header: Option<FrameHeader>)
    ensures
        header == decode_header(bytes@),
{
    if bytes.len() != FRAME_HEADER_LEN {
        return None;
    }
    let magic = bytes[0] == 0x57 && bytes[1] == 0x56 && bytes[2] == 0x32 && bytes[3] == 0x44;
    assert(magic == (bytes@.take(4) == frame_magic())) by {
        if magic {
            assert(bytes@.take(4) =~= frame_magic());
        } else if bytes@.take(4) == frame_magic() {
            assert(bytes@.take(4)[0] == 0x57 && bytes@.take(4)[1] == 0x56 && bytes@.take(4)[2]
                == 0x32 && bytes@.take(4)[3] == 0x44);
        }
    }
    if !magic || wire::read_be16(bytes, 4) != DECRYPT_VERSION {
        return None;
    }
    Some(
        FrameHeader {
            kind: wire::read_be16(bytes, 6),
            request_id: wire::read_be32(bytes, 8),
            payload_len: wire::read_be32(bytes, 12),
        },
    )
}

/// Writes a frame, unless its payload is too long for the length field.
pub fn frame_bytes(frame: &DecryptFrame) -> (result: Result<Vec<u8>, IoError>)
    ensures
        match result {
            Ok(bytes) => frame.payload@.len() <= u32::MAX && bytes@ == encode_frame(frame@),
            Err(error) => frame.payload@.len() > u32::MAX && error@ == (error::IoErrorView {
                kind: IoErrorKind::InvalidInput,
                message: "decrypt frame too large"@,
            }),
        },
        frame.payload@.len() <= 4294967295 ==> (result matches Ok(bytes) && bytes@.len() == 16
            + frame.payload@.len() && bytes@.skip(16) == frame.payload@),
{
    if frame.payload.len() > u32::MAX as usize {
        return Err(IoError::new(IoErrorKind::InvalidInput, "decrypt frame too large"));
    }
    let mut out: Vec<u8> = Vec::new();
    out.push(0x57);
    out.push(0x56);
    out.push(0x32);
    out.push(0x44);
    assert(out@ =~= frame_magic());
    wire::push_be16(&mut out, DECRYPT_VERSION);
    wire::push_be16(&mut out, frame.kind);
    wire::push_be32(&mut out, frame.request_id);
    wire::push_be32(&mut out, frame.payload.len() as u32);
    wire::push_bytes(&mut out, frame.payload.as_slice());
    assert(out@.skip(16) =~= frame.payload@);
    Ok(out)
}

/// A frame that is written is read back: its header from the first bytes, its
/// payload from the rest.
pub proof fn frame_reads_back(frame: FrameView)
    requires
        frame.payload.len() <= u32::MAX,
    ensures
        decode_header(encode_frame(frame).take(FRAME_HEADER_LEN as int)) == Some(
            FrameHeader {
                kind: frame.kind,
                request_id: frame.request_id,
                payload_len: frame.payload.len() as u32,
            },
        ),
        encode_frame(frame).skip(FRAME_HEADER_LEN as int) == frame.payload,
{
    let header = FrameHeader {
        kind: frame.kind,
        request_id: frame.request_id,
        payload_len: frame.payload.len() as u32,
    };
    let m = frame_magic();
    let v = wire::be16_bytes(DECRYPT_VERSION as nat);
    let k = wire::be16_bytes(frame.kind as nat);
    let r = wire::be32_bytes(frame.request_id as nat);
    let n = wire::be32_bytes(frame.payload.len());
    let bytes = encode_header(header);
    assert(encode_frame(frame).take(16) =~= bytes);
    assert(encode_frame(frame).skip(16) =~= frame.payload);
    assert(bytes.take(4) =~= m);
    wire::be16_reads_back(DECRYPT_VERSION as nat, m, k + r + n);
    assert(m + v + (k + r + n) =~= bytes);
    wire::be16_reads_back(frame.kind as nat, m + v, r + n);
    assert(m + v + k + (r + n) =~= bytes);
    wire::be32_reads_back(frame.request_id as nat, m + v + k, n);
    assert(m + v + k + r + n =~= bytes);
    wire::be32_reads_back(frame.payload.len(), m + v + k + r, seq![]);
    assert(m + v + k + r + n + Seq::<u8>::empty() =~= bytes);
}

/// The frame that tells a client why its request came to nothing.
pub open spec fn error_frame(request_id: u32, message: Seq<char>) -> FrameView {
    FrameView { kind: DECRYPT_KIND_ERROR, request_id, payload: encode_utf8(message) }
}

/// What is done about a client's frame.
#[derive(Debug)]
pub enum DecryptStep {
    /// Close the connection.
    Close,
    /// Send this frame and close the connection.
    Refuse(DecryptFrame),
    /// Have the worker decrypt the samples.
    Decrypt { request_id: u32, adam: String, uri: String, samples: Vec<Vec<u8>> },
}

/// What a [`DecryptStep`] says.
pub ghost enum StepView {
    Close,
    Refuse(FrameView),
    Decrypt { request_id: u32, batch: batch::BatchView },
}

impl View for DecryptStep {
    type V = StepView;

    open spec fn view(&self) -> StepView {
        match self {
            DecryptStep::Close => StepView::Close,
            DecryptStep::Refuse(frame) => StepView::Refuse(frame@),
            DecryptStep::Decrypt { request_id, adam, uri, samples } => StepView::Decrypt {
                request_id: *request_id,
                batch: batch::BatchView {
                    adam: adam@,
                    uri: uri@,
                    samples: wire::byte_views(samples@),
                },
            },
        }
    }
}

/// What is done about each frame: a close frame ends the connection, a sound
/// batch goes to the worker, all else is refused.
pub open spec fn step_for(frame: FrameView) -> StepView {
    if frame.kind == DECRYPT_KIND_CLOSE {
        StepView::Close
    } else if frame.kind != DECRYPT_KIND_BATCH {
        StepView::Refuse(error_frame(frame.request_id, "unsupported decrypt frame kind"@))
    } else {
        match batch::decode_batch(frame.payload) {
            Ok(batch) => StepView::Decrypt { request_id: frame.request_id, batch },
            Err(fault) => StepView::Refuse(
                error_frame(frame.request_id, batch::batch_fault_text(fault)),
            ),
        }
    }
}

/// The frame that tells a client why its request came to nothing.
pub fn write_decrypt_error(request_id: u32, message: &str) -> (frame: DecryptFrame)
    ensures
        frame@ == error_frame(request_id, message@),
{
    DecryptFrame {
        kind: DECRYPT_KIND_ERROR,
        request_id,
        payload: slice_to_vec(message.as_bytes()),
    }
}

/// Decides what is done about a client's frame.
pub fn decrypt_request(frame: &DecryptFrame) -> (step: DecryptStep)
    ensures
        step@ == step_for(frame@),
{
    if frame.kind == DECRYPT_KIND_CLOSE {
        return DecryptStep::Close;
    }
    if frame.kind != DECRYPT_KIND_BATCH {
        return DecryptStep::Refuse(
            write_decrypt_error(frame.request_id, "unsupported decrypt frame kind"),
        );
    }
    match parse_decrypt_batch_payload(frame.payload.as_slice()) {
        Ok((adam, uri, samples)) => DecryptStep::Decrypt {
            request_id: frame.request_id,
            adam,
            uri,
            samples,
        },
        Err(e) => DecryptStep::Refuse(write_decrypt_error(frame.request_id, e.message.as_str())),
    }
}

/// What is done once the worker has answered a batch.
#[derive(Debug)]
pub enum DecryptReply {
    /// Send this frame and read the next one.
    Answer(DecryptFrame),
    /// Send this frame, shut the connection down and end with this error.
    Abort(DecryptFrame, IoError),
    /// End with this error.
    Fail(IoError),
}

/// What a [`DecryptReply`] says.
pub ghost enum ReplyView {
    Answer(FrameView),
    Abort(FrameView, error::IoErrorView),
    Fail(error::IoErrorView),
}

impl View for DecryptReply {
    type V = ReplyView;

    open spec fn view(&self) -> ReplyView {
        match self {
            DecryptReply::Answer(frame) => ReplyView::Answer(frame@),
            DecryptReply::Abort(frame, error) => ReplyView::Abort(frame@, error@),
            DecryptReply::Fail(error) => ReplyView::Fail(error@),
        }
    }
}

/// What came of a batch: the plaintexts, or the message of the worker's error.
pub open spec fn decrypted(result: Result<Vec<Vec<u8>>, WorkerError>) -> Result<
    Seq<Seq<u8>>,
    Seq<char>,
> {
    match result {
        Ok(plaintexts) => Ok(wire::byte_views(plaintexts@)),
        Err(e) => Err(e@),
    }
}

/// What is done about each outcome of a batch.
pub open spec fn reply_for(request_id: u32, result: Result<Seq<Seq<u8>>, Seq<char>>) -> ReplyView {
    match result {
        Ok(plaintexts) => match batch::samples_fault(plaintexts) {
            None => ReplyView::Answer(
                FrameView {
                    kind: DECRYPT_KIND_OK,
                    request_id,
                    payload: batch::encode_samples(plaintexts),
                },
            ),
            Some(fault) => ReplyView::Fail(
                error::IoErrorView {
                    kind: IoErrorKind::InvalidInput,
                    message: batch::samples_fault_text(fault),
                },
            ),
        },
        Err(message) => ReplyView::Abort(
            error_frame(request_id, message),
            error::IoErrorView { kind: IoErrorKind::Other, message },
        ),
    }
}

/// Decides what is done once the worker has answered a batch.
pub fn decrypt_reply(request_id: u32, result: Result<Vec<Vec<u8>>, WorkerError>) -> (reply:
    DecryptReply)
    ensures
        reply@ == reply_for(request_id, decrypted(result)),
{
    match result {
        Ok(plaintexts) => match build_decrypt_samples_payload(plaintexts.as_slice()) {
            Ok(payload) => DecryptReply::Answer(
                DecryptFrame { kind: DECRYPT_KIND_OK, request_id, payload },
            ),
            Err(e) => DecryptReply::Fail(e),
        },
        Err(e) => {
            let frame = write_decrypt_error(request_id, e.message.as_str());
            DecryptReply::Abort(frame, worker_io_error(e))
        },
    }
}

/// Every frame that is sent back bears the id of the request it answers.
pub proof fn replies_bear_the_request_id(
    frame: FrameView,
    result: Result<Seq<Seq<u8>>, Seq<char>>,
)
    ensures
        step_for(frame) matches StepView::Refuse(sent) ==> sent.request_id == frame.request_id,
        step_for(frame) matches StepView::Decrypt { request_id, .. } ==> request_id
            == frame.request_id,
        reply_for(frame.request_id, result) matches ReplyView::Answer(sent) ==> sent.request_id
            == frame.request_id,
        reply_for(frame.request_id, result) matches ReplyView::Abort(sent, _) ==> sent.request_id
            == frame.request_id,
{
}

/// The payload of every error frame is a UTF-8 message: for a worker's error,
/// the message that also ends the connection.
pub proof fn error_payloads_are_utf8(frame: FrameView, result: Result<Seq<Seq<u8>>, Seq<char>>)
    ensures
        step_for(frame) matches StepView::Refuse(sent) ==> sent.kind == DECRYPT_KIND_ERROR
            && valid_utf8(sent.payload),
        reply_for(frame.request_id, result) matches ReplyView::Abort(sent, error) ==> sent.kind
            == DECRYPT_KIND_ERROR && valid_utf8(sent.payload) && decode_utf8(sent.payload)
            == error.message,
{
    broadcast use {encode_utf8_valid_utf8, encode_utf8_decode_utf8};

}

/// A batch that a client writes into a frame reaches the worker as it was
/// written, under the frame's request id.
pub proof fn batches_reach_the_worker(request_id: u32, batch: batch::BatchView)
    requires
        batch::batch_allowed(batch),
    ensures
        step_for(
            FrameView { kind: DECRYPT_KIND_BATCH, request_id, payload: batch::encode_batch(batch) },
        ) == (StepView::Decrypt { request_id, batch }),
{
    batch::batch_reads_back(batch);
}

/// Two requests that succeed are answered alike only if their ids and their
/// plaintexts are the same.
pub proof fn answers_tell_plaintexts_apart(
    id_a: u32,
    a: Seq<Seq<u8>>,
    id_b: u32,
    b: Seq<Seq<u8>>,
)
    requires
        reply_for(id_a, Ok(a)) is Answer,
        reply_for(id_a, Ok(a)) == reply_for(id_b, Ok(b)),
    ensures
        id_a == id_b,
        a == b,
{
    batch::samples_payload_injective(a, b);
}

/// Nothing reaches the worker but a batch frame whose payload says exactly that
/// batch.
pub proof fn only_batches_reach_the_worker(frame: FrameView)
    requires
        frame.payload.len() <= usize::MAX,
    ensures
        step_for(frame) matches StepView::Decrypt { batch, .. } ==> frame.kind
            == DECRYPT_KIND_BATCH && batch::batch_allowed(batch) && frame.payload
            == batch::encode_batch(batch),
{
    if step_for(frame) is Decrypt {
        batch::batch_writes_back(frame.payload);
    }
}

} // verus!
