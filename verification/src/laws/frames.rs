//! Frames of the decrypt protocol, byte by byte, and what each is answered.

use vstd::prelude::*;
use vstd::utf8::*;

use crate::batch;
use crate::decrypt;
use crate::error;
use crate::error::IoErrorKind;
use crate::laws::batches;
use crate::wire;

verus! {

/// A frame is the letters `WV2D`, the version 1, its kind, the request id and the
/// length of the payload, all with the highest byte first, and then the payload.
pub proof fn frames_are_laid_out(frame: decrypt::FrameView)
    requires
        frame.payload.len() <= 4294967295,
    ensures
        ({
            let bytes = decrypt::encode_frame(frame);
            &&& bytes.len() == 16 + frame.payload.len()
            &&& bytes.take(4) == seq![87u8, 86u8, 50u8, 68u8]
            &&& batches::two_bytes(bytes, 4) == 1
            &&& batches::two_bytes(bytes, 6) == frame.kind
            &&& batches::four_bytes(bytes, 8) == frame.request_id
            &&& batches::four_bytes(bytes, 12) == frame.payload.len()
            &&& bytes.skip(16) == frame.payload
        }),
{
    let bytes = decrypt::encode_frame(frame);
    let front = bytes.take(16);
    decrypt::frame_reads_back(frame);
    assert(decrypt::decode_header(front) is Some);
    assert(front.take(4) =~= bytes.take(4));
    assert(wire::be16(front, 4) == batches::two_bytes(bytes, 4));
    wire::be16_writes_back(front, 6);
    wire::be32_writes_back(front, 8);
    wire::be32_writes_back(front, 12);
    assert(wire::be16(front, 6) == batches::two_bytes(bytes, 6));
    assert(wire::be32(front, 8) == batches::four_bytes(bytes, 8));
    assert(wire::be32(front, 12) == batches::four_bytes(bytes, 12));
}

/// Sixteen bytes are the front of a frame just where they begin with `WV2D` and
/// the version 1, and then give its kind, the request id and the payload's length.
pub proof fn headers_are_read(bytes: Seq<u8>)
    ensures
        decrypt::decode_header(bytes) is Some == (bytes.len() == 16 && bytes.take(4) == seq![
            87u8,
            86u8,
            50u8,
            68u8,
        ] && batches::two_bytes(bytes, 4) == 1),
        decrypt::decode_header(bytes) matches Some(header) ==> header.kind == batches::two_bytes(bytes, 6)
            && header.request_id == batches::four_bytes(bytes, 8) && header.payload_len == batches::four_bytes(
            bytes,
            12,
        ),
{
    assert(decrypt::frame_magic() =~= seq![87u8, 86u8, 50u8, 68u8]);
    if decrypt::decode_header(bytes) is Some {
        wire::be16_writes_back(bytes, 6);
        wire::be32_writes_back(bytes, 8);
        wire::be32_writes_back(bytes, 12);
    }
}

/// The kinds of frames have their numbers.
pub proof fn kinds_have_their_numbers()
    ensures
        decrypt::DECRYPT_KIND_BATCH == 1,
        decrypt::DECRYPT_KIND_OK == 2,
        decrypt::DECRYPT_KIND_ERROR == 3,
        decrypt::DECRYPT_KIND_CLOSE == 9,
        decrypt::DECRYPT_VERSION == 1,
        decrypt::FRAME_HEADER_LEN == 16,
{
}

/// Kind 9 closes, kind 1 is read as a batch, and every other kind is refused with
/// an error frame for the same request.
pub proof fn frames_are_answered_by_kind(frame: decrypt::FrameView)
    ensures
        frame.kind == 9 ==> decrypt::step_for(frame) == decrypt::StepView::Close,
        frame.kind == 1 ==> (batch::decode_batch(frame.payload) matches Ok(read)
            ==> decrypt::step_for(frame) == (decrypt::StepView::Decrypt {
            request_id: frame.request_id,
            batch: read,
        })),
        frame.kind == 1 ==> (batch::decode_batch(frame.payload) matches Err(fault)
            ==> decrypt::step_for(frame) == decrypt::StepView::Refuse(
            decrypt::FrameView {
                kind: 3,
                request_id: frame.request_id,
                payload: encode_utf8(batch::batch_fault_text(fault)),
            },
        )),
        frame.kind != 9 && frame.kind != 1 ==> decrypt::step_for(frame)
            == decrypt::StepView::Refuse(
            decrypt::FrameView {
                kind: 3,
                request_id: frame.request_id,
                payload: encode_utf8("unsupported decrypt frame kind"@),
            },
        ),
{
}

/// Plaintexts that fit are answered with a frame of kind 2 for the same request;
/// a failure of the worker is told in a frame of kind 3 and ends the connection.
pub proof fn outcomes_are_answered(request_id: u32, plaintexts: Seq<Seq<u8>>, message: Seq<char>)
    ensures
        batch::samples_fault(plaintexts) is None ==> decrypt::reply_for(request_id, Ok(plaintexts))
            == decrypt::ReplyView::Answer(
            decrypt::FrameView {
                kind: 2,
                request_id,
                payload: batch::encode_samples(plaintexts),
            },
        ),
        batch::samples_fault(plaintexts) matches Some(fault) ==> decrypt::reply_for(
            request_id,
            Ok(plaintexts),
        ) == decrypt::ReplyView::Fail(
            error::IoErrorView {
                kind: IoErrorKind::InvalidInput,
                message: batch::samples_fault_text(fault),
            },
        ),
        decrypt::reply_for(request_id, Err(message)) == decrypt::ReplyView::Abort(
            decrypt::FrameView { kind: 3, request_id, payload: encode_utf8(message) },
            error::IoErrorView { kind: IoErrorKind::Other, message },
        ),
        decrypt::error_frame(request_id, message) == (decrypt::FrameView {
            kind: 3,
            request_id,
            payload: encode_utf8(message),
        }),
{
}

} // verus!
