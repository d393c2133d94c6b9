use wrappr::batch::{build_decrypt_samples_payload, parse_decrypt_batch_payload};
use wrappr::decrypt::{
    decrypt_reply, decrypt_request, frame_bytes, parse_frame_header, write_decrypt_error,
    DecryptFrame, DecryptReply, DecryptStep, FrameHeader, DECRYPT_KIND_BATCH, DECRYPT_KIND_CLOSE,
    DECRYPT_KIND_ERROR, DECRYPT_KIND_OK,
};
use wrappr::error::IoErrorKind;
use wrappr::worker::{worker_io_error, WorkerError};

fn batch(adam: &[u8], uri: &[u8], samples: &[&[u8]]) -> Vec<u8> {
    let mut out = Vec::new();
    out.extend_from_slice(&(adam.len() as u16).to_be_bytes());
    out.extend_from_slice(&(uri.len() as u16).to_be_bytes());
    out.extend_from_slice(&(samples.len() as u32).to_be_bytes());
    for sample in samples {
        out.extend_from_slice(&(sample.len() as u32).to_be_bytes());
    }
    out.extend_from_slice(adam);
    out.extend_from_slice(uri);
    for sample in samples {
        out.extend_from_slice(sample);
    }
    out
}

fn batch_fault(body: &[u8]) -> String {
    let error = parse_decrypt_batch_payload(body).unwrap_err();
    assert_eq!(error.kind, IoErrorKind::InvalidData);
    error.message
}

#[test]
fn batch_is_read() {
    let body = batch(b"1440833098", "skd://itunes.apple.com/é".as_bytes(), &[b"abc", b"d"]);
    let (adam, uri, samples) = parse_decrypt_batch_payload(&body).unwrap();
    assert_eq!(adam, "1440833098");
    assert_eq!(uri, "skd://itunes.apple.com/é");
    assert_eq!(samples, vec![b"abc".to_vec(), b"d".to_vec()]);
}

#[test]
fn batch_too_short() {
    assert_eq!(batch_fault(&[]), "decrypt batch too short");
    assert_eq!(batch_fault(&[0, 1, 0, 1, 0, 0, 0]), "decrypt batch too short");
}

#[test]
fn batch_with_empty_fields() {
    assert_eq!(batch_fault(&batch(b"", b"u", &[b"s"])), "empty decrypt batch field");
    assert_eq!(batch_fault(&batch(b"a", b"", &[b"s"])), "empty decrypt batch field");
    assert_eq!(batch_fault(&batch(b"a", b"u", &[])), "empty decrypt batch field");
}

#[test]
fn batch_with_truncated_header() {
    let body = batch(b"a", b"u", &[b"s"]);
    assert_eq!(batch_fault(&body[..13]), "truncated decrypt batch header");
    assert_eq!(
        batch_fault(&[0, 1, 0, 1, 0xff, 0xff, 0xff, 0xff]),
        "truncated decrypt batch header"
    );
}

#[test]
fn batch_with_bad_sample_length() {
    assert_eq!(batch_fault(&batch(b"a", b"u", &[b""])), "invalid decrypt sample length");
    let mut body = batch(b"a", b"u", &[b"s"]);
    body[8..12].copy_from_slice(&(64u32 * 1024 * 1024 + 1).to_be_bytes());
    assert_eq!(batch_fault(&body), "invalid decrypt sample length");
    body[8..12].copy_from_slice(&(64u32 * 1024 * 1024).to_be_bytes());
    assert_eq!(batch_fault(&body), "truncated decrypt sample");
}

#[test]
fn batch_with_text_that_is_not_utf8() {
    assert_eq!(batch_fault(&batch(&[0xff], b"u", &[b"s"])), "adam_id is not utf-8");
    assert_eq!(batch_fault(&batch(b"a", &[0xc3], &[b"s"])), "uri is not utf-8");
    // The id is looked at first, and the lengths before both.
    assert_eq!(batch_fault(&batch(&[0xff], &[0xff], &[b"s"])), "adam_id is not utf-8");
    assert_eq!(batch_fault(&batch(&[0xff], b"u", &[b""])), "invalid decrypt sample length");
}

#[test]
fn batch_with_wrong_length() {
    let mut body = batch(b"a", b"u", &[b"abc", b"de"]);
    body.pop();
    assert_eq!(batch_fault(&body), "truncated decrypt sample");
    body.extend_from_slice(b"ef");
    assert_eq!(batch_fault(&body), "trailing decrypt batch bytes");
}

#[test]
fn samples_are_written() {
    let payload = build_decrypt_samples_payload(&[b"abc".to_vec(), vec![], b"d".to_vec()]);
    assert_eq!(
        payload.unwrap(),
        vec![
            0, 0, 0, 3, 0, 0, 0, 3, 0, 0, 0, 0, 0, 0, 0, 1, b'a', b'b', b'c', b'd'
        ]
    );
    assert_eq!(build_decrypt_samples_payload(&[]).unwrap(), vec![0, 0, 0, 0]);
}

#[test]
fn sample_payloads_tell_samples_apart() {
    let whole = build_decrypt_samples_payload(&[b"ab".to_vec()]).unwrap();
    let parted = build_decrypt_samples_payload(&[b"a".to_vec(), b"b".to_vec()]).unwrap();
    assert_ne!(whole, parted);
}

#[test]
fn frame_is_written_and_read_back() {
    let frame = DecryptFrame { kind: 2, request_id: 0x01020304, payload: b"xyz".to_vec() };
    let bytes = frame_bytes(&frame).unwrap();
    assert_eq!(
        bytes,
        vec![
            b'W', b'V', b'2', b'D', 0, 1, 0, 2, 1, 2, 3, 4, 0, 0, 0, 3, b'x', b'y', b'z'
        ]
    );
    assert_eq!(
        parse_frame_header(&bytes[..16]),
        Some(FrameHeader { kind: 2, request_id: 0x01020304, payload_len: 3 })
    );
}

#[test]
fn frame_header_is_refused() {
    let bytes = frame_bytes(&DecryptFrame { kind: 1, request_id: 7, payload: vec![] }).unwrap();
    assert!(parse_frame_header(&bytes).is_some());
    assert!(parse_frame_header(&bytes[..15]).is_none());
    let mut magic = bytes.clone();
    magic[3] = b'C';
    assert!(parse_frame_header(&magic).is_none());
    let mut version = bytes;
    version[5] = 2;
    assert!(parse_frame_header(&version).is_none());
}

#[test]
fn close_frame_ends_the_session() {
    let frame = DecryptFrame { kind: DECRYPT_KIND_CLOSE, request_id: 1, payload: vec![] };
    assert!(matches!(decrypt_request(&frame), DecryptStep::Close));
}

#[test]
fn other_frames_are_refused() {
    let frame = DecryptFrame { kind: DECRYPT_KIND_OK, request_id: 5, payload: vec![] };
    match decrypt_request(&frame) {
        DecryptStep::Refuse(sent) => {
            assert_eq!(sent.kind, DECRYPT_KIND_ERROR);
            assert_eq!(sent.request_id, 5);
            assert_eq!(sent.payload, b"unsupported decrypt frame kind".to_vec());
        }
        other => panic!("{:?}", other),
    }
}

#[test]
fn bad_batch_frames_are_refused() {
    let frame = DecryptFrame { kind: DECRYPT_KIND_BATCH, request_id: 6, payload: vec![1] };
    match decrypt_request(&frame) {
        DecryptStep::Refuse(sent) => {
            assert_eq!(sent.kind, DECRYPT_KIND_ERROR);
            assert_eq!(sent.request_id, 6);
            assert_eq!(sent.payload, b"decrypt batch too short".to_vec());
        }
        other => panic!("{:?}", other),
    }
}

#[test]
fn batch_frames_reach_the_worker() {
    let frame = DecryptFrame {
        kind: DECRYPT_KIND_BATCH,
        request_id: 8,
        payload: batch(b"12", b"skd://k", &[b"one", b"two"]),
    };
    match decrypt_request(&frame) {
        DecryptStep::Decrypt { request_id, adam, uri, samples } => {
            assert_eq!(request_id, 8);
            assert_eq!(adam, "12");
            assert_eq!(uri, "skd://k");
            assert_eq!(samples, vec![b"one".to_vec(), b"two".to_vec()]);
        }
        other => panic!("{:?}", other),
    }
}

#[test]
fn plaintexts_are_answered() {
    match decrypt_reply(9, Ok(vec![b"p".to_vec()])) {
        DecryptReply::Answer(sent) => {
            assert_eq!(sent.kind, DECRYPT_KIND_OK);
            assert_eq!(sent.request_id, 9);
            assert_eq!(sent.payload, vec![0, 0, 0, 1, 0, 0, 0, 1, b'p']);
        }
        other => panic!("{:?}", other),
    }
}

#[test]
fn worker_failures_abort_the_session() {
    let failure = WorkerError { message: "worker timed out".to_string() };
    match decrypt_reply(10, Err(failure)) {
        DecryptReply::Abort(sent, error) => {
            assert_eq!(sent.kind, DECRYPT_KIND_ERROR);
            assert_eq!(sent.request_id, 10);
            assert_eq!(sent.payload, b"worker timed out".to_vec());
            assert_eq!(error.kind, IoErrorKind::Other);
            assert_eq!(error.message, "worker timed out");
        }
        other => panic!("{:?}", other),
    }
}

#[test]
fn error_frames_are_made() {
    let frame = write_decrypt_error(3, "naïve");
    assert_eq!(frame.kind, DECRYPT_KIND_ERROR);
    assert_eq!(frame.request_id, 3);
    assert_eq!(frame.payload, "naïve".as_bytes().to_vec());
}

#[test]
fn worker_errors_become_io_errors() {
    let error = worker_io_error(WorkerError { message: "gone".to_string() });
    assert_eq!(error.kind, IoErrorKind::Other);
    assert_eq!(error.message, "gone");
}

#[test]
fn no_batch_begins_another() {
    let body = batch(b"a", b"u", &[b"abc", b"de"]);
    for end in 0..body.len() {
        assert!(parse_decrypt_batch_payload(&body[..end]).is_err());
    }
    let mut longer = body;
    longer.push(0);
    assert_eq!(batch_fault(&longer), "trailing decrypt batch bytes");
}
