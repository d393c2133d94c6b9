//! What the worker process answers.

use vstd::prelude::*;

use crate::error;
use crate::error::{IoError, IoErrorKind};
use crate::http;
use crate::http::{write_error_detail, Reply};
use crate::json;

verus! {

/// What the worker can be asked to do with a JSON payload.
#[derive(Clone, Copy, Debug, PartialEq, Eq, Structural)]
pub enum WorkerOp {
    Me,
    Login,
    Login2fa,
    Logout,
    Playback,
}

/// Why a request to the worker came to nothing.
#[derive(Debug)]
pub struct WorkerError {
    pub message: String,
}

impl View for WorkerError {
    type V = Seq<char>;

    open spec fn view(&self) -> Seq<char> {
        self.message@
    }
}

/// The worker's answer to a request.
#[derive(Debug)]
pub struct WorkerResponse {
    pub http_status: u16,
    pub content_type: String,
    pub body: Vec<u8>,
}

/// What a [`WorkerResponse`] holds.
pub ghost struct WorkerResponseView {
    pub http_status: u16,
    pub content_type: Seq<char>,
    pub body: Seq<u8>,
}

impl View for WorkerResponse {
    type V = WorkerResponseView;

    open spec fn view(&self) -> WorkerResponseView {
        WorkerResponseView {
            http_status: self.http_status,
            content_type: self.content_type@,
            body: self.body@,
        }
    }
}

/// What came of a request to the worker: its answer, or the message of the error.
pub open spec fn outcome(result: Result<WorkerResponse, WorkerError>) -> Result<
    WorkerResponseView,
    Seq<char>,
> {
    match result {
        Ok(response) => Ok(response@),
        Err(e) => Err(e@),
    }
}

/// The error that ends a connection when the worker fails.
pub fn worker_io_error(e: WorkerError) -> (error: IoError)
    ensures
        error@ == (error::IoErrorView { kind: IoErrorKind::Other, message: e@ }),
{
    IoError { kind: IoErrorKind::Other, message: e.message }
}

/// The response to a request that the worker was asked to serve.
pub open spec fn proxied(result: Result<WorkerResponseView, Seq<char>>) -> http::ReplyView {
    match result {
        Ok(response) => http::ReplyView {
            status: response.http_status,
            content_type: response.content_type,
            body: response.body,
        },
        Err(message) => http::error_reply(503, "worker_unavailable"@, Some(message)),
    }
}

/// Passes on what the worker answered.
pub fn proxy_json(result: Result<WorkerResponse, WorkerError>) -> (reply: Reply)
    ensures
        reply@ == proxied(outcome(result)),
        match result {
            Ok(r) => reply.status == r.http_status && reply.content_type@ == r.content_type@
                && reply.body@ == r.body@,
            Err(_) => reply.status == 503 && reply.content_type@ == "application/json"@,
        },
        outcome(result) matches Err(message) ==> json::reads_as(
            reply.body@,
            http::error_object("worker_unavailable"@, Some(message)),
        ),
{
    match result {
        Ok(r) => Reply { status: r.http_status, content_type: r.content_type, body: r.body },
        Err(e) => write_error_detail(503, "worker_unavailable", e.message.as_str()),
    }
}

} // verus!
