//! The liveness probe.

use vstd::prelude::*;
#[allow(unused_imports)]
use vstd::string::*;

use crate::error::IoError;
use crate::http;
use crate::http::{write_json, Reply};
use crate::json;
use crate::json::{insert_field, parse_json_body, take_field, Json};
use crate::worker;
use crate::worker::{WorkerError, WorkerResponse};

verus! {

/// The version that the daemon reports.
pub const VERSION: &'static str = "0.0.2";

/// What is known of the worker's health.
#[derive(Debug)]
pub enum WorkerHealth {
    /// The worker answered with this status and these runtime flags.
    Reachable { status: u16, runtime: Json },
    /// The worker did not answer, for this reason.
    Unreachable { error: String },
}

/// What a [`WorkerHealth`] says.
pub ghost enum WorkerHealthView {
    Reachable { status: u16, runtime: json::JsonView },
    Unreachable { error: Seq<char> },
}

impl View for WorkerHealth {
    type V = WorkerHealthView;

    open spec fn view(&self) -> WorkerHealthView {
        match self {
            WorkerHealth::Reachable { status, runtime } => WorkerHealthView::Reachable {
                status: *status,
                runtime: runtime@,
            },
            WorkerHealth::Unreachable { error } => WorkerHealthView::Unreachable { error: error@ },
        }
    }
}

/// The runtime flags in the worker's health report, or null where it gives none.
pub open spec fn runtime_flags(
    document: Result<json::JsonView, Seq<char>>,
) -> json::JsonView {
    match document {
        Ok(report) => match json::field(report, "runtime"@) {
            Some(runtime) => runtime,
            None => json::JsonView::Null,
        },
        Err(_) => json::JsonView::Null,
    }
}

/// What is known of the worker once it was asked for a health report, of which
/// `document` is the body.
pub open spec fn health_of(
    result: Result<worker::WorkerResponseView, Seq<char>>,
    document: Result<json::JsonView, Seq<char>>,
) -> WorkerHealthView {
    match result {
        Ok(response) => WorkerHealthView::Reachable {
            status: response.http_status,
            runtime: runtime_flags(document),
        },
        Err(error) => WorkerHealthView::Unreachable { error },
    }
}

/// The body of what the worker answered, read as JSON.
pub open spec fn report_document(
    result: Result<worker::WorkerResponseView, Seq<char>>,
) -> Result<json::JsonView, Seq<char>> {
    match result {
        Ok(response) => json::json_document(response.body),
        Err(message) => Err(message),
    }
}

/// The runtime flags in a report that was read.
pub fn runtime_in(document: Result<Json, IoError>) -> (runtime: Json)
    ensures
        runtime@ == runtime_flags(
            match document {
                Ok(report) => Ok(report@),
                Err(e) => Err(e.message@),
            },
        ),
{
    match document {
        Ok(report) => match take_field(report, "runtime") {
            Some(runtime) => runtime,
            None => Json::Null,
        },
        Err(_) => Json::Null,
    }
}

/// Makes out the worker's health from its answer.
pub fn worker_health(result: Result<WorkerResponse, WorkerError>) -> (health: WorkerHealth)
    ensures
        health@ == health_of(
            worker::outcome(result),
            report_document(worker::outcome(result)),
        ),
{
    match result {
        Ok(r) => WorkerHealth::Reachable {
            status: r.http_status,
            runtime: runtime_in(parse_json_body(r.body.as_slice())),
        },
        Err(e) => WorkerHealth::Unreachable { error: e.message },
    }
}

/// How a deep probe reports the exchange with the worker.
pub open spec fn ipc_object(health: WorkerHealthView) -> json::JsonView {
    let none = Map::<Seq<char>, json::JsonView>::empty();
    match health {
        WorkerHealthView::Reachable { status, .. } => json::JsonView::Object(
            none.insert("reachable"@, json::JsonView::Bool(true)).insert(
                "status"@,
                json::JsonView::Number(json::integer_number(status as u64)),
            ),
        ),
        WorkerHealthView::Unreachable { error } => json::JsonView::Object(
            none.insert("reachable"@, json::JsonView::Bool(false)).insert(
                "status"@,
                json::JsonView::Number(json::integer_number(0)),
            ).insert("error"@, json::JsonView::Text(error)),
        ),
    }
}

/// The report of a probe: the exchange with the worker only where it is deep.
pub open spec fn health_object(
    snapshot: json::JsonView,
    health: WorkerHealthView,
    deep: bool,
) -> json::JsonView {
    json::JsonView::Object(
        Map::<Seq<char>, json::JsonView>::empty().insert(
            "status"@,
            json::JsonView::Text("ok"@),
        ).insert("version"@, json::JsonView::Text(VERSION@)).insert(
            "mode"@,
            json::JsonView::Text("rust-supervisor"@),
        ).insert("worker"@, snapshot).insert(
            "worker_ipc"@,
            if deep {
                ipc_object(health)
            } else {
                json::JsonView::Null
            },
        ).insert(
            "runtime"@,
            match health {
                WorkerHealthView::Reachable { runtime, .. } => runtime,
                WorkerHealthView::Unreachable { .. } => json::JsonView::Null,
            },
        ),
    )
}

/// Whether the parts of a report allow it to be read back.
pub open spec fn report_is_plain(snapshot: json::JsonView, health: WorkerHealthView) -> bool {
    &&& json::plain_within(snapshot, (json::MAX_NESTING - 1) as nat)
    &&& health matches WorkerHealthView::Reachable { runtime, .. } ==> json::plain_within(
        runtime,
        (json::MAX_NESTING - 1) as nat,
    )
}

fn ipc_report(health: &WorkerHealth) -> (report: Json)
    ensures
        report@ == ipc_object(health@),
{
    let mut fields: Vec<(String, Json)> = Vec::new();
    match health {
        WorkerHealth::Reachable { status, .. } => {
            insert_field(&mut fields, "reachable", Json::Bool(true));
            insert_field(&mut fields, "status", Json::integer(*status as u64));
        },
        WorkerHealth::Unreachable { error } => {
            insert_field(&mut fields, "reachable", Json::Bool(false));
            insert_field(&mut fields, "status", Json::integer(0));
            insert_field(&mut fields, "error", Json::text(error.as_str()));
        },
    }
    Json::Object(fields)
}

proof fn lemma_ipc_nesting(health: WorkerHealthView, depth: nat)
    requires
        depth > 0,
    ensures
        json::plain_within(ipc_object(health), depth),
{
    reveal_with_fuel(json::plain_within, 2);
}

proof fn lemma_report_nesting(snapshot: json::JsonView, health: WorkerHealthView, deep: bool)
    requires
        report_is_plain(snapshot, health),
    ensures
        json::plain_within(health_object(snapshot, health, deep), json::MAX_NESTING as nat),
{
    reveal_with_fuel(json::plain_within, 2);
    lemma_ipc_nesting(health, (json::MAX_NESTING - 1) as nat);
}

/// Answers a probe. `snapshot` is the supervisor's own view of the worker.
pub fn health_reply(snapshot: Json, health: WorkerHealth, deep: bool) -> (reply: Reply)
    ensures
        reply@ == http::json_reply(200, health_object(snapshot@, health@, deep)),
        reply.status == 200 && reply.content_type@ == "application/json"@,
        report_is_plain(snapshot@, health@) ==> json::reads_as(
            reply.body@,
            health_object(snapshot@, health@, deep),
        ),
{
    let mut fields: Vec<(String, Json)> = Vec::new();
    insert_field(&mut fields, "status", Json::text("ok"));
    insert_field(&mut fields, "version", Json::text(VERSION));
    insert_field(&mut fields, "mode", Json::text("rust-supervisor"));
    insert_field(&mut fields, "worker", snapshot);
    let ipc = if deep {
        ipc_report(&health)
    } else {
        Json::Null
    };
    insert_field(&mut fields, "worker_ipc", ipc);
    let runtime = match health {
        WorkerHealth::Reachable { runtime, .. } => runtime,
        WorkerHealth::Unreachable { .. } => Json::Null,
    };
    insert_field(&mut fields, "runtime", runtime);
    proof {
        if report_is_plain(snapshot@, health@) {
            lemma_report_nesting(snapshot@, health@, deep);
        }
    }
    write_json(200, &Json::Object(fields))
}

/// A probe is answered whatever the worker does: the report says that the daemon
/// is up, and of which version.
pub proof fn probes_report_the_daemon(
    snapshot: json::JsonView,
    health: WorkerHealthView,
    deep: bool,
)
    ensures
        json::field(health_object(snapshot, health, deep), "status"@) == Some(
            json::JsonView::Text("ok"@),
        ),
        json::field(health_object(snapshot, health, deep), "version"@) == Some(
            json::JsonView::Text(VERSION@),
        ),
        json::field(health_object(snapshot, health, deep), "worker"@) == Some(snapshot),
{
    lemma_field_names();
}

/// The runtime flags that the worker reports are passed on as they are.
pub proof fn probes_pass_the_runtime_on(
    snapshot: json::JsonView,
    response: worker::WorkerResponseView,
    report: json::JsonView,
    runtime: json::JsonView,
    deep: bool,
)
    requires
        json::field(report, "runtime"@) == Some(runtime),
    ensures
        json::field(
            health_object(snapshot, health_of(Ok(response), Ok(report)), deep),
            "runtime"@,
        ) == Some(runtime),
{
    lemma_field_names();
}

/// Only a deep probe reports on the exchange with the worker.
pub proof fn shallow_probes_leave_the_exchange_out(
    snapshot: json::JsonView,
    health: WorkerHealthView,
)
    ensures
        json::field(health_object(snapshot, health, false), "worker_ipc"@) == Some(
            json::JsonView::Null,
        ),
        json::field(health_object(snapshot, health, true), "worker_ipc"@) == Some(
            ipc_object(health),
        ),
{
    lemma_field_names();
}

proof fn lemma_field_names()
    ensures
        "status"@ != "version"@ && "status"@ != "mode"@ && "status"@ != "worker"@ && "status"@
            != "worker_ipc"@ && "status"@ != "runtime"@,
        "version"@ != "mode"@ && "version"@ != "worker"@ && "version"@ != "worker_ipc"@ && "version"@
            != "runtime"@,
        "worker"@ != "worker_ipc"@ && "worker"@ != "runtime"@ && "worker_ipc"@ != "runtime"@,
{
    reveal_strlit("status");
    reveal_strlit("version");
    reveal_strlit("mode");
    reveal_strlit("worker");
    reveal_strlit("worker_ipc");
    reveal_strlit("runtime");
    assert("status"@.len() == 6 && "version"@.len() == 7 && "mode"@.len() == 4 && "worker"@.len()
        == 6 && "worker_ipc"@.len() == 10 && "runtime"@.len() == 7);
    assert("status"@[0] != "worker"@[0]);
    assert("version"@[0] != "runtime"@[0]);
}

} // verus!
