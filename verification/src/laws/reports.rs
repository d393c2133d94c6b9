//! What a probe reports, and where the daemon listens.

use vstd::prelude::*;

use crate::config;
use crate::decimal;
use crate::health;
use crate::json;
use crate::worker;

verus! {

/// Whether `object` has just the fields named.
pub open spec fn has_just(object: Map<Seq<char>, json::JsonView>, names: Seq<Seq<char>>) -> bool {
    forall|name: Seq<char>| #[trigger] object.contains_key(name) == names.contains(name)
}

/// A probe reports that the daemon is up, its version and mode, the supervisor's
/// snapshot, the runtime flags, and the exchange with the worker; nothing else.
pub proof fn reports_have_their_fields(
    snapshot: json::JsonView,
    health: health::WorkerHealthView,
    deep: bool,
)
    ensures
        health::health_object(snapshot, health, deep) matches json::JsonView::Object(fields) && {
            &&& has_just(
                fields,
                seq!["status"@, "version"@, "mode"@, "worker"@, "worker_ipc"@, "runtime"@],
            )
            &&& fields["status"@] == json::JsonView::Text("ok"@)
            &&& fields["version"@] == json::JsonView::Text("0.0.2"@)
            &&& fields["mode"@] == json::JsonView::Text("rust-supervisor"@)
            &&& fields["worker"@] == snapshot
            &&& !deep ==> fields["worker_ipc"@] == json::JsonView::Null
            &&& deep ==> fields["worker_ipc"@] == health::ipc_object(health)
            &&& health matches health::WorkerHealthView::Reachable { runtime, .. }
                ==> fields["runtime"@] == runtime
            &&& health is Unreachable ==> fields["runtime"@] == json::JsonView::Null
        },
{
    reveal_strlit("status");
    reveal_strlit("version");
    reveal_strlit("mode");
    reveal_strlit("worker");
    reveal_strlit("worker_ipc");
    reveal_strlit("runtime");
    assert("status"@.len() == 6 && "version"@.len() == 7 && "mode"@.len() == 4 && "worker"@.len()
        == 6 && "worker_ipc"@.len() == 10 && "runtime"@.len() == 7);
    assert("status"@[0] != "worker"@[0]);
    assert("version"@[0] != "runtime"@[0]);
    let names = seq!["status"@, "version"@, "mode"@, "worker"@, "worker_ipc"@, "runtime"@];
    assert(names[0] == "status"@ && names[1] == "version"@ && names[2] == "mode"@ && names[3]
        == "worker"@ && names[4] == "worker_ipc"@ && names[5] == "runtime"@);
    let fields = health::health_object(snapshot, health, deep)->Object_0;
    assert forall|name: Seq<char>| #[trigger] fields.contains_key(name) == names.contains(name) by {
        if names.contains(name) {
            let i = choose|i: int| 0 <= i < names.len() && names[i] == name;
            assert(i == 0 || i == 1 || i == 2 || i == 3 || i == 4 || i == 5);
        }
    }
}

/// The exchange with the worker is reported with the status that it gave, or with
/// the reason why there was none.
pub proof fn exchanges_are_reported(status: u16, runtime: json::JsonView, error: Seq<char>)
    ensures
        health::ipc_object(health::WorkerHealthView::Reachable { status, runtime })
            matches json::JsonView::Object(fields) && {
            &&& has_just(fields, seq!["reachable"@, "status"@])
            &&& fields["reachable"@] == json::JsonView::Bool(true)
            &&& fields["status"@] == json::JsonView::Number(json::integer_number(status as u64))
        },
        health::ipc_object(health::WorkerHealthView::Unreachable { error })
            matches json::JsonView::Object(fields) && {
            &&& has_just(fields, seq!["reachable"@, "status"@, "error"@])
            &&& fields["reachable"@] == json::JsonView::Bool(false)
            &&& fields["status"@] == json::JsonView::Number(json::integer_number(0))
            &&& fields["error"@] == json::JsonView::Text(error)
        },
{
    reveal_strlit("reachable");
    reveal_strlit("status");
    reveal_strlit("error");
    assert("reachable"@.len() == 9 && "status"@.len() == 6 && "error"@.len() == 5);
    let two = seq!["reachable"@, "status"@];
    let three = seq!["reachable"@, "status"@, "error"@];
    assert(two[0] == "reachable"@ && two[1] == "status"@);
    assert(three[0] == "reachable"@ && three[1] == "status"@ && three[2] == "error"@);
    let good = health::ipc_object(health::WorkerHealthView::Reachable { status, runtime })->Object_0;
    let bad = health::ipc_object(health::WorkerHealthView::Unreachable { error })->Object_0;
    assert forall|name: Seq<char>| #[trigger] good.contains_key(name) == two.contains(name) by {
        if two.contains(name) {
            let i = choose|i: int| 0 <= i < two.len() && two[i] == name;
            assert(i == 0 || i == 1);
        }
    }
    assert forall|name: Seq<char>| #[trigger] bad.contains_key(name) == three.contains(name) by {
        if three.contains(name) {
            let i = choose|i: int| 0 <= i < three.len() && three[i] == name;
            assert(i == 0 || i == 1 || i == 2);
        }
    }
}

/// The worker is reachable where it answered, whatever its status, and the flags
/// are those in the field `runtime` of its report, or null where there are none.
pub proof fn answers_tell_the_health(
    response: worker::WorkerResponseView,
    fields: Map<Seq<char>, json::JsonView>,
    other: json::JsonView,
    message: Seq<char>,
)
    requires
        !(other is Object),
    ensures
        health::health_of(Ok(response), Ok(json::JsonView::Object(fields))) == (
        health::WorkerHealthView::Reachable {
            status: response.http_status,
            runtime: if fields.contains_key("runtime"@) {
                fields["runtime"@]
            } else {
                json::JsonView::Null
            },
        }),
        health::health_of(Ok(response), Ok(other)) == (health::WorkerHealthView::Reachable {
            status: response.http_status,
            runtime: json::JsonView::Null,
        }),
        health::health_of(Ok(response), Err(message)) == (health::WorkerHealthView::Reachable {
            status: response.http_status,
            runtime: json::JsonView::Null,
        }),
        health::health_of(Err(message), Err(message)) == (health::WorkerHealthView::Unreachable {
            error: message,
        }),
        health::report_document(Ok(response)) == json::json_document(response.body),
        health::report_document(Err(message)) is Err,
{
}

/// A report is read back where its parts are.
pub proof fn reports_are_read_back_with_their_parts(
    snapshot: json::JsonView,
    status: u16,
    runtime: json::JsonView,
    error: Seq<char>,
)
    requires
        json::plain_within(snapshot, 126),
    ensures
        json::plain_within(runtime, 126) ==> health::report_is_plain(
            snapshot,
            health::WorkerHealthView::Reachable { status, runtime },
        ),
        health::report_is_plain(snapshot, health::WorkerHealthView::Unreachable { error }),
{
}

/// A variable that is set and not empty is used as it is.
pub proof fn set_variables_are_used(value: Seq<char>, fallback: Seq<char>)
    ensures
        config::value_or(None, fallback) == fallback,
        value.len() == 0 ==> config::value_or(Some(value), fallback) == fallback,
        value.len() > 0 ==> config::value_or(Some(value), fallback) == value,
{
}

/// A port that is set to a number from 1 to 65535 is used, and otherwise the
/// fallback.
pub proof fn set_ports_are_numbers(value: Seq<char>, fallback: u16)
    ensures
        config::port_or(None, fallback) == fallback,
        decimal::decimal_value(value) matches Some(n) ==> (if 1 <= n <= 65535 {
            config::port_or(Some(value), fallback) == n
        } else {
            config::port_or(Some(value), fallback) == fallback
        }),
        decimal::decimal_value(value) is None ==> config::port_or(Some(value), fallback)
            == fallback,
{
}

/// An address is the host, a colon and the port in decimal; by default every
/// interface is listened on, for HTTP on port 80 and to decrypt on port 10020.
pub proof fn addresses_are_host_and_port(host: Seq<char>, port: u16)
    ensures
        config::address(host, port) == host + ":"@ + decimal::decimal_text(port as nat),
        decimal::decimal_value(
            config::address(host, port).skip(host.len() + 1int),
        ) == Some(port as nat),
        config::DEFAULT_HTTP_HOST@ == "0.0.0.0"@,
        config::DEFAULT_HTTP_PORT == 80,
        config::DEFAULT_DECRYPT_HOST@ == "0.0.0.0"@,
        config::DEFAULT_DECRYPT_PORT == 10020,
{
    reveal_strlit(":");
    assert(":"@.len() == 1);
    decimal::decimal_reads_back(port as nat);
    assert(config::address(host, port).skip(host.len() + 1int) =~= decimal::decimal_text(
        port as nat,
    ));
}

} // verus!
