//! The client-side remote-call protocol. A call names a target identifier
//! and carries one argument bundle; the request travels as the wire text
//! `{"function": <identifier>, "args": <bundle>}` in a single write to one
//! fixed endpoint, and the response carries `{"result": <value>}`. The
//! protocol is fail-soft: transport failure, a non-success status, or a
//! missing or undecodable result never reach the caller — they settle to
//! the caller's type-appropriate default value.

use vstd::prelude::*;
use crate::split::ClientStub;
use crate::wire::json_of;
use crate::wire::json_string;
use crate::wire::push_json_string;
use crate::wire::spec_pack;
use crate::wire::wire_view;
use crate::wire::wire_views;
use crate::wire::WireV;
use crate::wire::WireValue;

verus! {

/// One remote-call request: the hashed target identifier and the packed
/// argument bundle.
pub struct RpcRequest {
    pub function: String,
    pub args: WireValue,
}

/// One remote-call response: the result value, if the body held one.
pub struct RpcResponse {
    pub result: WireValue,
}

/// The wire text of a request envelope: exactly the two fields, in order.
pub open spec fn spec_request_json(function: Seq<char>, args: WireV) -> Seq<char> {
    "{\"function\":"@ + json_string(function) + ",\"args\":"@ + json_of(args) + "}"@
}

/// Serializes a request to its wire text.
pub fn encode_request(req: &RpcRequest) -> (r: String)
    ensures
        r@ == spec_request_json(req.function@, wire_view(req.args)),
{
    let mut out = "{\"function\":".to_owned();
    push_json_string(req.function.as_str(), &mut out);
    out.append(",\"args\":");
    let body = crate::wire::json_encode(&req.args);
    out.append(body.as_str());
    out.append("}");
    out
}

/// Builds the request a client stub sends for one invocation: the target is
/// the stub's dispatch identifier, and the arguments are packed under the
/// bundling rule — so the bundle's shape is exactly the shape the paired
/// server wrapper expects.
pub fn stub_request(stub: &ClientStub, args: Vec<WireValue>) -> (req: RpcRequest)
    ensures
        req.function@ == stub.identifier@,
        wire_view(req.args) == spec_pack(wire_views(args@)),
{
    RpcRequest { function: stub.identifier.clone(), args: crate::wire::pack_args(args) }
}

/// How one remote call ended, as the transport reports it: the write never
/// settled, or a response arrived with a status code and — when the body
/// parsed and held a decodable `result` field — the decoded result.
pub enum CallOutcome {
    TransportFailed,
    Response { status: u16, result: Option<WireValue> },
}

/// The mathematical shadow of a call outcome.
pub enum OutcomeV {
    TransportFailed,
    Response { status: u16, result: Option<WireV> },
}

/// The model of a call outcome.
pub open spec fn outcome_view(o: CallOutcome) -> OutcomeV {
    match o {
        CallOutcome::TransportFailed => OutcomeV::TransportFailed,
        CallOutcome::Response { status, result } => OutcomeV::Response {
            status,
            result: match result {
                Some(v) => Some(wire_view(v)),
                None => None,
            },
        },
    }
}

/// A success status: the 2xx range.
pub open spec fn is_success_status(status: u16) -> bool {
    200 <= status < 300
}

/// The fail-soft settling rule: the decoded result on a success status, the
/// fallback on everything else — transport failure, any non-success status,
/// or a response whose result was missing or undecodable.
pub open spec fn spec_settle(o: OutcomeV, fallback: WireV) -> WireV {
    match o {
        OutcomeV::TransportFailed => fallback,
        OutcomeV::Response { status, result } => if is_success_status(status) {
            match result {
                Some(v) => v,
                None => fallback,
            }
        } else {
            fallback
        },
    }
}

/// Settles one remote call. `fallback` is the type-appropriate default
/// value of the declared result type; the call never fails to the caller —
/// on any failure the fallback is returned instead.
pub fn settle_call(outcome: CallOutcome, fallback: WireValue) -> (r: WireValue)
    ensures
        wire_view(r) == spec_settle(outcome_view(outcome), wire_view(fallback)),
{
    match outcome {
        CallOutcome::TransportFailed => fallback,
        CallOutcome::Response { status, result } => {
            if 200 <= status && status < 300 {
                match result {
                    Some(v) => v,
                    None => fallback,
                }
            } else {
                fallback
            }
        },
    }
}

/// Fail-soft in one line: whatever the outcome of the remote call, if it is
/// anything but a success response carrying a decodable result, the caller
/// receives exactly the declared default — never an error.
pub proof fn lemma_fail_soft(o: OutcomeV, fallback: WireV)
    requires
        match o {
            OutcomeV::TransportFailed => true,
            OutcomeV::Response { status, result } => !is_success_status(status) || result is None,
        },
    ensures
        spec_settle(o, fallback) == fallback,
{
}

} // verus!
