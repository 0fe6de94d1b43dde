//! Turning a decoded request into a dispatch decision.
//!
//! The dispatch loop never runs a handler itself: for each message it either
//! starts an independent task (carrying everything the handler needs as
//! plain values) or answers immediately with an error — an unrecognized
//! method or ill-typed params never allocates a task.

use vstd::prelude::*;

use crate::json::JsonVal;
use crate::json::find_param;
use crate::json::lookup;
use crate::message::Message;
use crate::message::str_of;
use crate::message::uint_of;
use crate::respond::Response;
use crate::respond::RpcError;
use crate::respond::reply_error;
use crate::router::Method;
use crate::router::route;
use crate::router::spec_route;

verus! {

/// One unit of concurrent work: run the named operation with these
/// arguments. The stamp of a `typed` task is the caller-supplied `seq`
/// param; a `move` task is stamped with its request id, the move stream's
/// own sequence.
#[derive(Debug, PartialEq)]
pub enum Task {
    RunInit { id: u64, cwd: String },
    RunMove { id: u64, stamp: u64, line: u64 },
    RunTyped { id: u64, stamp: u64, query: String },
}

/// What the dispatch loop does with one decoded message.
#[derive(Debug, PartialEq)]
pub enum Plan {
    /// Start an independent task; the loop does not wait for it.
    Spawn(Task),
    /// Answer at once, without allocating a task.
    Reply(Response),
}

/// The dispatch decision for a message: which task is spawned with which
/// arguments, or which immediate error reply is written instead.
pub open spec fn spec_plan(m: Message) -> Plan {
    match spec_route(m.method@) {
        None => Plan::Reply(reply_error(Some(m.id), RpcError::UnknownMethod)),
        Some(Method::Init) => match str_of(lookup(m.params@, "cwd"@)) {
            Some(c) => Plan::Spawn(Task::RunInit { id: m.id, cwd: c }),
            None => Plan::Reply(reply_error(Some(m.id), RpcError::BadRequest)),
        },
        Some(Method::Move) => match uint_of(lookup(m.params@, "line"@)) {
            Some(l) => Plan::Spawn(Task::RunMove { id: m.id, stamp: m.id, line: l }),
            None => Plan::Reply(reply_error(Some(m.id), RpcError::BadRequest)),
        },
        Some(Method::Typed) => match (str_of(lookup(m.params@, "query"@)), uint_of(
            lookup(m.params@, "seq"@),
        )) {
            (Some(q), Some(s)) => Plan::Spawn(Task::RunTyped { id: m.id, stamp: s, query: q }),
            _ => Plan::Reply(reply_error(Some(m.id), RpcError::BadRequest)),
        },
    }
}

/// What a decode failure is answered with: a line whose request id could be
/// recovered is reported to the caller with that id; one whose id could not
/// be parsed is dropped silently (no response at all).
pub fn reply_for_decode_fail(f: &crate::message::DecodeFail) -> (r: Option<Response>)
    ensures
        r == (match f.id {
            Some(i) => Some(reply_error(Some(i), RpcError::Malformed)),
            None => None::<Response>,
        }),
{
    match f.id {
        Some(i) => Some(Response { id: Some(i), body: Err(RpcError::Malformed) }),
        None => None,
    }
}

/// Decide what to do with one decoded message.
pub fn plan_for(m: &Message) -> (p: Plan)
    ensures
        p == spec_plan(*m),
{
    match route(m.method.as_str()) {
        None => Plan::Reply(Response { id: Some(m.id), body: Err(RpcError::UnknownMethod) }),
        Some(Method::Init) => match find_param(&m.params, "cwd") {
            Some(i) => match &m.params[i].1 {
                JsonVal::Str(s) => Plan::Spawn(Task::RunInit { id: m.id, cwd: s.clone() }),
                _ => Plan::Reply(Response { id: Some(m.id), body: Err(RpcError::BadRequest) }),
            },
            None => Plan::Reply(Response { id: Some(m.id), body: Err(RpcError::BadRequest) }),
        },
        Some(Method::Move) => match find_param(&m.params, "line") {
            Some(i) => match &m.params[i].1 {
                JsonVal::UInt(l) => Plan::Spawn(
                    Task::RunMove { id: m.id, stamp: m.id, line: *l },
                ),
                _ => Plan::Reply(Response { id: Some(m.id), body: Err(RpcError::BadRequest) }),
            },
            None => Plan::Reply(Response { id: Some(m.id), body: Err(RpcError::BadRequest) }),
        },
        Some(Method::Typed) => {
            let qi = find_param(&m.params, "query");
            let si = find_param(&m.params, "seq");
            match (qi, si) {
                (Some(i), Some(j)) => match (&m.params[i].1, &m.params[j].1) {
                    (JsonVal::Str(q), JsonVal::UInt(s)) => Plan::Spawn(
                        Task::RunTyped { id: m.id, stamp: *s, query: q.clone() },
                    ),
                    _ => Plan::Reply(
                        Response { id: Some(m.id), body: Err(RpcError::BadRequest) },
                    ),
                },
                _ => Plan::Reply(Response { id: Some(m.id), body: Err(RpcError::BadRequest) }),
            }
        },
    }
}

} // verus!
