//! Request-dispatch core of an editor-integration backend.
//!
//! The library decodes line-delimited JSON-RPC requests into [`message::Message`]
//! values, routes each to one of a closed set of operations, tracks per-stream
//! delivery stamps so that a slow, stale task can never overwrite a newer
//! result, and builds length-prefixed response frames.

use vstd::prelude::*;

pub mod dispatch;
pub mod entries;
pub mod frame;
pub mod handler;
pub mod json;
pub mod message;
pub mod respond;
pub mod router;
pub mod session;

verus! {

} // verus!
