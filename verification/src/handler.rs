//! The operation set: `on_init`, `on_move`, `on_typed`.
//!
//! Each handler runs at the end of one dispatch task. The surrounding task
//! has already run the operation's collaborator (directory check, preview
//! resolver, match engine — black boxes to this core) and hands its outcome
//! in; the handler decides, against the shared session context, whether a
//! response is written and what it says. A failed collaborator is always
//! answered with its error; a successful `move` or `typed` result is
//! delivered only if its stamp passes the staleness gate, and is silently
//! discarded otherwise.

use vstd::prelude::*;

use crate::respond::Payload;
use crate::respond::Response;
use crate::respond::RpcError;
use crate::respond::reply_error;
use crate::respond::reply_matches;
use crate::respond::reply_preview;
use crate::respond::reply_ready;
use crate::session::SessionContext;
use crate::session::newer_than;

verus! {

/// After a successful `init`: the working directory is replaced, everything
/// else — both delivery streams included — is untouched.
pub open spec fn init_ok_post(pre: SessionContext, post: SessionContext, cwd: String) -> bool {
    &&& post.cwd == cwd
    &&& post.last_query == pre.last_query
    &&& post.typed_delivered == pre.typed_delivered
    &&& post.move_delivered == pre.move_delivered
    &&& post.typed_history == pre.typed_history
    &&& post.move_history == pre.move_history
}

/// After a fresh `move` delivery: its stamp is recorded on the `move`
/// stream and the `typed` stream is untouched.
pub open spec fn move_post(pre: SessionContext, post: SessionContext, stamp: u64) -> bool {
    &&& post.move_delivered == Some(stamp)
    &&& post.move_history@ == pre.move_history@.push(stamp)
    &&& post.cwd == pre.cwd
    &&& post.last_query == pre.last_query
    &&& post.typed_delivered == pre.typed_delivered
    &&& post.typed_history == pre.typed_history
}

/// After a fresh `typed` delivery: its stamp is recorded on the `typed`
/// stream, the delivered query is cached, and the `move` stream is
/// untouched.
pub open spec fn typed_post(
    pre: SessionContext,
    post: SessionContext,
    stamp: u64,
    query: String,
) -> bool {
    &&& post.typed_delivered == Some(stamp)
    &&& post.typed_history@ == pre.typed_history@.push(stamp)
    &&& post.last_query == Some(query)
    &&& post.cwd == pre.cwd
    &&& post.move_delivered == pre.move_delivered
    &&& post.move_history == pre.move_history
}

/// The default implementation of the operation set.
pub struct DefaultEventHandler;

impl DefaultEventHandler {
    /// `init`: record the session's working directory and acknowledge.
    /// `outcome` is the bootstrap collaborator's verdict on that directory.
    pub fn handle_on_init(
        &self,
        ctx: &mut SessionContext,
        id: u64,
        cwd: String,
        outcome: Result<(), String>,
    ) -> (r: Response)
        requires
            old(ctx).wf(),
        ensures
            final(ctx).wf(),
            match outcome {
                Ok(_) => r == reply_ready(id) && init_ok_post(*old(ctx), *final(ctx), cwd),
                Err(e) => r == reply_error(Some(id), RpcError::HandlerFailed(e)) && *final(ctx)
                    == *old(ctx),
            },
    {
        match outcome {
            Ok(_) => {
                ctx.cwd = cwd;
                Response { id: Some(id), body: Ok(Payload::Ready) }
            },
            Err(e) => Response { id: Some(id), body: Err(RpcError::HandlerFailed(e)) },
        }
    }

    /// `move`: deliver the preview payload unless a result stamped newer was
    /// already delivered on the `move` stream; a collaborator failure is
    /// always reported.
    pub fn handle_on_move(
        &self,
        ctx: &mut SessionContext,
        id: u64,
        stamp: u64,
        outcome: Result<String, String>,
    ) -> (r: Option<Response>)
        requires
            old(ctx).wf(),
        ensures
            final(ctx).wf(),
            match outcome {
                Err(e) => r == Some(reply_error(Some(id), RpcError::HandlerFailed(e)))
                    && *final(ctx) == *old(ctx),
                Ok(p) => if newer_than(old(ctx).move_delivered, stamp) {
                    r == Some(reply_preview(id, p)) && move_post(*old(ctx), *final(ctx), stamp)
                } else {
                    r is None && *final(ctx) == *old(ctx)
                },
            },
    {
        match outcome {
            Err(e) => Some(Response { id: Some(id), body: Err(RpcError::HandlerFailed(e)) }),
            Ok(p) => {
                if ctx.try_deliver_move(stamp) {
                    Some(Response { id: Some(id), body: Ok(Payload::Preview(p)) })
                } else {
                    None
                }
            },
        }
    }

    /// `typed`: deliver the ranked list unless a result stamped newer was
    /// already delivered on the `typed` stream; on delivery the session
    /// caches the query as the last one whose result reached the caller.
    pub fn handle_on_typed(
        &self,
        ctx: &mut SessionContext,
        id: u64,
        stamp: u64,
        query: String,
        outcome: Result<Vec<String>, String>,
    ) -> (r: Option<Response>)
        requires
            old(ctx).wf(),
        ensures
            final(ctx).wf(),
            match outcome {
                Err(e) => r == Some(reply_error(Some(id), RpcError::HandlerFailed(e)))
                    && *final(ctx) == *old(ctx),
                Ok(matches) => if newer_than(old(ctx).typed_delivered, stamp) {
                    r == Some(reply_matches(id, matches)) && typed_post(
                        *old(ctx),
                        *final(ctx),
                        stamp,
                        query,
                    )
                } else {
                    r is None && *final(ctx) == *old(ctx)
                },
            },
    {
        match outcome {
            Err(e) => Some(Response { id: Some(id), body: Err(RpcError::HandlerFailed(e)) }),
            Ok(matches) => {
                if ctx.try_deliver_typed(stamp) {
                    ctx.last_query = Some(query);
                    Some(Response { id: Some(id), body: Ok(Payload::Matches(matches)) })
                } else {
                    None
                }
            },
        }
    }
}

} // verus!
