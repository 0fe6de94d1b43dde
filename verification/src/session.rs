//! Shared session state and the staleness policy.
//!
//! Dispatch tasks complete in arbitrary order, so before a `typed` (or
//! `move`) task delivers its response it must pass an atomic compare-and-set
//! against the stream's latest delivered stamp: a task whose stamp is not
//! newer than everything already delivered writes nothing. Each context
//! carries the ghost history of delivered stamps per stream, and
//! well-formedness pins that history to be strictly increasing — a smaller
//! stamp is never delivered after a larger one.

use vstd::prelude::*;

verus! {

/// Stamps appear in strictly increasing order.
pub open spec fn strictly_increasing(s: Seq<u64>) -> bool {
    forall|i: int, j: int| 0 <= i < j < s.len() ==> s[i] < s[j]
}

/// `seq` is newer than everything delivered so far on a stream whose latest
/// delivered stamp is `last`.
pub open spec fn newer_than(last: Option<u64>, seq: u64) -> bool {
    match last {
        None => true,
        Some(l) => seq > l,
    }
}

/// State of the single interactive session, shared by all in-flight tasks.
///
/// The two delivery markers are the only state that concurrent tasks race on;
/// an owner (the dispatch side) must serialize each `try_deliver_*` call so
/// that the compare-and-set below is one atomic step.
pub struct SessionContext {
    /// Current working directory of the session.
    pub cwd: String,
    /// The most recent query whose result was actually delivered.
    pub last_query: Option<String>,
    /// Latest delivered stamp of the `typed` stream, `None` before the first.
    pub typed_delivered: Option<u64>,
    /// Latest delivered stamp of the `move` stream, independent of `typed`.
    pub move_delivered: Option<u64>,
    /// Delivery order of `typed` stamps, oldest first.
    pub typed_history: Ghost<Seq<u64>>,
    /// Delivery order of `move` stamps, oldest first.
    pub move_history: Ghost<Seq<u64>>,
}

impl SessionContext {
    /// A stream marker agrees with its delivery history.
    pub open spec fn stream_wf(last: Option<u64>, hist: Seq<u64>) -> bool {
        &&& strictly_increasing(hist)
        &&& match last {
            None => hist.len() == 0,
            Some(l) => hist.len() > 0 && hist.last() == l,
        }
    }

    pub open spec fn wf(self) -> bool {
        &&& Self::stream_wf(self.typed_delivered, self.typed_history@)
        &&& Self::stream_wf(self.move_delivered, self.move_history@)
    }

    /// A fresh session: nothing delivered yet on either stream.
    pub fn new(cwd: String) -> (s: Self)
        ensures
            s.wf(),
            s.cwd == cwd,
            s.last_query is None,
            s.typed_delivered is None,
            s.move_delivered is None,
            s.typed_history@ == Seq::<u64>::empty(),
            s.move_history@ == Seq::<u64>::empty(),
    {
        SessionContext {
            cwd,
            last_query: None,
            typed_delivered: None,
            move_delivered: None,
            typed_history: Ghost(Seq::empty()),
            move_history: Ghost(Seq::empty()),
        }
    }

    /// The atomic compare-and-set of the `typed` stream: record delivery of
    /// stamp `seq` exactly when it is newer than everything delivered so far,
    /// and report whether it was. On a stale stamp nothing changes.
    pub fn try_deliver_typed(&mut self, seq: u64) -> (fresh: bool)
        requires
            old(self).wf(),
        ensures
            final(self).wf(),
            fresh == newer_than(old(self).typed_delivered, seq),
            fresh ==> final(self).typed_delivered == Some(seq)
                && final(self).typed_history@ == old(self).typed_history@.push(seq),
            !fresh ==> *final(self) == *old(self),
            final(self).cwd == old(self).cwd,
            final(self).last_query == old(self).last_query,
            final(self).move_delivered == old(self).move_delivered,
            final(self).move_history == old(self).move_history,
    {
        let fresh = match self.typed_delivered {
            None => true,
            Some(l) => seq > l,
        };
        if fresh {
            proof {
                Self::lemma_push_newer(self.typed_history@, self.typed_delivered, seq);
            }
            self.typed_history = Ghost(self.typed_history@.push(seq));
            self.typed_delivered = Some(seq);
        }
        fresh
    }

    /// The same compare-and-set for the `move` stream, against its own
    /// sequence, independent of `typed`.
    pub fn try_deliver_move(&mut self, seq: u64) -> (fresh: bool)
        requires
            old(self).wf(),
        ensures
            final(self).wf(),
            fresh == newer_than(old(self).move_delivered, seq),
            fresh ==> final(self).move_delivered == Some(seq)
                && final(self).move_history@ == old(self).move_history@.push(seq),
            !fresh ==> *final(self) == *old(self),
            final(self).cwd == old(self).cwd,
            final(self).last_query == old(self).last_query,
            final(self).typed_delivered == old(self).typed_delivered,
            final(self).typed_history == old(self).typed_history,
    {
        let fresh = match self.move_delivered {
            None => true,
            Some(l) => seq > l,
        };
        if fresh {
            proof {
                Self::lemma_push_newer(self.move_history@, self.move_delivered, seq);
            }
            self.move_history = Ghost(self.move_history@.push(seq));
            self.move_delivered = Some(seq);
        }
        fresh
    }

    /// Pushing a stamp newer than the latest keeps the history strictly
    /// increasing.
    proof fn lemma_push_newer(hist: Seq<u64>, last: Option<u64>, seq: u64)
        requires
            Self::stream_wf(last, hist),
            newer_than(last, seq),
        ensures
            Self::stream_wf(Some(seq), hist.push(seq)),
    {
        let h = hist.push(seq);
        assert forall|i: int, j: int| 0 <= i < j < h.len() implies h[i] < h[j] by {
            if j < hist.len() {
                assert(h[i] == hist[i] && h[j] == hist[j]);
            } else {
                assert(h[j] == seq);
                assert(h[i] == hist[i]);
                if i < hist.len() - 1 {
                    assert(hist[i] < hist[hist.len() - 1]);
                }
            }
        }
    }
}

/// The set of responses actually delivered on each stream is monotone in its
/// stamp: in every well-formed session the delivery history is strictly
/// increasing, so no response with a smaller stamp is ever written after one
/// with a larger stamp was delivered.
pub proof fn lemma_deliveries_monotone(s: SessionContext)
    requires
        s.wf(),
    ensures
        strictly_increasing(s.typed_history@),
        strictly_increasing(s.move_history@),
{
}

} // verus!
