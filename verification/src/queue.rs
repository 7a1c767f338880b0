//! Bounded FIFO request queue.
//!
//! Concurrent callers enqueue prompts; a single worker drains the queue one
//! request at a time in arrival order.  The queue has a fixed finite
//! capacity: once full, enqueueing fails with saturation rather than growing
//! without bound.  Each accepted request gets a ticket; tickets are handed
//! out in strictly increasing order, so the ticket order is the arrival
//! order.

use vstd::prelude::*;

use crate::engine::{SessionError, SessionErrorV};

verus! {

/// One queued request: its ticket and its prompt text.
pub struct QueuedRequest {
    /// Arrival ticket: strictly increasing across accepted requests.
    pub ticket: u64,
    /// The prompt to send.
    pub prompt: String,
}

/// Bounded FIFO queue of pending requests.
pub struct RequestQueue {
    items: Vec<QueuedRequest>,
    capacity: usize,
    next_ticket: u64,
}

impl RequestQueue {
    /// The queued requests in arrival order, oldest first.
    pub closed spec fn view(&self) -> Seq<(u64, Seq<char>)> {
        self.items@.map(|k: int, q: QueuedRequest| (q.ticket, q.prompt@))
    }

    /// The fixed capacity.
    pub closed spec fn spec_capacity(&self) -> int {
        self.capacity as int
    }

    /// The ticket the next accepted request will get.
    pub closed spec fn spec_next_ticket(&self) -> u64 {
        self.next_ticket
    }

    /// Queue invariant: within capacity, tickets strictly increasing and
    /// below the next ticket.
    pub closed spec fn wf(&self) -> bool {
        &&& self.items@.len() <= self.capacity
        &&& (forall|a: int, b: int|
            0 <= a < b < self.items@.len() ==> self.items@[a].ticket < self.items@[b].ticket)
        &&& (forall|a: int|
            0 <= a < self.items@.len() ==> self.items@[a].ticket < self.next_ticket)
    }

    /// An empty queue with the given capacity.
    pub fn new(capacity: usize) -> (r: RequestQueue)
        ensures
            r.wf(),
            r@ == Seq::<(u64, Seq<char>)>::empty(),
            r.spec_capacity() == capacity,
            r.spec_next_ticket() == 0,
    {
        let r = RequestQueue { items: Vec::new(), capacity, next_ticket: 0 };
        proof {
            assert(r@ =~= Seq::<(u64, Seq<char>)>::empty());
        }
        r
    }

    /// How many requests are pending.
    pub fn len(&self) -> (r: usize)
        ensures
            r == self@.len(),
    {
        self.items.len()
    }

    /// Whether the queue is empty.
    pub fn is_empty(&self) -> (r: bool)
        ensures
            r == (self@.len() == 0),
    {
        self.items.len() == 0
    }

    /// Whether the queue is full: the next enqueue would be refused.
    pub fn is_full(&self) -> (r: bool)
        ensures
            r == (self@.len() >= self.spec_capacity()),
    {
        self.items.len() >= self.capacity
    }

    /// Accept a request, unless the queue is full.
    ///
    /// Within capacity the request is appended at the back and gets the next
    /// ticket; on a full queue nothing changes and saturation is reported.
    pub fn enqueue(&mut self, prompt: String) -> (r: Result<u64, SessionError>)
        requires
            old(self).wf(),
            old(self).spec_next_ticket() < u64::MAX,
        ensures
            final(self).wf(),
            final(self).spec_capacity() == old(self).spec_capacity(),
            old(self)@.len() < old(self).spec_capacity() ==> ({
                &&& (r matches Ok(t) && t == old(self).spec_next_ticket())
                &&& final(self)@ == old(self)@.push(
                    (old(self).spec_next_ticket(), prompt@),
                )
                &&& final(self).spec_next_ticket() == old(self).spec_next_ticket() + 1
            }),
            old(self)@.len() >= old(self).spec_capacity() ==> ({
                &&& (r matches Err(e) && e@ == SessionErrorV::QueueSaturated)
                &&& final(self)@ == old(self)@
                &&& final(self).spec_next_ticket() == old(self).spec_next_ticket()
            }),
    {
        if self.items.len() >= self.capacity {
            return Err(SessionError::QueueSaturated);
        }
        let t = self.next_ticket;
        self.items.push(QueuedRequest { ticket: t, prompt });
        self.next_ticket = t + 1;
        proof {
            assert(self@ =~= old(self)@.push((t, self.items@[self.items@.len() - 1].prompt@)));
        }
        Ok(t)
    }

    /// Remove and return the oldest request, if any.
    pub fn dequeue(&mut self) -> (r: Option<QueuedRequest>)
        requires
            old(self).wf(),
        ensures
            final(self).wf(),
            final(self).spec_capacity() == old(self).spec_capacity(),
            final(self).spec_next_ticket() == old(self).spec_next_ticket(),
            old(self)@.len() == 0 ==> r is None && final(self)@ == old(self)@,
            old(self)@.len() > 0 ==> ({
                &&& (r matches Some(q) && (q.ticket, q.prompt@) == old(self)@[0])
                &&& final(self)@ == old(self)@.drop_first()
            }),
    {
        if self.items.len() == 0 {
            return None;
        }
        let q = self.items.remove(0);
        proof {
            assert(self@ =~= old(self)@.drop_first());
        }
        Some(q)
    }
}

/// FIFO law: tickets expose the arrival order, so a queue served front-first
/// completes requests in the order they were accepted — for any two pending
/// requests, the one that arrived earlier carries the smaller ticket and is
/// dequeued first.
pub proof fn lemma_arrival_order(q: RequestQueue, a: int, b: int)
    requires
        q.wf(),
        0 <= a < b < q@.len(),
    ensures
        q@[a].0 < q@[b].0,
{
}

} // verus!
