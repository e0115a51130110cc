//! The event dispatcher: an unbounded FIFO queue of pending events and the
//! logic of one flush pass.
//!
//! A flush drains the queue in batches of at most 25 events. Each batch is
//! handed to the transport; a transport failure or a server error (5xx) marks
//! the batch retryable and it is re-enqueued at the tail once the pass is
//! over, so the next flush retries it. Any other outcome — success or a
//! client error — drops the batch. The transport itself (one HTTP POST per
//! batch) lives outside this crate; the caller drives a pass with
//! [`EventDispatcher::dequeue_many`], [`record_outcome`] and
//! [`EventDispatcher::enqueue_many`], or hands the outcomes to
//! [`EventDispatcher::flush_with`] whole.

use vstd::prelude::*;

use crate::config::Config;
use crate::event::Event;
use std::collections::VecDeque;

verus! {

/// Most events one batch may carry.
pub const MAX_BATCH_SIZE: usize = 25;

/// What one delivery attempt of a batch came to.
#[derive(Clone, Copy, PartialEq, Eq, Structural, Debug)]
pub enum DeliveryResult {
    /// A response arrived with this HTTP status code.
    Status(u16),
    /// No response: connection error or timeout.
    TransportFailure,
}

/// A batch is retried exactly on transport failure or a server error.
pub open spec fn spec_retryable(r: DeliveryResult) -> bool {
    match r {
        DeliveryResult::Status(s) => 500 <= s <= 599,
        DeliveryResult::TransportFailure => true,
    }
}

/// Classifies one delivery outcome: retry on transport failure or 5xx, drop
/// otherwise.
pub fn retryable(r: &DeliveryResult) -> (b: bool)
    ensures
        b == spec_retryable(*r),
{
    match r {
        DeliveryResult::Status(s) => 500 <= *s && *s <= 599,
        DeliveryResult::TransportFailure => true,
    }
}

/// How many events one dequeue takes from a queue of `len`: all of them,
/// capped at `max`.
pub open spec fn spec_batch_len(len: nat, max: nat) -> nat {
    if len < max {
        len
    } else {
        max
    }
}

/// The events a flush pass re-enqueues: the concatenation, in order, of the
/// batches whose delivery outcome was retryable. Batches are taken from the
/// front, 25 at a time, with the matching outcome beside them.
pub open spec fn spec_flush_failed(q: Seq<Event>, results: Seq<DeliveryResult>) -> Seq<Event>
    decreases q.len(),
{
    if q.len() == 0 || results.len() == 0 {
        Seq::empty()
    } else {
        let b = spec_batch_len(q.len(), MAX_BATCH_SIZE as nat) as int;
        let rest = spec_flush_failed(q.skip(b), results.drop_first());
        if spec_retryable(results[0]) {
            q.take(b) + rest
        } else {
            rest
        }
    }
}

/// Thread-unsafe core of the dispatcher; the embedding application wraps it
/// in its own lock and runs the periodic flush loop.
pub struct EventDispatcher {
    queue: VecDeque<Event>,
    url: String,
}

impl View for EventDispatcher {
    type V = Seq<Event>;

    closed spec fn view(&self) -> Seq<Event> {
        self.queue@
    }
}

impl EventDispatcher {
    /// Where the batches go; resolved once from the configuration.
    pub closed spec fn spec_url(&self) -> Seq<char> {
        self.url@
    }

    /// The endpoint one flush pass posts its batches to.
    pub fn url(&self) -> (u: &String)
        ensures
            u@ == self.spec_url(),
    {
        &self.url
    }

    /// A dispatcher with an empty queue, bound to the configured endpoint.
    pub fn new(config: &Config) -> (d: Self)
        ensures
            d@ == Seq::<Event>::empty(),
            d.spec_url() == config.ingest_api_url@,
    {
        EventDispatcher { queue: VecDeque::new(), url: config.ingest_api_url.clone() }
    }

    /// How many events are pending.
    pub fn len(&self) -> (n: usize)
        ensures
            n == self@.len(),
    {
        self.queue.len()
    }

    /// Snapshot check; the queue may change before the caller acts on it.
    pub fn is_empty(&self) -> (b: bool)
        ensures
            b == (self@.len() == 0),
    {
        self.queue.len() == 0
    }

    /// Appends one event at the tail.
    pub fn enqueue(&mut self, event: Event)
        ensures
            final(self)@ == old(self)@.push(event),
            final(self).spec_url() == old(self).spec_url(),
    {
        self.queue.push_back(event);
    }

    /// Appends a sequence at the tail, keeping its order.
    pub fn enqueue_many(&mut self, events: Vec<Event>)
        ensures
            final(self)@ == old(self)@ + events@,
            final(self).spec_url() == old(self).spec_url(),
    {
        let ghost q0 = self.queue@;
        let ghost evs = events@;
        let mut events = events;
        while events.len() > 0
            invariant
                self.queue@ + events@ == q0 + evs,
                self.spec_url() == old(self).spec_url(),
            decreases events@.len(),
        {
            let e = events.remove(0);
            self.queue.push_back(e);
            proof {
                assert(self.queue@ + events@ =~= q0 + evs);
            }
        }
        proof {
            assert(self.queue@ =~= self.queue@ + events@);
        }
    }

    /// Removes and returns up to `max` events from the head, in FIFO order;
    /// empty when the queue is.
    pub fn dequeue_many(&mut self, max: usize) -> (batch: Vec<Event>)
        ensures
            batch@ == old(self)@.take(spec_batch_len(old(self)@.len(), max as nat) as int),
            final(self)@ == old(self)@.skip(spec_batch_len(old(self)@.len(), max as nat) as int),
            final(self).spec_url() == old(self).spec_url(),
    {
        let ghost q0 = self.queue@;
        let mut batch: Vec<Event> = Vec::new();
        while batch.len() < max && self.queue.len() > 0
            invariant
                batch@.len() <= max,
                batch@.len() <= q0.len(),
                batch@ == q0.take(batch@.len() as int),
                self.queue@ == q0.skip(batch@.len() as int),
                self.spec_url() == old(self).spec_url(),
            decreases max - batch@.len(),
        {
            let ghost k = batch@.len() as int;
            proof {
                assert(q0.skip(k).len() > 0);
            }
            let e = self.queue.pop_front().unwrap();
            batch.push(e);
            proof {
                assert(q0.take(k + 1) =~= q0.take(k).push(q0[k]));
                assert(q0.skip(k + 1) =~= q0.skip(k).drop_first());
            }
        }
        proof {
            let b = spec_batch_len(q0.len(), max as nat) as int;
            assert(batch@.len() == b);
        }
        batch
    }

    /// One whole flush pass, with the delivery outcome of each batch handed
    /// in: batch `i` of the pass gets `results[i]`. Drains the queue, keeps
    /// the retryable batches, and re-enqueues them at the tail.
    pub fn flush_with(&mut self, results: &Vec<DeliveryResult>)
        requires
            MAX_BATCH_SIZE * results@.len() >= old(self)@.len(),
        ensures
            final(self)@ == spec_flush_failed(old(self)@, results@),
            final(self).spec_url() == old(self).spec_url(),
    {
        let ghost q0 = self.queue@;
        if self.is_empty() {
            proof {
                assert(spec_flush_failed(q0, results@) =~= q0);
            }
            return ;
        }
        let mut failed: Vec<Event> = Vec::new();
        let mut i: usize = 0;
        let result_count = results.len();
        proof {
            assert(results@.skip(0) =~= results@);
            assert(Seq::<Event>::empty() + spec_flush_failed(q0, results@) =~= spec_flush_failed(
                q0,
                results@,
            ));
        }
        loop
            invariant
                result_count == results@.len(),
                i <= results@.len(),
                MAX_BATCH_SIZE * (results@.len() - i) >= self.queue@.len(),
                failed@ + spec_flush_failed(self.queue@, results@.skip(i as int)) == spec_flush_failed(
                    q0,
                    results@,
                ),
                self.spec_url() == old(self).spec_url(),
            ensures
                failed@ == spec_flush_failed(q0, results@),
                self.queue@.len() == 0,
                self.spec_url() == old(self).spec_url(),
            decreases self.queue@.len(),
        {
            let ghost q_before = self.queue@;
            let batch = self.dequeue_many(MAX_BATCH_SIZE);
            if batch.len() == 0 {
                proof {
                    assert(spec_flush_failed(q_before, results@.skip(i as int)) =~= Seq::<
                        Event,
                    >::empty());
                    assert(failed@ =~= failed@ + Seq::<Event>::empty());
                }
                break ;
            }
            proof {
                assert(q_before.len() > 0);
                assert(i < results@.len());
            }
            let r = results[i];
            i = i + 1;
            let ghost f0 = failed@;
            record_outcome(&mut failed, batch, &r);
            proof {
                let rs = results@;
                let b = spec_batch_len(q_before.len(), MAX_BATCH_SIZE as nat) as int;
                assert(rs.skip(i - 1).len() > 0);
                assert(rs.skip(i - 1)[0] == rs[i - 1]);
                assert(rs.skip(i - 1).drop_first() =~= rs.skip(i as int));
                let rest = spec_flush_failed(self.queue@, rs.skip(i as int));
                assert(spec_flush_failed(q_before, rs.skip(i - 1)) == (if spec_retryable(
                    rs[i - 1],
                ) {
                    q_before.take(b) + rest
                } else {
                    rest
                }));
                if spec_retryable(r) {
                    assert((f0 + q_before.take(b)) + rest =~= f0 + (q_before.take(b) + rest));
                }
            }
        }
        self.enqueue_many(failed);
        proof {
            assert(self.queue@ =~= spec_flush_failed(q0, results@));
        }
    }
}

/// One delivery decided: a retryable outcome keeps the batch for the next
/// pass; any other outcome drops it.
pub fn record_outcome(failed: &mut Vec<Event>, batch: Vec<Event>, result: &DeliveryResult)
    ensures
        final(failed)@ == (if spec_retryable(*result) {
            old(failed)@ + batch@
        } else {
            old(failed)@
        }),
{
    if retryable(result) {
        let mut batch = batch;
        failed.append(&mut batch);
    }
}

/// FIFO: a queue holding exactly `[e1, e2, e3]` hands them back in order, and
/// nothing stays behind, in one dequeue of capacity at least three.
pub proof fn lemma_queue_fifo(e1: Event, e2: Event, e3: Event, max: nat)
    requires
        max >= 3,
    ensures
        ({
            let q = seq![e1, e2, e3];
            let b = spec_batch_len(q.len(), max) as int;
            q.take(b) == q && q.skip(b) == Seq::<Event>::empty()
        }),
{
    let q = seq![e1, e2, e3];
    assert(q.take(3) =~= q);
    assert(q.skip(3) =~= Seq::<Event>::empty());
}

/// Retry keeps everything: when every batch of a pass comes back retryable,
/// the queue afterwards holds exactly the events it held before, in order.
pub proof fn lemma_flush_all_retryable(q: Seq<Event>, results: Seq<DeliveryResult>)
    requires
        forall|i: int| 0 <= i < results.len() ==> spec_retryable(#[trigger] results[i]),
        MAX_BATCH_SIZE * results.len() >= q.len(),
    ensures
        spec_flush_failed(q, results) == q,
    decreases q.len(),
{
    if q.len() == 0 {
        assert(spec_flush_failed(q, results) =~= q);
    } else {
        let b = spec_batch_len(q.len(), MAX_BATCH_SIZE as nat) as int;
        assert forall|i: int| 0 <= i < results.drop_first().len() implies spec_retryable(
            #[trigger] results.drop_first()[i],
        ) by {
            assert(results.drop_first()[i] == results[i + 1]);
        }
        lemma_flush_all_retryable(q.skip(b), results.drop_first());
        assert(q.take(b) + q.skip(b) =~= q);
    }
}

/// Drop on permanent failure: when no outcome of a pass is retryable, the
/// queue afterwards is empty.
pub proof fn lemma_flush_none_retryable(q: Seq<Event>, results: Seq<DeliveryResult>)
    requires
        forall|i: int| 0 <= i < results.len() ==> !spec_retryable(#[trigger] results[i]),
        MAX_BATCH_SIZE * results.len() >= q.len(),
    ensures
        spec_flush_failed(q, results) == Seq::<Event>::empty(),
    decreases q.len(),
{
    if q.len() == 0 {
    } else {
        let b = spec_batch_len(q.len(), MAX_BATCH_SIZE as nat) as int;
        assert forall|i: int| 0 <= i < results.drop_first().len() implies !spec_retryable(
            #[trigger] results.drop_first()[i],
        ) by {
            assert(results.drop_first()[i] == results[i + 1]);
        }
        lemma_flush_none_retryable(q.skip(b), results.drop_first());
    }
}

} // verus!
