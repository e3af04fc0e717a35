//! Bounded single-producer/single-consumer parameter channel.
//!
//! The channel carries the latest control-derived parameter sets from the
//! low-priority sampling task to the high-priority audio task. The producer
//! side never blocks: publishing into a full channel fails immediately and
//! silently, and the next sampling cycle simply retries. The consumer side
//! drains every pending entry and keeps only the most recent one — a
//! coalescing drain — which is correct because parameter sets are
//! idempotent snapshots: only the most recent control state matters.
//!
//! The backing store is the lock-free ring buffer of `heapless::spsc`,
//! reached through trusted wrappers whose contracts state what the queue's
//! source shows: FIFO order, capacity of one less than the slot count, and
//! rejection without mutation when full.

use crate::filter::FilterParams;
use vstd::prelude::*;

verus! {

/// Slots of the backing ring buffer.
pub const CHANNEL_SLOTS: usize = 8;

/// Entries the channel holds at most: one slot of the ring stays free.
pub const CHANNEL_CAPACITY: usize = 7;

/// The backing `heapless::spsc::Queue`, held opaquely: the queue's storage
/// parameter is bounded by a sealed trait that cannot be declared to Verus,
/// so the whole cell is opaque and its contents are reached only through
/// the trusted wrappers below.
#[verifier::external_body]
pub struct QueueCell {
    queue: heapless::spsc::Queue<FilterParams, CHANNEL_SLOTS>,
}

/// The entries pending in the backing queue, oldest first.
pub uninterp spec fn queue_entries(q: QueueCell) -> Seq<FilterParams>;

/// Relies on `heapless::spsc::Queue::new`: creates an empty queue.
#[verifier::external_body]
fn queue_new() -> (q: QueueCell)
    ensures
        queue_entries(q) == Seq::<FilterParams>::empty(),
{
    QueueCell { queue: heapless::spsc::Queue::new() }
}

/// Relies on `heapless::spsc::Queue::enqueue`: appends the item at the back
/// when fewer than `CHANNEL_CAPACITY` entries are pending, and otherwise
/// returns the item back without touching the queue.
#[verifier::external_body]
fn queue_enqueue(q: &mut QueueCell, item: FilterParams) -> (r: Result<(), FilterParams>)
    ensures
        r == (if queue_entries(*old(q)).len() < CHANNEL_CAPACITY {
            Ok::<(), FilterParams>(())
        } else {
            Err::<(), FilterParams>(item)
        }),
        queue_entries(*final(q)) == (if queue_entries(*old(q)).len() < CHANNEL_CAPACITY {
            queue_entries(*old(q)).push(item)
        } else {
            queue_entries(*old(q))
        }),
{
    q.queue.enqueue(item)
}

/// Relies on `heapless::spsc::Queue::dequeue`: removes and returns the
/// oldest pending entry, or returns nothing and changes nothing when the
/// queue is empty.
#[verifier::external_body]
fn queue_dequeue(q: &mut QueueCell) -> (r: Option<FilterParams>)
    ensures
        r == (if queue_entries(*old(q)).len() == 0 {
            Option::<FilterParams>::None
        } else {
            Some(queue_entries(*old(q)).first())
        }),
        queue_entries(*final(q)) == (if queue_entries(*old(q)).len() == 0 {
            queue_entries(*old(q))
        } else {
            queue_entries(*old(q)).drop_first()
        }),
{
    q.queue.dequeue()
}

/// Bounded FIFO conduit for parameter sets between the control-sampling
/// task and the audio task. Non-blocking producer, coalescing consumer.
pub struct ParamChannel {
    queue: QueueCell,
}

impl ParamChannel {
    /// The pending entries, oldest first.
    pub closed spec fn pending(self) -> Seq<FilterParams> {
        queue_entries(self.queue)
    }

    /// Creates an empty channel.
    pub fn new() -> (ch: ParamChannel)
        ensures
            ch.pending() == Seq::<FilterParams>::empty(),
    {
        ParamChannel { queue: queue_new() }
    }

    /// Non-blocking publish: appends the parameter set when the channel has
    /// room and reports whether it was accepted. On a full channel it
    /// returns immediately with `false` and alters nothing — the pending
    /// entries the consumer will see are exactly as before.
    pub fn try_publish(&mut self, params: FilterParams) -> (accepted: bool)
        ensures
            old(self).pending().len() < CHANNEL_CAPACITY ==> accepted && final(self).pending()
                == old(self).pending().push(params),
            old(self).pending().len() >= CHANNEL_CAPACITY ==> !accepted && final(self).pending()
                == old(self).pending(),
    {
        match queue_enqueue(&mut self.queue, params) {
            Ok(()) => true,
            Err(_) => false,
        }
    }

    /// Coalescing drain: dequeues every pending entry and returns only the
    /// most recent one, discarding the intermediate values; returns nothing
    /// when the channel was empty. Either way the channel is left empty.
    pub fn coalescing_drain(&mut self) -> (latest: Option<FilterParams>)
        ensures
            final(self).pending() == Seq::<FilterParams>::empty(),
            old(self).pending().len() == 0 ==> latest is None,
            old(self).pending().len() > 0 ==> latest == Some(old(self).pending().last()),
    {
        let mut latest: Option<FilterParams> = None;
        loop
            invariant
                self.pending().len() <= old(self).pending().len(),
                self.pending() == old(self).pending().skip(
                    old(self).pending().len() - self.pending().len(),
                ),
                latest is None ==> self.pending() == old(self).pending(),
                latest matches Some(p) ==> old(self).pending().len() > self.pending().len() && p
                    == old(self).pending()[old(self).pending().len() - self.pending().len() - 1],
            ensures
                self.pending().len() == 0,
                old(self).pending().len() == 0 ==> latest is None,
                old(self).pending().len() > 0 ==> latest == Some(old(self).pending().last()),
            decreases self.pending().len(),
        {
            let ghost drained = old(self).pending().len() - self.pending().len();
            match queue_dequeue(&mut self.queue) {
                Some(p) => {
                    proof {
                        assert(old(self).pending().skip(drained).drop_first() =~= old(
                            self,
                        ).pending().skip(drained + 1));
                    }
                    latest = Some(p);
                },
                None => {
                    break ;
                },
            }
        }
        latest
    }
}

} // verus!
