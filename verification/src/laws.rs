//! The engine's standing laws, proved once over the ghost transition
//! functions that the executable methods implement.

use vstd::prelude::*;
use crate::monitored_item::{
    drain_spec, enqueue_spec, model_wf, should_sample_spec, tick_spec, ItemModel,
};
use crate::types::{DataValue, MonitoredItemNotification};

verus! {

/// Queue bound: however an item is ticked, the queue length stays between
/// zero and the item's capacity.
pub proof fn lemma_tick_preserves_queue_bound(
    m: ItemModel,
    sample: Option<DataValue>,
    now: int,
    subscription_interval_elapsed: bool,
)
    requires
        model_wf(m),
    ensures
        model_wf(tick_spec(m, sample, now, subscription_interval_elapsed).0),
        0 <= tick_spec(m, sample, now, subscription_interval_elapsed).0.queue.len()
            <= m.queue_size,
{
}

/// Queue bound under draining: a drain never grows the queue and keeps the
/// item well formed.
pub proof fn lemma_drain_preserves_queue_bound(m: ItemModel)
    requires
        model_wf(m),
    ensures
        model_wf(drain_spec(m).0),
        drain_spec(m).0.queue.len() <= m.queue.len(),
{
}

/// Draining is first-in, first-out: the notification handed out is the
/// oldest one queued, the tail of the newest-first queue, and the younger
/// notifications all stay, in their order.
pub proof fn lemma_drain_returns_oldest(m: ItemModel)
    requires
        m.queue.len() > 0,
    ensures
        drain_spec(m).1 == Option::Some(m.queue[m.queue.len() - 1]),
        drain_spec(m).0.queue == m.queue.drop_last(),
        forall|i: int| 0 <= i < m.queue.len() - 1 ==> drain_spec(m).0.queue[i] == m.queue[i],
{
}

/// An enqueue below capacity displaces nothing: every queued notification
/// keeps its successors, so an enqueued notification is returned in FIFO
/// order relative to later enqueues as long as no overflow intervenes. In
/// particular the oldest entry — the next to be drained — is unchanged.
pub proof fn lemma_enqueue_keeps_order(m: ItemModel, current: DataValue)
    requires
        model_wf(m),
        m.queue.len() < m.queue_size,
    ensures
        enqueue_spec(m, current).queue.len() == m.queue.len() + 1,
        enqueue_spec(m, current).queue[0] == (MonitoredItemNotification {
            client_handle: m.client_handle,
            value: current,
        }),
        forall|i: int|
            0 <= i < m.queue.len() ==> enqueue_spec(m, current).queue[i + 1] == m.queue[i],
        m.queue.len() > 0 ==> enqueue_spec(m, current).queue.last() == m.queue.last(),
        enqueue_spec(m, current).queue_overflow == m.queue_overflow,
{
    let q2 = enqueue_spec(m, current).queue;
    assert forall|i: int| 0 <= i < m.queue.len() implies q2[i + 1] == m.queue[i] by {
        assert(q2 == m.queue.insert(0, MonitoredItemNotification {
            client_handle: m.client_handle,
            value: current,
        }));
    }
}

/// FIFO at the tick level: while the queue is below capacity, a tick that
/// enqueues never changes which notification the next drain returns — the
/// oldest stays next in line — and into an empty queue the enqueued
/// notification itself becomes the next one drained.
pub proof fn lemma_tick_keeps_next_drain(
    m: ItemModel,
    sample: Option<DataValue>,
    now: int,
    subscription_interval_elapsed: bool,
)
    requires
        model_wf(m),
        m.queue.len() < m.queue_size,
        tick_spec(m, sample, now, subscription_interval_elapsed).1,
    ensures
        m.queue.len() > 0 ==> drain_spec(tick_spec(m, sample, now, subscription_interval_elapsed).0).1
            == drain_spec(m).1,
        m.queue.len() == 0 ==> drain_spec(
            tick_spec(m, sample, now, subscription_interval_elapsed).0,
        ).1 == Option::Some(
            (MonitoredItemNotification { client_handle: m.client_handle, value: sample->0 }),
        ),
{
}

/// Overflow law, raising side: a tick that enqueues while the queue is at
/// capacity leaves the overflow flag set.
pub proof fn lemma_overflow_set_on_full_enqueue(
    m: ItemModel,
    sample: Option<DataValue>,
    now: int,
    subscription_interval_elapsed: bool,
)
    requires
        model_wf(m),
        tick_spec(m, sample, now, subscription_interval_elapsed).1,
        m.queue.len() == m.queue_size,
    ensures
        tick_spec(m, sample, now, subscription_interval_elapsed).0.queue_overflow,
{
}

/// Overflow law, clearing side: immediately after any successful drain the
/// overflow flag is false.
pub proof fn lemma_overflow_cleared_on_drain(m: ItemModel)
    requires
        drain_spec(m).1 is Some,
    ensures
        !drain_spec(m).0.queue_overflow,
{
}

/// First-sample law: a tick that decides to sample and reads a value while
/// no prior sample is recorded always enqueues, whatever the filter.
pub proof fn lemma_first_sample_enqueues(
    m: ItemModel,
    sample: Option<DataValue>,
    now: int,
    subscription_interval_elapsed: bool,
)
    requires
        m.last_data_value is None,
        should_sample_spec(m, now, subscription_interval_elapsed),
        sample is Some,
    ensures
        tick_spec(m, sample, now, subscription_interval_elapsed).1,
{
}

} // verus!
