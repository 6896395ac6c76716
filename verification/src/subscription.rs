//! The shim the engine exposes to its owning subscription driver: tick every
//! monitored item of a subscription in order, and drain one item's queued
//! notifications, oldest first, up to a per-response budget.

use vstd::prelude::*;
use crate::address_space::{sample_spec, AddressSpace};
use crate::monitored_item::{tick_spec, ItemModel, MonitoredItem};
use crate::types::MonitoredItemNotification;

verus! {

/// How many notifications a drain with this budget removes.
pub open spec fn drain_count(m: ItemModel, budget: int) -> int {
    if budget <= m.queue.len() {
        budget
    } else {
        m.queue.len() as int
    }
}

/// Repeated single drains, as one function of the starting item: the oldest
/// `drain_count` notifications leave the queue and are handed out oldest to
/// newest; any successful removal clears the overflow flag.
pub open spec fn drain_item_spec(m: ItemModel, budget: int) -> (ItemModel, Seq<
    MonitoredItemNotification,
>) {
    let k = drain_count(m, budget);
    (
        ItemModel {
            queue: m.queue.take(m.queue.len() - k),
            queue_overflow: if k > 0 {
                false
            } else {
                m.queue_overflow
            },
            ..m
        },
        m.queue.subrange(m.queue.len() - k, m.queue.len() as int).reverse(),
    )
}

/// Drains up to `budget` notifications from one item by repeated calls of
/// `get_notification_message`, collecting them oldest to newest.
pub fn drain_item(item: &mut MonitoredItem, budget: usize) -> (out: Vec<
    MonitoredItemNotification,
>)
    requires
        old(item).wf(),
    ensures
        final(item).wf(),
        final(item)@ == drain_item_spec(old(item)@, budget as int).0,
        out@ == drain_item_spec(old(item)@, budget as int).1,
{
    let ghost m0 = old(item)@;
    let mut out: Vec<MonitoredItemNotification> = Vec::new();
    let mut taken: usize = 0;
    while taken < budget && item.queue_len() > 0
        invariant
            item.wf(),
            taken <= budget,
            taken <= m0.queue.len(),
            item@ == (ItemModel {
                queue: m0.queue.take(m0.queue.len() - taken),
                queue_overflow: if taken > 0 {
                    false
                } else {
                    m0.queue_overflow
                },
                ..m0
            }),
            out@ == m0.queue.subrange(m0.queue.len() - taken, m0.queue.len() as int).reverse(),
        decreases budget - taken,
    {
        let ghost before = item@;
        if let Option::Some(n) = item.get_notification_message() {
            out.push(n);
            taken = taken + 1;
            proof {
                assert(before.queue.len() > 0);
                assert(before.queue.drop_last() =~= m0.queue.take(m0.queue.len() - taken));
                assert(item@ =~= (ItemModel {
                    queue: m0.queue.take(m0.queue.len() - taken),
                    queue_overflow: false,
                    ..m0
                }));
                assert(out@ =~= m0.queue.subrange(
                    m0.queue.len() - taken,
                    m0.queue.len() as int,
                ).reverse());
            }
        }
    }
    proof {
        let k = drain_count(m0, budget as int);
        assert(taken as int == k);
        assert(item@ =~= drain_item_spec(m0, budget as int).0);
        assert(out@ =~= drain_item_spec(m0, budget as int).1);
    }
    out
}

/// Ticks every monitored item of a subscription, in the order the driver
/// keeps them (ascending item id), against one address space and instant.
pub fn tick_all(
    items: &mut Vec<MonitoredItem>,
    address_space: &AddressSpace,
    now: i64,
    subscription_interval_elapsed: bool,
)
    requires
        forall|i: int| 0 <= i < old(items)@.len() ==> (#[trigger] old(items)@[i]).wf(),
    ensures
        final(items)@.len() == old(items)@.len(),
        forall|i: int| 0 <= i < old(items)@.len() ==> (#[trigger] final(items)@[i]).wf(),
        forall|i: int|
            0 <= i < old(items)@.len() ==> (#[trigger] final(items)@[i])@ == tick_spec(
                old(items)@[i]@,
                sample_spec(address_space@, old(items)@[i]@.item_to_monitor),
                now as int,
                subscription_interval_elapsed,
            ).0,
{
    let ghost init = old(items)@;
    let mut idx: usize = 0;
    while idx < items.len()
        invariant
            idx <= init.len(),
            items@.len() == init.len(),
            forall|i: int| idx <= i < init.len() ==> items@[i] == init[i],
            forall|i: int| 0 <= i < init.len() ==> (#[trigger] items@[i]).wf(),
            forall|i: int|
                0 <= i < idx ==> (#[trigger] items@[i])@ == tick_spec(
                    init[i]@,
                    sample_spec(address_space@, init[i]@.item_to_monitor),
                    now as int,
                    subscription_interval_elapsed,
                ).0,
        decreases items@.len() - idx,
    {
        let ghost before = items@;
        let mut item = items.remove(idx);
        let _ = item.tick(address_space, now, subscription_interval_elapsed);
        items.insert(idx, item);
        proof {
            assert(items@ =~= before.update(idx as int, item));
        }
        idx = idx + 1;
    }
}

} // verus!
