//! The monitored item: the per-subscription, per-attribute state machine
//! holding sampling parameters, the last sampled value, and a bounded
//! notification queue, newest entry first. Its whole behaviour is captured
//! by the ghost transition functions `tick_spec` and `drain_spec`, which the
//! executable methods are proved to implement.

use vstd::prelude::*;
use vstd::pervasive::VecAdditionalExecFns;
use crate::address_space::{sample_spec, AddressSpace};
use crate::filter::{reportable, reportable_spec, parse_data_change_filter, DataChangeFilter};
use crate::types::{
    DataValue, MonitoredItemCreateRequest, MonitoredItemNotification, MonitoringMode, ObjectId,
    ReadValueId, StatusCode,
};

verus! {

/// Floor for positive sampling intervals, in microseconds (0.05 ms).
pub const MIN_SAMPLING_INTERVAL_US: i64 = 50;

/// Largest queue capacity an item may be created with.
pub const MAX_QUEUE_SIZE: usize = 10;

/// The filter an item was created with.
#[derive(Clone, Copy, PartialEq, Eq, Structural, Debug)]
pub enum FilterType {
    NoFilter,
    DataChangeFilter(DataChangeFilter),
}

/// The ghost shape of a monitored item.
#[verifier::ext_equal]
pub ghost struct ItemModel {
    pub monitored_item_id: u32,
    pub item_to_monitor: ReadValueId,
    pub monitoring_mode: MonitoringMode,
    pub client_handle: u32,
    pub sampling_interval: int,
    pub filter: FilterType,
    pub discard_oldest: bool,
    pub queue_size: int,
    pub queue: Seq<MonitoredItemNotification>,
    pub last_sample_time: int,
    pub last_data_value: Option<DataValue>,
    pub queue_overflow: bool,
}

/// The per-subscription, per-attribute sampler.
#[derive(Clone, PartialEq, Debug)]
pub struct MonitoredItem {
    pub monitored_item_id: u32,
    pub item_to_monitor: ReadValueId,
    pub monitoring_mode: MonitoringMode,
    pub client_handle: u32,
    pub sampling_interval: i64,
    pub filter: FilterType,
    pub discard_oldest: bool,
    pub queue_size: usize,
    pub notification_queue: Vec<MonitoredItemNotification>,
    last_sample_time: i64,
    last_data_value: Option<DataValue>,
    queue_overflow: bool,
}

impl View for MonitoredItem {
    type V = ItemModel;

    closed spec fn view(&self) -> ItemModel {
        ItemModel {
            monitored_item_id: self.monitored_item_id,
            item_to_monitor: self.item_to_monitor,
            monitoring_mode: self.monitoring_mode,
            client_handle: self.client_handle,
            sampling_interval: self.sampling_interval as int,
            filter: self.filter,
            discard_oldest: self.discard_oldest,
            queue_size: self.queue_size as int,
            queue: self.notification_queue@,
            last_sample_time: self.last_sample_time as int,
            last_data_value: self.last_data_value,
            queue_overflow: self.queue_overflow,
        }
    }
}

/// The standing invariant of an item: the capacity is clamped into range,
/// the queue never exceeds it, and a positive interval is at or above the
/// floor.
pub open spec fn model_wf(m: ItemModel) -> bool {
    &&& 1 <= m.queue_size <= MAX_QUEUE_SIZE as int
    &&& m.queue.len() <= m.queue_size
    &&& (m.sampling_interval <= 0 || m.sampling_interval >= MIN_SAMPLING_INTERVAL_US as int)
}

// ---------------------------------------------------------------------------
// Ghost transition functions
// ---------------------------------------------------------------------------

/// The decision to sample: a positive interval samples once that much time
/// has elapsed since the last sample, zero samples every tick, and a
/// negative interval follows the owning subscription's publish interval.
pub open spec fn should_sample_spec(m: ItemModel, now: int, subscription_interval_elapsed: bool) -> bool {
    if m.sampling_interval > 0 {
        now - m.last_sample_time >= m.sampling_interval
    } else if m.sampling_interval == 0 {
        true
    } else {
        subscription_interval_elapsed
    }
}

/// Change detection: the first successful sample is always reportable;
/// afterwards, without a filter any change of the value payload is, and with
/// a data-change filter the filter predicate decides.
pub open spec fn change_reportable_spec(filter: FilterType, last: Option<DataValue>, current: DataValue) -> bool {
    match last {
        Option::None => true,
        Option::Some(prev) => match filter {
            FilterType::NoFilter => current.value != prev.value,
            FilterType::DataChangeFilter(f) => reportable_spec(prev, current, f),
        },
    }
}

/// Enqueue a reportable sample, newest first. Below capacity the
/// notification is inserted at the front. At capacity, `discard_oldest`
/// drops the tail to make room; otherwise the incoming notification
/// overwrites the newest slot. Either overflow raises the overflow flag.
pub open spec fn enqueue_spec(m: ItemModel, current: DataValue) -> ItemModel {
    let n = MonitoredItemNotification { client_handle: m.client_handle, value: current };
    if m.queue.len() < m.queue_size {
        ItemModel { queue: m.queue.insert(0, n), last_data_value: Option::Some(current), ..m }
    } else if m.discard_oldest {
        ItemModel {
            queue: m.queue.drop_last().insert(0, n),
            last_data_value: Option::Some(current),
            queue_overflow: true,
            ..m
        }
    } else {
        ItemModel {
            queue: m.queue.update(0, n),
            last_data_value: Option::Some(current),
            queue_overflow: true,
            ..m
        }
    }
}

/// One tick: decide whether to sample; read the target (`sample` is what the
/// address space yields, nothing when the node, the attribute or the
/// attribute id is unknown); on a successful read record the sample time and
/// enqueue when the change is reportable. The boolean is true exactly when a
/// notification was enqueued.
pub open spec fn tick_spec(m: ItemModel, sample: Option<DataValue>, now: int, subscription_interval_elapsed: bool) -> (ItemModel, bool) {
    if !should_sample_spec(m, now, subscription_interval_elapsed) {
        (m, false)
    } else {
        match sample {
            Option::None => (m, false),
            Option::Some(current) => {
                let sampled = ItemModel { last_sample_time: now, ..m };
                if change_reportable_spec(m.filter, m.last_data_value, current) {
                    (enqueue_spec(sampled, current), true)
                } else {
                    (sampled, false)
                }
            },
        }
    }
}

/// One drain: remove and hand out the oldest queued notification (the tail
/// of the newest-first queue) and clear the overflow flag; an empty queue
/// yields nothing and changes nothing.
pub open spec fn drain_spec(m: ItemModel) -> (ItemModel, Option<MonitoredItemNotification>) {
    if m.queue.len() == 0 {
        (m, Option::None)
    } else {
        (
            ItemModel { queue: m.queue.drop_last(), queue_overflow: false, ..m },
            Option::Some(m.queue.last()),
        )
    }
}

// ---------------------------------------------------------------------------
// Construction
// ---------------------------------------------------------------------------

/// The clamped sampling interval: positive requests are raised to the floor,
/// the zero and negative sentinels are preserved.
pub open spec fn clamp_interval_spec(requested: int) -> int {
    if 0 < requested && requested < MIN_SAMPLING_INTERVAL_US as int {
        MIN_SAMPLING_INTERVAL_US as int
    } else {
        requested
    }
}

/// The clamped queue capacity: at least one, at most `MAX_QUEUE_SIZE`.
pub open spec fn clamp_queue_size_spec(requested: int) -> int {
    if requested < 1 {
        1
    } else if requested > MAX_QUEUE_SIZE as int {
        MAX_QUEUE_SIZE as int
    } else {
        requested
    }
}

/// How the filter payload of a create request is understood: a null tag
/// means no filter; the data-change filter encoding tag means the body must
/// decode to filter parameters, and a missing or malformed body fails the
/// creation; any other tag is not allowed.
pub open spec fn filter_of_request_spec(request: MonitoredItemCreateRequest) -> Result<FilterType, StatusCode> {
    let ext = request.requested_parameters.filter;
    if ext.node_id.is_null_spec() {
        Result::Ok(FilterType::NoFilter)
    } else if ext.node_id == ObjectId::DataChangeFilterEncodingDefaultBinary.as_node_id_spec() {
        match ext.body {
            Option::None => Result::Err(StatusCode::BadMonitoredItemFilterInvalid),
            Option::Some(b) => match parse_data_change_filter(b@) {
                Option::Some(f) => Result::Ok(FilterType::DataChangeFilter(f)),
                Option::None => Result::Err(StatusCode::BadMonitoredItemFilterInvalid),
            },
        }
    } else {
        Result::Err(StatusCode::BadFilterNotAllowed)
    }
}

/// The item a successful creation yields: parameters clamped, queue empty,
/// no prior sample, overflow clear, sample clock started at `now`.
pub open spec fn created_item_spec(monitored_item_id: u32, request: MonitoredItemCreateRequest, now: int, filter: FilterType) -> ItemModel {
    ItemModel {
        monitored_item_id,
        item_to_monitor: request.item_to_monitor,
        monitoring_mode: request.monitoring_mode,
        client_handle: request.requested_parameters.client_handle,
        sampling_interval: clamp_interval_spec(request.requested_parameters.sampling_interval as int),
        filter,
        discard_oldest: request.requested_parameters.discard_oldest,
        queue_size: clamp_queue_size_spec(request.requested_parameters.queue_size as int),
        queue: Seq::empty(),
        last_sample_time: now,
        last_data_value: Option::None,
        queue_overflow: false,
    }
}

/// Relies on chrono's `Utc::now`: the current UTC wall-clock instant, handed
/// on as microseconds since the Unix epoch. Nothing is promised of the
/// value: it depends on the machine's clock.
#[verifier::external_body]
fn utc_now_micros() -> i64 {
    chrono::Utc::now().timestamp_micros()
}

impl MonitoredItem {
    pub open spec fn wf(self) -> bool {
        model_wf(self@)
    }

    /// Creates an item at an explicit instant: validates and decodes the
    /// filter descriptor, clamps the sampling interval and queue capacity,
    /// and starts with an empty queue and no prior sample.
    pub fn new_at(monitored_item_id: u32, request: &MonitoredItemCreateRequest, now: i64) -> (r:
        Result<MonitoredItem, StatusCode>)
        ensures
            (r is Ok) == (filter_of_request_spec(*request) is Ok),
            r is Err ==> r->Err_0 == filter_of_request_spec(*request)->Err_0,
            r is Ok ==> r->Ok_0@ == created_item_spec(
                monitored_item_id,
                *request,
                now as int,
                filter_of_request_spec(*request)->Ok_0,
            ),
            r is Ok ==> r->Ok_0.wf(),
    {
        let filter_node = request.requested_parameters.filter.node_id;
        let filter = if filter_node.is_null() {
            FilterType::NoFilter
        } else if filter_node == ObjectId::DataChangeFilterEncodingDefaultBinary.as_node_id() {
            match &request.requested_parameters.filter.body {
                Option::None => {
                    return Err(StatusCode::BadMonitoredItemFilterInvalid);
                },
                Option::Some(b) => match DataChangeFilter::decode(b) {
                    Result::Ok(f) => FilterType::DataChangeFilter(f),
                    Result::Err(e) => {
                        return Err(e);
                    },
                },
            }
        } else {
            return Err(StatusCode::BadFilterNotAllowed);
        };

        let requested_interval = request.requested_parameters.sampling_interval;
        let sampling_interval = if 0 < requested_interval && requested_interval
            < MIN_SAMPLING_INTERVAL_US {
            MIN_SAMPLING_INTERVAL_US
        } else {
            requested_interval
        };

        let requested_queue_size = request.requested_parameters.queue_size;
        let queue_size: usize = if requested_queue_size < 1 {
            1
        } else {
            requested_queue_size as usize
        };
        let queue_size: usize = if queue_size > MAX_QUEUE_SIZE {
            MAX_QUEUE_SIZE
        } else {
            queue_size
        };

        let item = MonitoredItem {
            monitored_item_id,
            item_to_monitor: request.item_to_monitor,
            monitoring_mode: request.monitoring_mode,
            client_handle: request.requested_parameters.client_handle,
            sampling_interval,
            filter,
            discard_oldest: request.requested_parameters.discard_oldest,
            queue_size,
            notification_queue: Vec::new(),
            last_sample_time: now,
            last_data_value: None,
            queue_overflow: false,
        };
        proof {
            assert(item@ =~= created_item_spec(
                monitored_item_id,
                *request,
                now as int,
                filter_of_request_spec(*request)->Ok_0,
            ));
        }
        Ok(item)
    }

    /// Creates an item whose sample clock starts at the current wall-clock
    /// time, as the enclosing server does when handling a create request.
    pub fn new(monitored_item_id: u32, request: &MonitoredItemCreateRequest) -> (r: Result<
        MonitoredItem,
        StatusCode,
    >)
        ensures
            (r is Ok) == (filter_of_request_spec(*request) is Ok),
            r is Err ==> r->Err_0 == filter_of_request_spec(*request)->Err_0,
            r is Ok ==> r->Ok_0.wf(),
            r is Ok ==> exists|t: int|
                r->Ok_0@ == created_item_spec(
                    monitored_item_id,
                    *request,
                    t,
                    filter_of_request_spec(*request)->Ok_0,
                ),
    {
        let now = utc_now_micros();
        let r = Self::new_at(monitored_item_id, request, now);
        proof {
            if r is Ok {
                assert(r->Ok_0@ == created_item_spec(
                    monitored_item_id,
                    *request,
                    now as int,
                    filter_of_request_spec(*request)->Ok_0,
                ));
            }
        }
        r
    }

    /// Removes and returns the oldest queued notification, clearing the
    /// overflow flag on any successful removal.
    pub fn get_notification_message(&mut self) -> (r: Option<MonitoredItemNotification>)
        requires
            old(self).wf(),
        ensures
            final(self).wf(),
            final(self)@ == drain_spec(old(self)@).0,
            r == drain_spec(old(self)@).1,
    {
        if self.notification_queue.is_empty() {
            proof {
                assert(self@ =~= drain_spec(old(self)@).0);
            }
            None
        } else {
            self.queue_overflow = false;
            let popped = self.notification_queue.pop();
            proof {
                assert(self@ =~= drain_spec(old(self)@).0);
            }
            popped
        }
    }

    /// How many notifications are queued and not yet drained.
    pub fn queue_len(&self) -> (n: usize)
        ensures
            n as int == self@.queue.len(),
    {
        self.notification_queue.len()
    }

    /// Whether the queue has discarded a notification since the last drain;
    /// the driver reads it to set the overflow infobit.
    pub fn overflow_flag(&self) -> (r: bool)
        ensures
            r == self@.queue_overflow,
    {
        self.queue_overflow
    }

    /// The instant of the last successful sample.
    pub fn last_sample_time(&self) -> (r: i64)
        ensures
            r as int == self@.last_sample_time,
    {
        self.last_sample_time
    }

    /// The last sampled value, if any tick has sampled yet.
    pub fn last_data_value(&self) -> (r: Option<DataValue>)
        ensures
            r == self@.last_data_value,
    {
        self.last_data_value
    }

    /// One tick of the owning subscription: implements `tick_spec` against
    /// what the address space holds for the item's target. Returns true iff
    /// a notification was enqueued on this call.
    pub fn tick(&mut self, address_space: &AddressSpace, now: i64, subscription_interval_elapsed:
        bool) -> (enqueued: bool)
        requires
            old(self).wf(),
        ensures
            final(self).wf(),
            final(self)@ == tick_spec(
                old(self)@,
                sample_spec(address_space@, old(self)@.item_to_monitor),
                now as int,
                subscription_interval_elapsed,
            ).0,
            enqueued == tick_spec(
                old(self)@,
                sample_spec(address_space@, old(self)@.item_to_monitor),
                now as int,
                subscription_interval_elapsed,
            ).1,
    {
        let check_value = if self.sampling_interval > 0 {
            let elapsed_us: i128 = now as i128 - self.last_sample_time as i128;
            elapsed_us >= self.sampling_interval as i128
        } else if self.sampling_interval == 0 {
            true
        } else {
            subscription_interval_elapsed
        };
        if !check_value {
            return false;
        }

        match address_space.read_sample(&self.item_to_monitor) {
            Option::None => false,
            Option::Some(current) => {
                self.last_sample_time = now;
                let data_change = match self.last_data_value {
                    Option::None => true,
                    Option::Some(prev) => match self.filter {
                        FilterType::NoFilter => current.value != prev.value,
                        FilterType::DataChangeFilter(f) => reportable(&prev, &current, &f),
                    },
                };
                if data_change {
                    self.last_data_value = Some(current);
                    let notification = MonitoredItemNotification {
                        client_handle: self.client_handle,
                        value: current,
                    };
                    if self.notification_queue.len() < self.queue_size {
                        self.notification_queue.insert(0, notification);
                    } else {
                        if self.discard_oldest {
                            let _ = self.notification_queue.pop();
                            self.notification_queue.insert(0, notification);
                        } else {
                            self.notification_queue.set(0, notification);
                        }
                        self.queue_overflow = true;
                    }
                    proof {
                        assert(self@ =~= tick_spec(
                            old(self)@,
                            sample_spec(address_space@, old(self)@.item_to_monitor),
                            now as int,
                            subscription_interval_elapsed,
                        ).0);
                    }
                    true
                } else {
                    proof {
                        assert(self@ =~= tick_spec(
                            old(self)@,
                            sample_spec(address_space@, old(self)@.item_to_monitor),
                            now as int,
                            subscription_interval_elapsed,
                        ).0);
                    }
                    false
                }
            },
        }
    }
}

} // verus!
