use opcua_monitor::address_space::{AddressSpace, Node};
use opcua_monitor::monitored_item::{FilterType, MonitoredItem};
use opcua_monitor::types::{
    DataValue, ExtensionObject, MonitoredItemCreateRequest, MonitoringMode, MonitoringParameters,
    NodeId, ReadValueId, StatusCode, Variant,
};

const NODE: NodeId = NodeId { namespace: 1, value: 100 };
const VALUE_ATTRIBUTE: u32 = 13;

fn dv(v: i64, t: i64) -> DataValue {
    DataValue { value: Variant::Numeric(v), status: 0, source_timestamp: t, server_timestamp: t }
}

fn space_with(value: DataValue) -> AddressSpace {
    let mut space = AddressSpace::new();
    let mut node = Node::new(NODE);
    node.add_attribute(VALUE_ATTRIBUTE, value);
    space.add_node(node);
    space
}

fn request(interval_us: i64, queue_size: u32, discard_oldest: bool) -> MonitoredItemCreateRequest {
    MonitoredItemCreateRequest {
        item_to_monitor: ReadValueId { node_id: NODE, attribute_id: VALUE_ATTRIBUTE },
        monitoring_mode: MonitoringMode::Reporting,
        requested_parameters: MonitoringParameters {
            client_handle: 7,
            sampling_interval: interval_us,
            filter: ExtensionObject { node_id: NodeId { namespace: 0, value: 0 }, body: None },
            queue_size,
            discard_oldest,
        },
    }
}

#[test]
fn positive_interval_honors_pacing() {
    // 100 ms interval, capacity 4; the item was created 100 ms before t = 0.
    let mut item = MonitoredItem::new_at(1, &request(100_000, 4, true), -100_000).unwrap();
    let v1 = dv(1, 0);
    let v2 = dv(2, 200_000);

    assert!(item.tick(&space_with(v1), 0, false)); // first sample
    assert!(!item.tick(&space_with(v1), 50_000, false)); // too early
    assert!(!item.tick(&space_with(v1), 100_000, false)); // sampled, unchanged
    assert!(item.tick(&space_with(v2), 200_000, false)); // changed

    let n1 = item.get_notification_message().unwrap();
    assert_eq!(n1.value, v1);
    assert_eq!(n1.client_handle, 7);
    let n2 = item.get_notification_message().unwrap();
    assert_eq!(n2.value, v2);
    assert!(item.get_notification_message().is_none());
}

#[test]
fn zero_interval_samples_every_tick() {
    let mut item = MonitoredItem::new_at(1, &request(0, 4, true), 0).unwrap();
    let v1 = dv(1, 0);
    let v2 = dv(2, 2);
    assert!(item.tick(&space_with(v1), 1, false));
    assert!(!item.tick(&space_with(v1), 2, false));
    assert!(item.tick(&space_with(v2), 3, false));
    assert_eq!(item.queue_len(), 2);
}

#[test]
fn negative_interval_follows_subscription() {
    let mut item = MonitoredItem::new_at(1, &request(-1, 4, true), 0).unwrap();
    let v1 = dv(1, 0);
    assert!(!item.tick(&space_with(v1), 10, false));
    assert_eq!(item.queue_len(), 0);
    assert!(item.tick(&space_with(v1), 20, true));
    assert_eq!(item.queue_len(), 1);
}

#[test]
fn overflow_discard_oldest() {
    let mut item = MonitoredItem::new_at(1, &request(0, 2, true), 0).unwrap();
    let a = dv(1, 1);
    let b = dv(2, 2);
    let c = dv(3, 3);
    assert!(item.tick(&space_with(a), 1, false));
    assert!(item.tick(&space_with(b), 2, false));
    assert!(item.tick(&space_with(c), 3, false));

    // Newest first: [C, B]; A was discarded.
    assert_eq!(item.notification_queue.len(), 2);
    assert_eq!(item.notification_queue[0].value, c);
    assert_eq!(item.notification_queue[1].value, b);
    assert!(item.overflow_flag());

    let first = item.get_notification_message().unwrap();
    assert_eq!(first.value, b);
    assert!(!item.overflow_flag());
    let second = item.get_notification_message().unwrap();
    assert_eq!(second.value, c);
}

#[test]
fn overflow_keep_oldest_overwrites_newest() {
    let mut item = MonitoredItem::new_at(1, &request(0, 2, false), 0).unwrap();
    let a = dv(1, 1);
    let b = dv(2, 2);
    let c = dv(3, 3);
    assert!(item.tick(&space_with(a), 1, false));
    assert!(item.tick(&space_with(b), 2, false));
    assert!(item.tick(&space_with(c), 3, false));

    // Newest first: [C, A]; B, the previous newest, was overwritten.
    assert_eq!(item.notification_queue.len(), 2);
    assert_eq!(item.notification_queue[0].value, c);
    assert_eq!(item.notification_queue[1].value, a);
    assert!(item.overflow_flag());
}

#[test]
fn clamp_laws() {
    // A positive interval below the floor is raised to it (50 us = 0.05 ms).
    let item = MonitoredItem::new_at(1, &request(10, 4, true), 0).unwrap();
    assert_eq!(item.sampling_interval, 50);
    // Positive intervals at or above the floor are kept.
    let item = MonitoredItem::new_at(1, &request(100_000, 4, true), 0).unwrap();
    assert_eq!(item.sampling_interval, 100_000);
    // The sentinels are preserved.
    let item = MonitoredItem::new_at(1, &request(0, 4, true), 0).unwrap();
    assert_eq!(item.sampling_interval, 0);
    let item = MonitoredItem::new_at(1, &request(-5, 4, true), 0).unwrap();
    assert_eq!(item.sampling_interval, -5);
    // Queue sizes are clamped to [1, 10].
    let item = MonitoredItem::new_at(1, &request(0, 0, true), 0).unwrap();
    assert_eq!(item.queue_size, 1);
    let item = MonitoredItem::new_at(1, &request(0, 100, true), 0).unwrap();
    assert_eq!(item.queue_size, 10);
    let item = MonitoredItem::new_at(1, &request(0, 3, true), 0).unwrap();
    assert_eq!(item.queue_size, 3);
}

#[test]
fn created_item_starts_empty() {
    let item = MonitoredItem::new_at(9, &request(0, 4, true), 123).unwrap();
    assert_eq!(item.monitored_item_id, 9);
    assert_eq!(item.client_handle, 7);
    assert_eq!(item.filter, FilterType::NoFilter);
    assert_eq!(item.queue_len(), 0);
    assert!(!item.overflow_flag());
    assert_eq!(item.last_sample_time(), 123);
    assert!(item.last_data_value().is_none());
}

#[test]
fn unknown_filter_tag_is_rejected() {
    let mut r = request(0, 4, true);
    r.requested_parameters.filter =
        ExtensionObject { node_id: NodeId { namespace: 0, value: 999 }, body: None };
    let e = MonitoredItem::new_at(1, &r, 0).unwrap_err();
    assert_eq!(e, StatusCode::BadFilterNotAllowed);
}

#[test]
fn data_change_tag_without_body_is_invalid() {
    let mut r = request(0, 4, true);
    r.requested_parameters.filter =
        ExtensionObject { node_id: NodeId { namespace: 0, value: 724 }, body: None };
    let e = MonitoredItem::new_at(1, &r, 0).unwrap_err();
    assert_eq!(e, StatusCode::BadMonitoredItemFilterInvalid);
}

#[test]
fn malformed_filter_body_is_invalid() {
    let mut r = request(0, 4, true);
    r.requested_parameters.filter = ExtensionObject {
        node_id: NodeId { namespace: 0, value: 724 },
        body: Some(vec![1, 2, 3]),
    };
    let e = MonitoredItem::new_at(1, &r, 0).unwrap_err();
    assert_eq!(e, StatusCode::BadMonitoredItemFilterInvalid);
}

#[test]
fn missing_node_is_not_fatal() {
    let mut item = MonitoredItem::new_at(1, &request(0, 4, true), 0).unwrap();
    let empty = AddressSpace::new();
    assert!(!item.tick(&empty, 1, false));
    assert_eq!(item.queue_len(), 0);
    // The sample clock did not advance on the failed read.
    assert_eq!(item.last_sample_time(), 0);
}

#[test]
fn unknown_attribute_id_is_not_fatal() {
    let mut r = request(0, 4, true);
    r.item_to_monitor.attribute_id = 99; // outside the recognized range
    let mut item = MonitoredItem::new_at(1, &r, 0).unwrap();
    let mut space = AddressSpace::new();
    let mut node = Node::new(NODE);
    node.add_attribute(99, dv(1, 0));
    space.add_node(node);
    assert!(!item.tick(&space, 1, false));
    assert_eq!(item.queue_len(), 0);
}

#[test]
fn drain_on_empty_queue_returns_nothing() {
    let mut item = MonitoredItem::new_at(1, &request(0, 4, true), 0).unwrap();
    assert!(item.get_notification_message().is_none());
}

#[test]
fn creation_at_wall_clock_time_behaves_the_same() {
    // `new` reads the clock for the initial sample time; everything else is
    // as with an explicit instant.
    let mut item = MonitoredItem::new(4, &request(0, 2, true)).unwrap();
    assert_eq!(item.monitored_item_id, 4);
    assert_eq!(item.queue_size, 2);
    assert_eq!(item.filter, FilterType::NoFilter);
    assert_eq!(item.queue_len(), 0);
    // A zero interval samples whatever the clock said at creation.
    let now = item.last_sample_time();
    assert!(item.tick(&space_with(dv(1, 0)), now, false));
    assert_eq!(item.queue_len(), 1);
}
