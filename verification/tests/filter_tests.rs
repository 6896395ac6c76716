use opcua_monitor::address_space::{AddressSpace, Node};
use opcua_monitor::filter::{reportable, DataChangeFilter, DataChangeTrigger, DeadbandType};
use opcua_monitor::monitored_item::MonitoredItem;
use opcua_monitor::types::{
    DataValue, ExtensionObject, MonitoredItemCreateRequest, MonitoringMode, MonitoringParameters,
    NodeId, ReadValueId, StatusCode, Variant,
};

const NODE: NodeId = NodeId { namespace: 1, value: 100 };
const VALUE_ATTRIBUTE: u32 = 13;

// Numeric payloads are fixed-point with three decimals: 10.3 is 10_300.
fn dv(v: i64, t: i64) -> DataValue {
    DataValue { value: Variant::Numeric(v), status: 0, source_timestamp: t, server_timestamp: t }
}

fn space_with(value: DataValue) -> AddressSpace {
    let mut space = AddressSpace::new();
    let mut node = Node::new(NODE);
    node.add_attribute(VALUE_ATTRIBUTE, value);
    space.add_node(node);
    space
}

fn filtered_request(filter: &DataChangeFilter) -> MonitoredItemCreateRequest {
    let mut body = Vec::new();
    let written = filter.encode(&mut body);
    assert_eq!(written, 16);
    MonitoredItemCreateRequest {
        item_to_monitor: ReadValueId { node_id: NODE, attribute_id: VALUE_ATTRIBUTE },
        monitoring_mode: MonitoringMode::Reporting,
        requested_parameters: MonitoringParameters {
            client_handle: 5,
            sampling_interval: 0,
            filter: ExtensionObject {
                node_id: NodeId { namespace: 0, value: 724 },
                body: Some(body),
            },
            queue_size: 10,
            discard_oldest: true,
        },
    }
}

#[test]
fn absolute_deadband_suppresses_small_changes() {
    // Deadband 0.5 in the same fixed-point unit as the samples.
    let filter = DataChangeFilter {
        trigger: DataChangeTrigger::StatusValue,
        deadband_type: DeadbandType::Absolute,
        deadband_value: 500,
    };
    let mut item = MonitoredItem::new_at(1, &filtered_request(&filter), 0).unwrap();
    assert!(item.tick(&space_with(dv(10_000, 1)), 1, false)); // first sample
    assert!(!item.tick(&space_with(dv(10_300, 2)), 2, false)); // |0.3| <= 0.5
    assert!(item.tick(&space_with(dv(10_600, 3)), 3, false)); // |0.6| > 0.5 vs 10.0
    assert!(!item.tick(&space_with(dv(10_600, 4)), 4, false)); // unchanged
    assert_eq!(item.queue_len(), 2);
}

#[test]
fn filter_decode_round_trips_through_creation() {
    let filter = DataChangeFilter {
        trigger: DataChangeTrigger::StatusValueTimestamp,
        deadband_type: DeadbandType::Percent,
        deadband_value: 250,
    };
    let item = MonitoredItem::new_at(1, &filtered_request(&filter), 0).unwrap();
    assert_eq!(
        item.filter,
        opcua_monitor::monitored_item::FilterType::DataChangeFilter(filter)
    );
}

#[test]
fn filter_decode_rejects_out_of_range_values() {
    let body = vec![9, 0, 0, 0, 0, 0, 0, 0, 0, 0, 0, 0, 0, 0, 0, 0]; // trigger 9
    let e = DataChangeFilter::decode(&body).unwrap_err();
    assert_eq!(e, StatusCode::BadMonitoredItemFilterInvalid);
    let short = vec![1, 0, 0, 0];
    let e = DataChangeFilter::decode(&short).unwrap_err();
    assert_eq!(e, StatusCode::BadMonitoredItemFilterInvalid);
}

#[test]
fn reportable_depends_only_on_its_arguments() {
    let f = DataChangeFilter {
        trigger: DataChangeTrigger::StatusValue,
        deadband_type: DeadbandType::Absolute,
        deadband_value: 100,
    };
    let a = dv(1_000, 1);
    let b = dv(1_050, 2);
    let first = reportable(&a, &b, &f);
    let second = reportable(&a, &b, &f);
    assert_eq!(first, second);
    assert!(!first); // |0.05| <= 0.1
}

#[test]
fn status_trigger_ignores_value_changes() {
    let f = DataChangeFilter {
        trigger: DataChangeTrigger::Status,
        deadband_type: DeadbandType::NoDeadband,
        deadband_value: 0,
    };
    let a = dv(1, 1);
    let b = dv(2, 2);
    assert!(!reportable(&a, &b, &f));
    let mut c = b;
    c.status = 0x8000_0000;
    assert!(reportable(&a, &c, &f));
}

#[test]
fn timestamp_trigger_reports_timestamp_changes() {
    let f = DataChangeFilter {
        trigger: DataChangeTrigger::StatusValueTimestamp,
        deadband_type: DeadbandType::NoDeadband,
        deadband_value: 0,
    };
    let a = dv(1, 1);
    let b = dv(1, 2); // same value and status, later source timestamp
    assert!(reportable(&a, &b, &f));
    assert!(!reportable(&a, &a, &f));
}

#[test]
fn non_numeric_values_ignore_deadband() {
    let f = DataChangeFilter {
        trigger: DataChangeTrigger::StatusValue,
        deadband_type: DeadbandType::Absolute,
        deadband_value: 1_000_000,
    };
    let a = DataValue {
        value: Variant::Boolean(false),
        status: 0,
        source_timestamp: 1,
        server_timestamp: 1,
    };
    let mut b = a;
    b.value = Variant::Boolean(true);
    assert!(reportable(&a, &b, &f));
    assert!(!reportable(&a, &a, &f));
}
