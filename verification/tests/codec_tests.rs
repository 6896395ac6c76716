use opcua_monitor::codec::{read_node_id, write_node_id};
use opcua_monitor::service_types::browse_path::{BrowsePath, RelativePath, RelativePathElement};
use opcua_monitor::service_types::configuration_version_data_type::ConfigurationVersionDataType;
use opcua_monitor::subscription::{drain_item, tick_all};
use opcua_monitor::address_space::{AddressSpace, Node};
use opcua_monitor::monitored_item::MonitoredItem;
use opcua_monitor::types::{
    DataValue, ExtensionObject, MonitoredItemCreateRequest, MonitoringMode, MonitoringParameters,
    NodeId, ObjectId, QualifiedName, ReadValueId, Variant,
};

#[test]
fn configuration_version_encoding_is_two_le_words() {
    let v = ConfigurationVersionDataType { major_version: 1, minor_version: 0x0102_0304 };
    assert_eq!(v.byte_len(), 8);
    let mut bytes = Vec::new();
    let written = v.encode(&mut bytes);
    assert_eq!(written, 8);
    assert_eq!(bytes, vec![1, 0, 0, 0, 4, 3, 2, 1]);

    let mut pos = 0usize;
    let decoded = ConfigurationVersionDataType::decode(&bytes, &mut pos).unwrap();
    assert_eq!(decoded, v);
    assert_eq!(pos, 8);
    assert_eq!(v.object_id(), ObjectId::ConfigurationVersionDataTypeEncodingDefaultBinary);
}

#[test]
fn configuration_version_decode_fails_on_short_input() {
    let bytes = vec![1, 0, 0];
    let mut pos = 0usize;
    assert!(ConfigurationVersionDataType::decode(&bytes, &mut pos).is_err());
}

#[test]
fn node_id_uses_smallest_format() {
    let mut bytes = Vec::new();
    write_node_id(&mut bytes, &NodeId { namespace: 0, value: 5 });
    assert_eq!(bytes, vec![0, 5]);

    let mut bytes = Vec::new();
    write_node_id(&mut bytes, &NodeId { namespace: 2, value: 300 });
    assert_eq!(bytes, vec![1, 2, 44, 1]);

    let mut bytes = Vec::new();
    write_node_id(&mut bytes, &NodeId { namespace: 300, value: 70_000 });
    assert_eq!(bytes, vec![2, 44, 1, 0x70, 0x11, 0x01, 0x00]);
}

#[test]
fn node_id_decoder_accepts_non_canonical_formats() {
    // Namespace 0, value 5, written in the widest format.
    let bytes = vec![2, 0, 0, 5, 0, 0, 0];
    let mut pos = 0usize;
    let id = read_node_id(&bytes, &mut pos).unwrap();
    assert_eq!(id, NodeId { namespace: 0, value: 5 });
    assert_eq!(pos, 7);
}

#[test]
fn browse_path_round_trips() {
    let path = BrowsePath {
        starting_node: NodeId { namespace: 0, value: 84 },
        relative_path: RelativePath {
            elements: vec![
                RelativePathElement {
                    reference_type_id: NodeId { namespace: 0, value: 46 },
                    is_inverse: false,
                    include_subtypes: true,
                    target_name: QualifiedName {
                        namespace_index: 2,
                        name: Some(b"Objects".to_vec()),
                    },
                },
                RelativePathElement {
                    reference_type_id: NodeId { namespace: 1, value: 5000 },
                    is_inverse: true,
                    include_subtypes: false,
                    target_name: QualifiedName { namespace_index: 0, name: None },
                },
            ],
        },
    };
    let mut bytes = Vec::new();
    let written = path.encode(&mut bytes);
    assert_eq!(written, bytes.len());
    assert_eq!(written, path.byte_len());
    assert_eq!(path.object_id(), ObjectId::BrowsePathEncodingDefaultBinary);

    let mut pos = 0usize;
    let decoded = BrowsePath::decode(&bytes, &mut pos).unwrap();
    assert_eq!(pos, bytes.len());
    assert_eq!(decoded, path);
}

#[test]
fn browse_path_decode_fails_on_truncated_elements() {
    let path = BrowsePath {
        starting_node: NodeId { namespace: 0, value: 84 },
        relative_path: RelativePath {
            elements: vec![RelativePathElement {
                reference_type_id: NodeId { namespace: 0, value: 46 },
                is_inverse: false,
                include_subtypes: true,
                target_name: QualifiedName { namespace_index: 2, name: Some(b"X".to_vec()) },
            }],
        },
    };
    let mut bytes = Vec::new();
    let _ = path.encode(&mut bytes);
    bytes.truncate(bytes.len() - 1);
    let mut pos = 0usize;
    assert!(BrowsePath::decode(&bytes, &mut pos).is_err());
}

#[test]
fn empty_relative_path_encodes_count_only() {
    let path = RelativePath { elements: Vec::new() };
    let mut bytes = Vec::new();
    let written = path.encode(&mut bytes);
    assert_eq!(written, 4);
    assert_eq!(bytes, vec![0, 0, 0, 0]);
}

const NODE: NodeId = NodeId { namespace: 1, value: 100 };
const VALUE_ATTRIBUTE: u32 = 13;

fn dv(v: i64, t: i64) -> DataValue {
    DataValue { value: Variant::Numeric(v), status: 0, source_timestamp: t, server_timestamp: t }
}

fn request(id_handle: u32) -> MonitoredItemCreateRequest {
    MonitoredItemCreateRequest {
        item_to_monitor: ReadValueId { node_id: NODE, attribute_id: VALUE_ATTRIBUTE },
        monitoring_mode: MonitoringMode::Reporting,
        requested_parameters: MonitoringParameters {
            client_handle: id_handle,
            sampling_interval: 0,
            filter: ExtensionObject { node_id: NodeId { namespace: 0, value: 0 }, body: None },
            queue_size: 4,
            discard_oldest: true,
        },
    }
}

#[test]
fn driver_shim_ticks_and_drains_in_order() {
    let mut space = AddressSpace::new();
    let mut node = Node::new(NODE);
    node.add_attribute(VALUE_ATTRIBUTE, dv(1, 1));
    space.add_node(node);

    let mut items = vec![
        MonitoredItem::new_at(1, &request(11), 0).unwrap(),
        MonitoredItem::new_at(2, &request(22), 0).unwrap(),
    ];
    tick_all(&mut items, &space, 1, true);
    assert_eq!(items[0].queue_len(), 1);
    assert_eq!(items[1].queue_len(), 1);

    let mut space2 = AddressSpace::new();
    let mut node2 = Node::new(NODE);
    node2.add_attribute(VALUE_ATTRIBUTE, dv(2, 2));
    space2.add_node(node2);
    tick_all(&mut items, &space2, 2, true);

    // Drain the first item fully, the second under a budget of one.
    let first = drain_item(&mut items[0], 10);
    assert_eq!(first.len(), 2);
    assert_eq!(first[0].value, dv(1, 1)); // oldest first
    assert_eq!(first[1].value, dv(2, 2));
    assert_eq!(first[0].client_handle, 11);

    let second = drain_item(&mut items[1], 1);
    assert_eq!(second.len(), 1);
    assert_eq!(second[0].value, dv(1, 1));
    assert_eq!(items[1].queue_len(), 1);

    // A zero budget removes nothing and leaves the queue as it was.
    let none = drain_item(&mut items[1], 0);
    assert!(none.is_empty());
    assert_eq!(items[1].queue_len(), 1);
}
