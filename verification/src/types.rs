//! Plain data types shared by the monitored-item engine and the codecs.

use vstd::prelude::*;

verus! {

/// Identifies a node in the address space by namespace index and numeric
/// identifier. The null node id (namespace 0, value 0) marks "no node".
#[derive(Clone, Copy, PartialEq, Eq, Structural, Debug)]
pub struct NodeId {
    pub namespace: u16,
    pub value: u32,
}

impl NodeId {
    pub open spec fn is_null_spec(self) -> bool {
        self.namespace == 0 && self.value == 0
    }

    pub fn new(namespace: u16, value: u32) -> (r: NodeId)
        ensures
            r == (NodeId { namespace, value }),
    {
        NodeId { namespace, value }
    }

    pub fn null() -> (r: NodeId)
        ensures
            r == (NodeId { namespace: 0u16, value: 0u32 }),
    {
        NodeId { namespace: 0, value: 0 }
    }

    pub fn is_null(&self) -> (r: bool)
        ensures
            r == self.is_null_spec(),
    {
        self.namespace == 0 && self.value == 0
    }
}

/// Object identifiers of the encodings this crate knows about.
#[derive(Clone, Copy, PartialEq, Eq, Structural, Debug)]
pub enum ObjectId {
    DataChangeFilterEncodingDefaultBinary,
    BrowsePathEncodingDefaultBinary,
    ConfigurationVersionDataTypeEncodingDefaultBinary,
    RegisterServerRequestEncodingDefaultBinary,
}

impl ObjectId {
    pub open spec fn as_node_id_spec(self) -> NodeId {
        match self {
            ObjectId::DataChangeFilterEncodingDefaultBinary => NodeId { namespace: 0, value: 724 },
            ObjectId::BrowsePathEncodingDefaultBinary => NodeId { namespace: 0, value: 545 },
            ObjectId::ConfigurationVersionDataTypeEncodingDefaultBinary => NodeId {
                namespace: 0,
                value: 14595,
            },
            ObjectId::RegisterServerRequestEncodingDefaultBinary => NodeId {
                namespace: 0,
                value: 437,
            },
        }
    }

    pub fn as_node_id(&self) -> (r: NodeId)
        ensures
            r == self.as_node_id_spec(),
    {
        match self {
            ObjectId::DataChangeFilterEncodingDefaultBinary => NodeId { namespace: 0, value: 724 },
            ObjectId::BrowsePathEncodingDefaultBinary => NodeId { namespace: 0, value: 545 },
            ObjectId::ConfigurationVersionDataTypeEncodingDefaultBinary => NodeId {
                namespace: 0,
                value: 14595,
            },
            ObjectId::RegisterServerRequestEncodingDefaultBinary => NodeId {
                namespace: 0,
                value: 437,
            },
        }
    }
}

/// OPC UA status codes the core surfaces or stores.
#[derive(Clone, Copy, PartialEq, Eq, Structural, Debug)]
pub enum StatusCode {
    Good,
    BadFilterNotAllowed,
    BadMonitoredItemFilterInvalid,
    BadDecodingError,
}

/// The value payload of a sample. Numeric payloads are fixed-point integers
/// in a caller-chosen unit, so that deadband arithmetic is exact.
#[derive(Clone, Copy, PartialEq, Eq, Structural, Debug)]
pub enum Variant {
    Empty,
    Numeric(i64),
    Boolean(bool),
}

/// A sampled attribute value: payload, status code and the two timestamps,
/// in microseconds since an arbitrary epoch.
#[derive(Clone, Copy, PartialEq, Eq, Structural, Debug)]
pub struct DataValue {
    pub value: Variant,
    pub status: u32,
    pub source_timestamp: i64,
    pub server_timestamp: i64,
}

/// What a monitored item samples: one attribute of one node.
#[derive(Clone, Copy, PartialEq, Eq, Structural, Debug)]
pub struct ReadValueId {
    pub node_id: NodeId,
    pub attribute_id: u32,
}

/// Client-requested monitoring mode; kept on the item.
#[derive(Clone, Copy, PartialEq, Eq, Structural, Debug)]
pub enum MonitoringMode {
    Disabled,
    Sampling,
    Reporting,
}

/// A notification queued for delivery: the client's handle and the sample.
#[derive(Clone, Copy, PartialEq, Eq, Structural, Debug)]
pub struct MonitoredItemNotification {
    pub client_handle: u32,
    pub value: DataValue,
}

/// A name qualified by a namespace index. The name is carried as the wire
/// does: a possibly-null byte string.
#[derive(Clone, PartialEq, Debug)]
pub struct QualifiedName {
    pub namespace_index: u16,
    pub name: Option<Vec<u8>>,
}

/// Human-readable text with an optional locale, both carried as the wire
/// does: byte strings, each present or absent.
#[derive(Clone, PartialEq, Debug)]
pub struct LocalizedText {
    pub locale: Option<Vec<u8>>,
    pub text: Option<Vec<u8>>,
}

/// A node-id-tagged opaque payload, as the wire delivers filters.
#[derive(Clone, PartialEq, Debug)]
pub struct ExtensionObject {
    pub node_id: NodeId,
    pub body: Option<Vec<u8>>,
}

/// The requested monitoring parameters of a create request, before clamping.
/// The sampling interval is in microseconds; zero and negative values are
/// sentinels the engine interprets at tick time.
#[derive(Clone, PartialEq, Debug)]
pub struct MonitoringParameters {
    pub client_handle: u32,
    pub sampling_interval: i64,
    pub filter: ExtensionObject,
    pub queue_size: u32,
    pub discard_oldest: bool,
}

/// A client's request to create one monitored item.
#[derive(Clone, PartialEq, Debug)]
pub struct MonitoredItemCreateRequest {
    pub item_to_monitor: ReadValueId,
    pub monitoring_mode: MonitoringMode,
    pub requested_parameters: MonitoringParameters,
}

} // verus!
