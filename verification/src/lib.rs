//! Server-side OPC UA subscription core: monitored items that sample
//! address-space attributes, filter changes, and queue notifications under
//! bounded-queue overflow policies, together with the binary codecs of the
//! service types the engine exchanges with its callers.

pub mod address_space;
pub mod codec;
pub mod encoding;
pub mod filter;
pub mod laws;
pub mod monitored_item;
pub mod service_types;
pub mod subscription;
pub mod types;
