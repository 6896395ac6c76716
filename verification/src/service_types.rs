//! The service payload types the engine exchanges with its callers, each
//! with its binary encoding: length computation, append-to-stream encode,
//! and cursor decode, all pinned to byte-sequence specs.

pub mod browse_path;
pub mod configuration_version_data_type;
pub mod register_server_request;
