//! Collection version files: their naming in storage, their validation, and
//! their protobuf encoding.

pub mod collection_uuid;
pub mod laws;
pub mod nesting;
pub mod proto;
pub mod roundtrip;
pub mod version_file;
pub mod wire;
pub mod wire_io;
