//! Core engine of a multi-client chat relay: the framed binary message
//! codec, the credential gate, the client registry, the per-connection
//! session decisions and the drain handshake that lets the accept loop
//! stop once the last client has left.
pub mod async_chat_msg;
pub mod client;
pub mod codec;
pub mod creds;
mod kv;
pub mod paths;
pub mod registry;
pub mod server;
pub mod session;
pub mod strings;
pub mod wire;

pub use codec::{deserialize_msg, serialize_msg};
pub use paths::get_file_name;
pub use wire::{u32_from_be_bytes, u32_to_be_bytes};
