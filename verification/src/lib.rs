//! A driver for Kvaser CAN interfaces that connect over USB (for example, the Leaf range).
//!
//! This crate holds the verified core of the driver: the wire format of the vendor
//! messages, the length-prefixed framing used on the bulk endpoints, and the decisions
//! taken while talking to an adapter.
pub mod codec;
pub mod device;
pub mod enumeration;
pub mod message;
pub mod text;
pub mod wire;

pub use enumeration::{is_kvaser, KVASER_VID};
