//! A library for communicating with USB devices.

mod bitset;
pub mod debug_fields;
pub mod descriptor;
pub mod descriptors;
pub mod endpoint;
pub mod enumeration;
pub mod error;
pub mod hotplug;
pub mod io;
pub mod ioaction;
pub mod maybe_future;
pub mod platform;
pub mod string_map;
pub mod text;
pub mod transfer;

pub use bitset::EndpointBitSet;
