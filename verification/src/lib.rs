//! A dynamic registry of protocol-buffer schema descriptors.
//!
//! The registry ingests decoded descriptor trees, indexes every message type,
//! enum type, field, and enum value by name and by numeric tag, and offers
//! fast lookups for parsers that walk protocol-buffer payloads at runtime.

pub mod descriptor;
pub mod error;
pub mod indexes;
pub mod laws;
pub mod numeric;
pub mod proto;
pub mod value;
