//! Delivery of a single editor command as a one-way msgpack notification.

pub mod decode;
pub mod delivery;
pub mod wire;
