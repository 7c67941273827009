//! Session manager for serial communication devices.
//!
//! The crate has two leaf components: an enumeration probe that reports which
//! of a fixed list of candidate device-node paths are present, and a session
//! registry that owns the live device handles and serializes open, close,
//! set-timeout, read and write operations on them.

pub mod device;
pub mod error;
pub mod probe;
pub mod registry;
