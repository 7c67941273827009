//! The caller-facing error vocabulary.
//!
//! Every failing operation reports exactly one of these variants; the
//! diagnostic text of the underlying transport is kept only for the
//! generic I/O failure.

use vstd::prelude::*;

verus! {

/// The closed set of failure outcomes of the session registry.
///
/// `Open`: the device could not be opened (missing, busy, or permission
/// denied). `NotOpen`: the operation needs a live handle and the path has
/// none. `NoData`: a read produced zero bytes, whether the device-level
/// timeout elapsed or the read itself returned empty; the two are folded
/// together on purpose. `Io`: any other transport-level failure, carrying
/// the underlying diagnostic text.
#[derive(Debug, PartialEq, Eq)]
pub enum SerialError {
    Open,
    NotOpen,
    NoData,
    Io(String),
}

impl SerialError {
    /// The short human-readable message that the host shows for this error.
    pub fn message(&self) -> (r: String)
        ensures
            self is Open ==> r@ == "failed to open"@,
            self is NotOpen ==> r@ == "port not open"@,
            self is NoData ==> r@ == "no data received"@,
            self matches SerialError::Io(m) ==> r@ == m@,
    {
        match self {
            SerialError::Open => "failed to open".to_owned(),
            SerialError::NotOpen => "port not open".to_owned(),
            SerialError::NoData => "no data received".to_owned(),
            SerialError::Io(m) => m.clone(),
        }
    }
}

} // verus!
