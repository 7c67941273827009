//! The trusted boundary to the serial transport.
//!
//! Everything that actually touches a device goes through the small wrappers
//! here, each around one call into the `serialport` crate (or its `std::io`
//! trait impls). The wrappers return plain values; what a device hands back
//! depends on hardware and timing, so the contracts state only what holds of
//! every outcome, and the registry's verified code does all triage.

use vstd::prelude::*;

verus! {

/// `serialport::TTYPort`, the platform-native handle for one open serial
/// device. Opaque to verification; the registry owns each one exclusively
/// and records its settings beside it.
#[verifier::external_type_specification]
#[verifier::external_body]
pub struct ExTTYPort(serialport::TTYPort);

/// The raw outcome of one read attempt on a device, before triage: some bytes
/// arrived (possibly none), the device-level timeout elapsed, or the transport
/// failed with a diagnostic message.
#[derive(Debug, PartialEq, Eq)]
pub enum ReadOutcome {
    Data(Vec<u8>),
    TimedOut,
    Failed(String),
}

/// Relies on `serialport::new(path, baud).timeout(..).open_native()`: on
/// success it yields an owned handle configured with the given baud rate and
/// read timeout. The descriptor is opened with shared access: re-opening an
/// already-open path must succeed, because its prior handle is released only
/// as part of the replacement; one handle per path is the registry's own
/// invariant. Whether the open succeeds depends on the device, so nothing is
/// promised of the outcome.
#[verifier::external_body]
pub(crate) fn sys_open(path: &str, baud: u32, timeout_ms: u64) -> (r: Option<serialport::TTYPort>)
{
    serialport::new(path, baud)
        .timeout(std::time::Duration::from_millis(timeout_ms))
        .exclusive(false)
        .open_native()
        .ok()
}

/// Relies on `serialport::TTYPort::set_timeout` (as `serialport::SerialPort`):
/// it stores the new read timeout and always returns `Ok`.
#[verifier::external_body]
pub(crate) fn sys_set_timeout(port: &mut serialport::TTYPort, timeout_ms: u64) -> (r: bool)
    ensures
        r == true,
{
    serialport::SerialPort::set_timeout(port, std::time::Duration::from_millis(timeout_ms)).is_ok()
}

/// Relies on `std::io::Read::read` for `serialport::TTYPort`: at most `size`
/// bytes are read into a buffer of that length, and an elapsed device-level
/// timeout surfaces as an error of kind `std::io::ErrorKind::TimedOut`.
#[verifier::external_body]
pub(crate) fn sys_read(port: &mut serialport::TTYPort, size: usize) -> (r: ReadOutcome)
    ensures
        r matches ReadOutcome::Data(bytes) ==> bytes@.len() <= size,
{
    let mut buf = vec![0u8; size];
    match std::io::Read::read(port, buf.as_mut_slice()) {
        Ok(n) => {
            buf.truncate(n);
            ReadOutcome::Data(buf)
        }
        Err(e) => {
            if e.kind() == std::io::ErrorKind::TimedOut {
                ReadOutcome::TimedOut
            } else {
                ReadOutcome::Failed(e.to_string())
            }
        }
    }
}

/// Relies on `std::io::Write::write_all` for `serialport::TTYPort`: `Ok`
/// means the transport accepted the entire buffer, so the count of accepted
/// bytes is the buffer's length; a short write is surfaced as an error.
#[verifier::external_body]
pub(crate) fn sys_write(port: &mut serialport::TTYPort, data: &Vec<u8>) -> (r: Result<
    usize,
    String,
>)
    ensures
        r matches Ok(n) ==> n == data@.len(),
{
    match std::io::Write::write_all(port, data.as_slice()) {
        Ok(()) => Ok(data.len()),
        Err(e) => Err(e.to_string()),
    }
}

} // verus!
