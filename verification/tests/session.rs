use serial_session::device::ReadOutcome;
use serial_session::error::SerialError;
use serial_session::registry::{default_baud, triage_read, Registry, DEFAULT_TIMEOUT_MS};

#[test]
fn default_settings() {
    assert_eq!(default_baud(), 115200);
    assert_eq!(DEFAULT_TIMEOUT_MS, 100);
}

#[test]
fn close_is_idempotent_even_when_never_opened() {
    let mut reg = Registry::new();
    assert!(reg.close("/dev/ttyACM0"));
    assert!(reg.close("/dev/ttyACM0"));
    assert!(reg.close("/dev/ttyACM0"));
}

#[test]
fn read_on_never_opened_path_is_not_open() {
    let mut reg = Registry::new();
    assert_eq!(reg.read("/dev/ttyXYZ", 16, None), Err(SerialError::NotOpen));
}

#[test]
fn write_on_never_opened_path_is_not_open() {
    let mut reg = Registry::new();
    assert_eq!(reg.write("/dev/ttyXYZ", &vec![1, 2, 3]), Err(SerialError::NotOpen));
}

#[test]
fn set_timeout_on_never_opened_path_is_not_open() {
    let mut reg = Registry::new();
    assert_eq!(reg.set_timeout("/dev/ttyXYZ", 250), Err(SerialError::NotOpen));
    assert!(!reg.is_open("/dev/ttyXYZ"));
}

#[test]
fn open_of_missing_device_fails_and_installs_nothing() {
    let mut reg = Registry::new();
    let r = reg.open("/dev/tty-no-such-device", 9600);
    assert_eq!(r, Err(SerialError::Open));
    assert!(!reg.is_open("/dev/tty-no-such-device"));
    assert_eq!(reg.read("/dev/tty-no-such-device", 4, None), Err(SerialError::NotOpen));
}

#[test]
fn triage_keeps_nonempty_data() {
    let r = triage_read(ReadOutcome::Data(vec![0x01, 0x02, 0x03]));
    assert_eq!(r, Ok(vec![0x01, 0x02, 0x03]));
}

#[test]
fn triage_folds_empty_read_into_no_data() {
    assert_eq!(triage_read(ReadOutcome::Data(vec![])), Err(SerialError::NoData));
}

#[test]
fn triage_folds_timeout_into_no_data() {
    assert_eq!(triage_read(ReadOutcome::TimedOut), Err(SerialError::NoData));
}

#[test]
fn triage_keeps_other_failures_with_their_diagnostic() {
    let r = triage_read(ReadOutcome::Failed("device reports readiness".to_string()));
    assert_eq!(r, Err(SerialError::Io("device reports readiness".to_string())));
}

#[test]
fn error_messages() {
    assert_eq!(SerialError::Open.message(), "failed to open");
    assert_eq!(SerialError::NotOpen.message(), "port not open");
    assert_eq!(SerialError::NoData.message(), "no data received");
    assert_eq!(SerialError::Io("boom".to_string()).message(), "boom");
}

/// A live session against a pseudo-terminal: open, the not-open check after
/// open, write length, no-data timeout, delivered bytes, replace on reopen,
/// and idempotent close. Skipped silently if the environment offers no
/// pseudo-terminals.
#[test]
fn pty_session_round_trip() {
    let (mut master, slave) = match serialport::TTYPort::pair() {
        Ok(pair) => pair,
        Err(_) => return,
    };
    let path = match serialport::SerialPort::name(&slave) {
        Some(n) => n,
        None => return,
    };
    drop(slave);

    let mut reg = Registry::new();
    assert_eq!(reg.open(&path, 9600), Ok(true));
    assert!(reg.is_open(&path));

    // Freshly opened: the operations pass the not-open check.
    assert_eq!(reg.set_timeout(&path, 50), Ok(true));

    // A write accepts the whole buffer and reports exactly its length.
    let data = vec![0x01u8, 0x02, 0x03, 0x04, 0x05];
    assert_eq!(reg.write(&path, &data), Ok(5));
    let mut echoed = [0u8; 8];
    let n = std::io::Read::read(&mut master, &mut echoed).unwrap();
    assert_eq!(&echoed[..n], &[0x01, 0x02, 0x03, 0x04, 0x05]);

    // Nothing pending: the configured timeout elapses into NoData, not a hang
    // and not a generic error.
    let started = std::time::Instant::now();
    assert_eq!(reg.read(&path, 16, None), Err(SerialError::NoData));
    assert!(started.elapsed() < std::time::Duration::from_secs(5));

    // Pending input is returned as-is, up to the requested size.
    std::io::Write::write_all(&mut master, &[9u8, 8, 7]).unwrap();
    assert_eq!(reg.read(&path, 16, Some(1000)), Ok(vec![9, 8, 7]));

    // A zero-size read still uses a one-byte buffer and returns one byte.
    std::io::Write::write_all(&mut master, &[0x55u8]).unwrap();
    assert_eq!(reg.read(&path, 0, Some(1000)), Ok(vec![0x55]));

    // Re-opening the same path replaces the session and still works.
    assert_eq!(reg.open(&path, 115200), Ok(true));
    assert!(reg.is_open(&path));
    assert_eq!(reg.write(&path, &vec![42u8]), Ok(1));
    let n = std::io::Read::read(&mut master, &mut echoed).unwrap();
    assert_eq!(&echoed[..n], &[42]);

    // Closing twice succeeds both times.
    assert!(reg.close(&path));
    assert!(!reg.is_open(&path));
    assert!(reg.close(&path));
}
