use serial_session::probe::{
    available_ports, candidate_paths, DeviceInfo, SYNTHETIC_PRODUCT_ID, SYNTHETIC_VENDOR_ID,
};

#[test]
fn candidates_are_fixed() {
    let c = candidate_paths();
    assert_eq!(c, vec!["/dev/ttyACM0".to_string(), "/dev/ttyUSB0".to_string()]);
}

#[test]
fn synthetic_identity_values() {
    assert_eq!(SYNTHETIC_VENDOR_ID, 1155);
    assert_eq!(SYNTHETIC_PRODUCT_ID, 22336);
}

#[test]
fn only_first_candidate_present() {
    let r = available_ports(&vec![true, false]);
    assert_eq!(r.len(), 1);
    assert_eq!(r[0].0, "/dev/ttyACM0");
    assert_eq!(
        r[0].1,
        DeviceInfo { vendor_id: 1155, product_id: 22336, serial_number: None }
    );
    assert!(!r.iter().any(|e| e.0 == "/dev/ttyUSB0"));
}

#[test]
fn only_second_candidate_present() {
    let r = available_ports(&vec![false, true]);
    assert_eq!(r.len(), 1);
    assert_eq!(r[0].0, "/dev/ttyUSB0");
    assert_eq!(r[0].1.vendor_id, 1155);
    assert_eq!(r[0].1.product_id, 22336);
    assert_eq!(r[0].1.serial_number, None);
}

#[test]
fn both_candidates_present() {
    let r = available_ports(&vec![true, true]);
    assert_eq!(r.len(), 2);
    assert_eq!(r[0].0, "/dev/ttyACM0");
    assert_eq!(r[1].0, "/dev/ttyUSB0");
    for (_, info) in &r {
        assert_eq!(info.vendor_id, 1155);
        assert_eq!(info.product_id, 22336);
        assert_eq!(info.serial_number, None);
    }
}

#[test]
fn no_candidate_present() {
    let r = available_ports(&vec![false, false]);
    assert!(r.is_empty());
}
