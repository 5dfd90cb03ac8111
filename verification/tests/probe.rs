use loongsonejtag::{
    check_firmware_version, drain_continues, probe_setup, set_initial_speed_command,
    LSEJTAG_INITIAL_CLOCK_DIV, LSEJTAG_INITIAL_SPEED_KHZ, firmware_version_digits, firmware_version_is_valid,
    LoongsonEjtagDevice, LoongsonEjtagFactory, ProbeCreationError, SendError,
};

#[test]
fn io_errors_become_send_errors() {
    let timeout = SendError::from(std::io::Error::from(std::io::ErrorKind::TimedOut));
    assert!(matches!(timeout, SendError::Timeout));
    let other = SendError::from(std::io::Error::from(std::io::ErrorKind::BrokenPipe));
    match other {
        SendError::UsbError(e) => assert_eq!(e.kind(), std::io::ErrorKind::BrokenPipe),
        _ => panic!("expected a USB error"),
    }
}

#[test]
fn firmware_version_printing() {
    assert_eq!(firmware_version_digits(0x20250213), b"20250213".to_vec());
    assert_eq!(firmware_version_digits(0x00ab_cdef), b"00ABCDEF".to_vec());
    assert_eq!(firmware_version_digits(0), b"00000000".to_vec());
}

#[test]
fn firmware_version_must_be_bcd() {
    assert!(firmware_version_is_valid(0x20250213));
    assert!(firmware_version_is_valid(0x99999999));
    assert!(!firmware_version_is_valid(0x2025021a));
    assert!(!firmware_version_is_valid(0xf0000000));
    assert!(check_firmware_version(0x20190101).is_ok());
    match check_firmware_version(0x1234567f) {
        Err(ProbeCreationError::Other(msg)) => assert_eq!(msg, "Invalid version number"),
        _ => panic!("expected an invalid version"),
    }
}

#[test]
fn device_state() {
    let mut device = LoongsonEjtagDevice::new(64);
    assert_eq!(device.max_packet_size(), 64);
    assert_eq!(device.queued_read_length(), 0);
    device.set_packet_size(512);
    assert_eq!(device.max_packet_size(), 512);
    assert_eq!(device.queue_reply(4, true), 4);
    assert_eq!(device.queued_read_length(), 0);
}

#[test]
fn draining_stops_on_empty_or_failed_reads() {
    assert!(drain_continues(Some(64)));
    assert!(!drain_continues(Some(0)));
    assert!(!drain_continues(None));
}

#[test]
fn factory_name() {
    assert_eq!(LoongsonEjtagFactory.display_name(), "Loongson EJTAG");
}

#[test]
fn setup_of_a_new_probe() {
    let setup = probe_setup(0x20250213).unwrap();
    assert_eq!(setup.firmware_version, 0x20250213);
    assert_eq!(setup.speed_khz, 2000);
    assert_eq!(LSEJTAG_INITIAL_SPEED_KHZ, 2000);
    match probe_setup(0x2025021b) {
        Err(ProbeCreationError::Other(msg)) => assert_eq!(msg, "Invalid version number"),
        _ => panic!("expected an invalid version"),
    }
    let cmd = set_initial_speed_command();
    assert_eq!(cmd.address, 0x81000070);
    assert_eq!(cmd.write_data, Some(8));
    assert_eq!(LSEJTAG_INITIAL_CLOCK_DIV, 8);
}
