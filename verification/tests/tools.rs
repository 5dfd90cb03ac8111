use loongsonejtag::LoongsonEjtagFactory;
use loongsonejtag::tools::{
    find_ejtag_endpoint, find_packet_size, found_ejtag_endpoints, has_ejtag_endpoints,
    is_loongson_ejtag_vidpid, loongson_ejtag_info, setting_packet_size, DebugProbeSelector,
    Direction, EndpointInfo, EndpointType, LSEJTAG_IN_EP, LSEJTAG_OUT_EP, LSEJTAG_PID, LSEJTAG_VID,
};

fn ep(address: u8, transfer_type: EndpointType, size: usize) -> EndpointInfo {
    EndpointInfo { address, transfer_type, max_packet_size: size }
}

/// The layout the probe has: bulk endpoint 2 OUT and bulk endpoint 6 IN.
fn ejtag_setting() -> Vec<EndpointInfo> {
    vec![ep(0x02, EndpointType::Bulk, 512), ep(0x86, EndpointType::Bulk, 512)]
}

#[test]
fn endpoint_addresses() {
    assert_eq!(LSEJTAG_OUT_EP, 0x02);
    assert_eq!(LSEJTAG_IN_EP, 0x86);
    assert_eq!(ep(LSEJTAG_OUT_EP, EndpointType::Bulk, 64).direction(), Direction::Out);
    assert_eq!(ep(LSEJTAG_IN_EP, EndpointType::Bulk, 64).direction(), Direction::In);
    assert_eq!(ep(0x81, EndpointType::Interrupt, 8).direction(), Direction::In);
}

#[test]
fn vid_pid() {
    assert!(is_loongson_ejtag_vidpid(0x2961, 0x6688));
    assert!(is_loongson_ejtag_vidpid(LSEJTAG_VID, LSEJTAG_PID));
    assert!(!is_loongson_ejtag_vidpid(0x2961, 0x6689));
    assert!(!is_loongson_ejtag_vidpid(0x1366, 0x6688));
}

#[test]
fn bulk_endpoints() {
    assert!(has_ejtag_endpoints(&ejtag_setting()));
    let mut doubled = ejtag_setting();
    doubled.push(ep(LSEJTAG_IN_EP, EndpointType::Bulk, 64));
    assert!(!has_ejtag_endpoints(&doubled));
    let interrupt = vec![
        ep(LSEJTAG_OUT_EP, EndpointType::Interrupt, 512),
        ep(LSEJTAG_IN_EP, EndpointType::Bulk, 512),
    ];
    // The addresses the probe does not use (0x82, 0x06) are not recognised.
    let swapped = vec![ep(0x82, EndpointType::Bulk, 512), ep(0x06, EndpointType::Bulk, 512)];
    assert!(!has_ejtag_endpoints(&swapped));
    assert!(!has_ejtag_endpoints(&interrupt));
    assert!(!has_ejtag_endpoints(&vec![]));
    assert!(found_ejtag_endpoints(&vec![interrupt.clone(), ejtag_setting()]));
    assert!(!found_ejtag_endpoints(&vec![interrupt, doubled]));
}

#[test]
fn probe_info() {
    let info = loongson_ejtag_info(
        0x2961,
        0x6688,
        "LS EJTAG".to_string(),
        Some("0001".to_string()),
        &vec![ejtag_setting()],
    )
    .unwrap();
    assert_eq!(info.identifier, "LS EJTAG");
    assert_eq!(info.vendor_id, 0x2961);
    assert_eq!(info.product_id, 0x6688);
    assert_eq!(info.serial_number.as_deref(), Some("0001"));
    assert!(info.hid_interface.is_none());
    assert_eq!(info.probe_factory, LoongsonEjtagFactory);
    assert!(loongson_ejtag_info(0x2961, 0x6688, String::new(), None, &vec![]).is_none());
    assert!(loongson_ejtag_info(0x1234, 0x6688, String::new(), None, &vec![ejtag_setting()]).is_none());
}

#[test]
fn packet_size_of_setting() {
    assert_eq!(setting_packet_size(&ejtag_setting()), Some(512));
    let usable = vec![ep(0x86, EndpointType::Bulk, 64), ep(0x02, EndpointType::Bulk, 512)];
    assert_eq!(setting_packet_size(&usable), Some(64));
    // A later endpoint at the same address replaces an earlier one.
    let mut replaced = usable.clone();
    replaced.push(ep(0x86, EndpointType::Bulk, 32));
    assert_eq!(setting_packet_size(&replaced), Some(32));
    assert_eq!(setting_packet_size(&vec![usable[0]]), None);
    // Endpoints 0x82 and 0x06 are endpoint 2 IN and endpoint 6 OUT: not the probe's.
    let swapped = vec![ep(0x82, EndpointType::Bulk, 512), ep(0x06, EndpointType::Bulk, 512)];
    assert_eq!(setting_packet_size(&swapped), None);
}

#[test]
fn packet_size_of_device() {
    assert_eq!(find_packet_size(&vec![]), 512);
    let other = vec![ep(0x81, EndpointType::Bulk, 8)];
    assert_eq!(find_packet_size(&vec![other.clone()]), 512);
    assert!(find_ejtag_endpoint(&other).is_none());
    let small = vec![
        ep(0x81, EndpointType::Bulk, 8),
        ep(LSEJTAG_OUT_EP, EndpointType::Bulk, 64),
        ep(LSEJTAG_IN_EP, EndpointType::Bulk, 16),
    ];
    assert_eq!(find_ejtag_endpoint(&small).unwrap().max_packet_size, 64);
    assert_eq!(find_packet_size(&vec![ejtag_setting(), small, other]), 64);
}

#[test]
fn selector() {
    let any_serial = DebugProbeSelector { vendor_id: 0x2961, product_id: 0x6688, serial_number: None };
    assert!(any_serial.matches(0x2961, 0x6688, &None));
    assert!(any_serial.matches(0x2961, 0x6688, &Some("x".to_string())));
    assert!(!any_serial.matches(0x2961, 0x6687, &None));
    let one = DebugProbeSelector {
        vendor_id: 0x2961,
        product_id: 0x6688,
        serial_number: Some("A1".to_string()),
    };
    assert!(one.matches(0x2961, 0x6688, &Some("A1".to_string())));
    assert!(!one.matches(0x2961, 0x6688, &Some("A2".to_string())));
    assert!(!one.matches(0x2961, 0x6688, &None));
}
