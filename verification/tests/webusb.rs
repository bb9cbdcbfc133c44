//! WebUSB.

use nusb::descriptors::Configuration;
use nusb::enumeration::{DeviceId, PlatformDeviceId};
use nusb::error::{Error, ErrorKind, OsErrorFormat};
use nusb::platform::webusb::device::{
    active_configuration_value, check_claim, check_device_descriptor, complete_transfer,
    control_in_result, control_out_result, descriptor_data, extract_descriptors, get_descriptor,
    ClaimState, TransferReply, WebusbInterface,
};
use nusb::platform::webusb::enumeration::{
    device_to_info, DeviceSelector, FilterRule, Version, WebAlternate, WebDevice, WebInterface,
};
use nusb::platform::webusb::transfer::TransferData;
use nusb::platform::webusb::{
    js_value_to_error, js_value_to_transfer_error, usb, webusb_status_to_nusb_transfer_error,
    DeviceIds, TransferStatus,
};
use nusb::transfer::{Buffer, Direction, EndpointType, TransferError};

const CONFIG: [u8; 25] = [
    9, 2, 25, 0, 1, 5, 0, 0x80, 50, // configuration
    9, 4, 0, 0, 1, 0xff, 1, 2, 0, // interface
    7, 5, 0x81, 2, 64, 0, 0, // endpoint
];

fn text(e: Error) -> String {
    e.description(OsErrorFormat::Omitted)
}

#[test]
fn devices_keep_their_numbers() {
    let mut ids = DeviceIds::new();
    let first = ids.from_device(None);
    let second = ids.from_device(None);
    assert_ne!(first, second);
    assert_eq!(ids.from_device(Some(first.id)), first);
    assert_eq!(ids.from_device(None).id, 3);
}

#[test]
fn availability_is_checked() {
    assert!(usb(true, true).is_ok());
    assert_eq!(text(usb(true, false).unwrap_err()), "WebUSB is not available");
    let e = usb(false, false).unwrap_err();
    assert_eq!(e.kind(), ErrorKind::Unsupported);
    assert_eq!(text(e), "Could not obtain Window or WorkerGlobalScope");
}

#[test]
fn status_and_exceptions_become_errors() {
    assert_eq!(webusb_status_to_nusb_transfer_error(TransferStatus::Done), Ok(()));
    assert_eq!(
        webusb_status_to_nusb_transfer_error(TransferStatus::Stall),
        Err(TransferError::Stall)
    );
    assert_eq!(
        webusb_status_to_nusb_transfer_error(TransferStatus::Babble),
        Err(TransferError::Fault)
    );
    assert_eq!(js_value_to_transfer_error(Some("NetworkError")), TransferError::Disconnected);
    assert_eq!(js_value_to_transfer_error(Some("NotFoundError")), TransferError::Fault);
    assert_eq!(js_value_to_transfer_error(None), TransferError::Fault);
    assert_eq!(text(js_value_to_error()), "WebUSB error (see logs)");
}

#[test]
fn version_is_encoded_by_digits() {
    assert_eq!(Version { major: 2, minor: 1, subminor: 0 }.encode(), 0x0210);
    assert_eq!(Version { major: 0x12, minor: 3, subminor: 4 }.encode(), 0x1234);
}

#[test]
fn device_has_the_interfaces_that_have_settings() {
    let alternate = |class: u8| WebAlternate { class, subclass: 1, protocol: 2, name: None };
    let device = |interfaces: Option<Vec<WebInterface>>| {
        device_to_info(WebDevice {
            id: 4,
            vendor_id: 0x1d50,
            product_id: 0x60e6,
            device_version: Version { major: 1, minor: 0, subminor: 2 },
            usb_version: Version { major: 2, minor: 0, subminor: 0 },
            class: 1,
            subclass: 2,
            protocol: 3,
            manufacturer_name: None,
            product_name: Some(String::from("Thing")),
            serial_number: None,
            interfaces,
        })
    };
    let d = device(Some(vec![
        WebInterface { number: 2, alternates: vec![alternate(8), alternate(9)] },
        WebInterface { number: 3, alternates: vec![] },
        WebInterface { number: 1, alternates: vec![alternate(3)] },
    ]));
    assert_eq!(d.id(), DeviceId(PlatformDeviceId::WebUsb(4)));
    assert_eq!((d.device_version(), d.usb_version()), (0x0102, 0x0200));
    assert_eq!(d.product_string(), Some("Thing"));
    let interfaces: Vec<(u8, u8)> =
        d.interfaces().iter().map(|i| (i.interface_number(), i.class())).collect();
    assert_eq!(interfaces, vec![(2, 8), (1, 3)]);
    assert!(device(None).interfaces().is_empty());
}

#[test]
fn selector_without_rules_asks_for_nothing() {
    assert!(!DeviceSelector { rules: vec![] }.asks_for_device());
    let rule = FilterRule {
        vendor_id: Some(1),
        product_id: None,
        class: None,
        subclass: None,
        protocol: None,
        serial_number: None,
    };
    assert!(DeviceSelector { rules: vec![rule] }.asks_for_device());
}

#[test]
fn descriptors_are_requested_and_checked() {
    let request = get_descriptor(3, 7, 0x0409);
    assert_eq!(request.setup_packet(), [0x80, 6, 7, 3, 9, 4, 0, 16]);
    assert_eq!(descriptor_data(Some(vec![1])).unwrap(), vec![1]);
    assert_eq!(
        text(descriptor_data(None).unwrap_err()),
        "descriptor transfer returned no data"
    );
    let mut device = [0; 18];
    device[0] = 18;
    device[1] = 1;
    assert!(check_device_descriptor(&device).is_ok());
    assert_eq!(
        text(check_device_descriptor(&device[..17]).unwrap_err()),
        "invalid device descriptor"
    );
    let kept = extract_descriptors(vec![vec![], CONFIG.to_vec(), CONFIG[..20].to_vec()]);
    assert_eq!(kept, vec![CONFIG.to_vec()]);
    assert_eq!(active_configuration_value(Some(5)), 5);
    assert_eq!(active_configuration_value(None), 0);
}

#[test]
fn interface_is_claimed_once() {
    let interfaces = [
        ClaimState { number: 0, claimed: true },
        ClaimState { number: 1, claimed: false },
        ClaimState { number: 1, claimed: true },
    ];
    assert!(check_claim(Some(&interfaces), 1).is_ok());
    let busy = check_claim(Some(&interfaces), 0).unwrap_err();
    assert_eq!((busy.kind(), text(busy)), (
        ErrorKind::Busy,
        String::from("interface already claimed")
    ));
    let missing = check_claim(Some(&interfaces), 2).unwrap_err();
    assert_eq!((missing.kind(), text(missing)), (
        ErrorKind::NotFound,
        String::from("interface not found")
    ));
    assert_eq!(text(check_claim(None, 0).unwrap_err()), "no active configuration");
}

#[test]
fn web_interface_guards_its_endpoints() {
    let endpoint = Configuration::new(&CONFIG).interface_alt_settings()[0].endpoints()[0];
    let mut i = WebusbInterface::new(0);
    assert!(i.check_alt_setting().is_ok());
    let ep = i.endpoint(endpoint).unwrap();
    assert_eq!((ep.endpoint_address(), ep.max_packet_size()), (0x81, 64));
    assert_eq!(text(i.endpoint(endpoint).unwrap_err()), "endpoint already in use");
    assert_eq!(
        text(i.check_alt_setting().unwrap_err()),
        "must drop endpoints before changing alt setting"
    );
    i.release_endpoint(0x81);
    assert!(i.set_alt_setting(2, Ok(())).is_ok());
    assert!(i.set_alt_setting(3, Err(js_value_to_error())).is_err());
    assert_eq!(i.get_alt_setting(), 2);
}

fn exception(name: &str) -> TransferReply {
    TransferReply::Exception(Some(String::from(name)))
}

#[test]
fn transfers_complete() {
    let mut buf = Buffer::new(8);
    buf.extend_from_slice(&[1, 2, 3]);
    let reply = TransferReply::Out { bytes_written: 2, status: TransferStatus::Stall };
    let c = complete_transfer(buf, Direction::Out, reply);
    assert_eq!((c.status, c.actual_len), (Err(TransferError::Stall), 2));
    assert_eq!(c.buffer.as_slice(), &[1, 2, 3]);

    let reply = TransferReply::In { data: Some(vec![4, 5]), status: TransferStatus::Done };
    let c = complete_transfer(Buffer::new(8), Direction::In, reply);
    assert_eq!((c.status, c.actual_len), (Ok(()), 2));
    assert_eq!(c.buffer.as_slice(), &[4, 5]);
    assert_eq!((c.buffer.requested_len(), c.buffer.capacity()), (8, 8));

    let reply = TransferReply::In { data: None, status: TransferStatus::Babble };
    let c = complete_transfer(Buffer::new(8), Direction::In, reply);
    assert_eq!((c.status, c.actual_len), (Err(TransferError::Fault), 0));

    let c = complete_transfer(Buffer::new(8), Direction::In, exception("NetworkError"));
    assert_eq!((c.status, c.actual_len), (Err(TransferError::Disconnected), 0));
}

#[test]
fn control_requests_have_results() {
    let input = |data: Option<Vec<u8>>, status: TransferStatus| {
        control_in_result(TransferReply::In { data, status })
    };
    assert_eq!(input(Some(vec![1]), TransferStatus::Done), Ok(vec![1]));
    assert_eq!(input(None, TransferStatus::Done), Err(TransferError::Unknown(0)));
    assert_eq!(input(Some(vec![1]), TransferStatus::Stall), Err(TransferError::Stall));
    assert_eq!(control_in_result(exception("x")), Err(TransferError::Fault));
    let output = TransferReply::Out { bytes_written: 0, status: TransferStatus::Done };
    assert_eq!(control_out_result(output), Ok(()));
    assert_eq!(
        control_out_result(exception("NetworkError")),
        Err(TransferError::Disconnected)
    );
}

#[test]
fn transfer_keeps_what_it_came_to() {
    let mut t = TransferData::new(0x83, EndpointType::Bulk);
    assert_eq!(t.in_endpoint_number(), 3);
    assert_eq!(t.take_completed_out(), (vec![], 0, Ok(())));
    t.store(vec![1, 2], TransferStatus::Stall, 1);
    assert_eq!(t.take_completed_out(), (vec![1, 2], 1, Err(TransferError::Stall)));
    assert_eq!(t.take_completed_in(), (vec![1, 2], Err(TransferError::Stall)));
}
