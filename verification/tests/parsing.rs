//! Descriptors piece by piece, and the tree of configurations.

use nusb::descriptor::{
    parse_configurations, BosDescriptor, Descriptor as _, DescriptorHeader, EndpointDescriptor,
    EndpointSyncType, EndpointUsageType, InterfaceDescriptor, ParseError,
};
use nusb::descriptors::{
    decode_string_descriptor, validate_config_descriptor, validate_string_descriptor,
    ActiveConfigurationError, Configuration, Descriptor, DeviceDescriptor,
};
use nusb::transfer::{Direction, EndpointType};

const DEVICE: [u8; 18] =
    [18, 1, 0x10, 2, 0xef, 2, 1, 64, 0x50, 0x1d, 0xe6, 0x60, 0x34, 0x12, 1, 2, 3, 1];

/// A configuration with two interfaces, one of them with two alternate settings, and descriptors
/// of the device's own kind in between.
const CONFIG: [u8; 57] = [
    9, 2, 57, 0, 2, 5, 7, 0xe0, 50, // configuration
    3, 0x41, 1, // extra
    9, 4, 0, 0, 1, 3, 1, 2, 4, // interface 0
    4, 0x21, 1, 2, // extra
    7, 5, 0x83, 0x2d, 0x00, 0x14, 4, // isochronous in
    2, 0x25, // extra
    9, 4, 1, 0, 0, 0xff, 0, 0, 0, // interface 1
    9, 4, 0, 1, 0, 3, 1, 2, 0, // interface 0, setting 1
    5, 0x24, 9, 9, 9, // extra
];

#[test]
fn device_descriptor_is_read() {
    let d = match DeviceDescriptor::new(&DEVICE) {
        Some(d) => d,
        None => panic!("rejected"),
    };
    assert_eq!((d.usb_version(), d.device_version()), (0x0210, 0x1234));
    assert_eq!((d.vendor_id(), d.product_id()), (0x1d50, 0x60e6));
    assert_eq!((d.class(), d.subclass(), d.protocol()), (0xef, 2, 1));
    assert!(DeviceDescriptor::new(&DEVICE[..17]).is_none());
    let mut wrong = DEVICE;
    wrong[1] = 2;
    assert!(DeviceDescriptor::new(&wrong).is_none());
}

#[test]
fn descriptors_are_walked_one_by_one() {
    let c = Configuration::new(&CONFIG);
    let mut all = c.descriptors();
    assert_eq!(all.as_bytes(), &CONFIG);
    let mut types = vec![];
    while let Some(d) = all.next() {
        assert_eq!(d.len(), d.descriptor_len());
        types.push(d.descriptor_type());
    }
    assert_eq!(types, vec![2, 0x41, 4, 0x21, 5, 0x25, 4, 4, 0x24]);
    assert!(Descriptor::new(&[2, 5]).is_some());
    assert!(Descriptor::new(&[1, 5]).is_some());
    assert!(Descriptor::new(&[3, 5]).is_none());
    assert!(Descriptor::new(&[2]).is_none());
}

#[test]
fn configuration_has_its_parts() {
    let c = Configuration::new(&CONFIG);
    assert_eq!((c.configuration_value(), c.num_interfaces()), (5, 2));
    assert_eq!((c.attributes(), c.max_power()), (0xe0, 50));
    assert_eq!(c.string_index(), Some(7));
    let interfaces = c.interfaces();
    assert_eq!(interfaces.len(), 2);
    assert_eq!(interfaces[0].interface_number(), 0);
    assert_eq!(interfaces[0].alt_settings().len(), 2);
    assert_eq!(interfaces[0].first_alt_setting().string_index(), Some(4));
    assert_eq!(interfaces[1].first_alt_setting().string_index(), None);

    let setting = interfaces[0].first_alt_setting();
    assert_eq!((setting.class(), setting.subclass(), setting.protocol()), (3, 1, 2));
    let endpoints = setting.endpoints();
    assert_eq!(endpoints.len(), 1);
    let ep = endpoints[0];
    assert_eq!((ep.address(), ep.direction()), (0x83, Direction::In));
    assert_eq!(ep.transfer_type(), EndpointType::Isochronous);
    assert_eq!((ep.max_packet_size(), ep.packets_per_microframe()), (1024, 3));
    assert_eq!((ep.max_packet_size_raw(), ep.attributes(), ep.interval()), (0x1400, 0x2d, 4));
    // All trailing descriptors belong to the endpoint, the shortest ones too.
    let mut trailing = ep.descriptors();
    assert_eq!(trailing.next().map(|d| d.descriptor_type()), Some(5));
    assert_eq!(trailing.next().map(|d| d.descriptor_type()), Some(0x25));
    assert!(trailing.next().is_none());
}

#[test]
fn configuration_is_validated() {
    assert_eq!(validate_config_descriptor(&CONFIG), Some(57));
    assert_eq!(validate_config_descriptor(&CONFIG[..56]), None);
    assert_eq!(validate_config_descriptor(&CONFIG[..8]), None);
    assert_eq!(validate_config_descriptor(&DEVICE), None);
}

#[test]
fn strings_are_decoded() {
    let decode = |data: &[u8]| decode_string_descriptor(data);
    assert_eq!(decode(&[6, 3, b'H', 0, b'i', 0]), Ok(String::from("Hi")));
    assert_eq!(decode(&[2, 3]), Ok(String::new()));
    assert_eq!(decode(&[6, 3, 0x3d, 0xd8, 0x00, 0xde]), Ok(String::from("\u{1f600}")));
    assert_eq!(decode(&[6, 3, 0x3d, 0xd8, b'x', 0]), Ok(String::from("\u{fffd}x")));
    assert_eq!(decode(&[4, 3, 0x00, 0xde]), Ok(String::from("\u{fffd}")));
    assert_eq!(decode(&[4, 3, 0xe4, 0]), Ok(String::from("\u{e4}")));
    assert_eq!(decode(&[5, 3, b'H', 0]), Err(()));
    assert_eq!(decode(&[4, 2, b'H', 0]), Err(()));
    assert_eq!(decode(&[1]), Err(()));
    assert!(validate_string_descriptor(&[4, 3, 0, 0]));
    assert!(!validate_string_descriptor(&[4, 3, 0]));
}

#[test]
fn missing_configuration_is_described() {
    let e = ActiveConfigurationError { configuration_value: 4 };
    assert_eq!(e.message(), "no descriptor found for active configuration 4");
    let e = ActiveConfigurationError { configuration_value: 0 };
    assert_eq!(e.message(), "device is not configured");
}

#[test]
fn headers_and_fixed_descriptors_are_read() {
    assert!(matches!(
        DescriptorHeader::from_slice(&[4, 3]),
        Ok(DescriptorHeader { bLength: 4, bDescriptorType: 3 })
    ));
    assert_eq!(DescriptorHeader::from_slice(&[1, 3]).err(), Some(ParseError));
    assert_eq!(DescriptorHeader::from_slice(&[4]).err(), Some(ParseError));

    let bos = BosDescriptor::from_slice(&[5, 15, 22, 0, 2]).unwrap();
    assert_eq!((bos.wTotalLength, bos.bNumDeviceCaps), (22, 2));
    assert!(BosDescriptor::from_slice(&[4, 15, 22, 0]).is_err());
    let device = nusb::descriptor::DeviceDescriptor::from_slice(&DEVICE).unwrap();
    assert_eq!((device.idVendor, device.bNumConfigurations), (0x1d50, 1));
    let config = nusb::descriptor::ConfigurationDescriptor::from_slice(&CONFIG[..9]).unwrap();
    assert_eq!((config.wTotalLength, config.bConfigurationValue), (57, 5));
    assert!(InterfaceDescriptor::from_slice(&CONFIG[..8]).is_err());
    assert!(InterfaceDescriptor::valid_length(9));
    // An audio endpoint has two more fields.
    let ep = EndpointDescriptor::from_slice(&[9, 5, 0x81, 1, 64, 0, 1, 2, 0x82]).unwrap();
    assert_eq!((ep.bRefresh, ep.bSynchAddress), (2, 0x82));
    let ep = EndpointDescriptor::from_slice(&[7, 5, 0x81, 1, 64, 0, 1]).unwrap();
    assert_eq!((ep.bRefresh, ep.bSynchAddress), (0, 0));
    assert!(EndpointDescriptor::from_slice(&[8, 5, 0x81, 1, 64, 0, 1, 0]).is_err());
}

#[test]
fn configuration_tree_is_parsed() {
    let mut data = DEVICE.to_vec();
    data.extend(CONFIG);
    data.extend([9, 2, 9, 0, 0, 6, 0, 0x80, 10]);
    let configurations = parse_configurations(&data).unwrap();
    assert_eq!(configurations.len(), 2);
    let c = &configurations[0];
    assert_eq!((c.number(), c.max_power(), c.num_interfaces()), (5, 100, 2));
    assert!(c.self_powered() && c.remote_wakeup());
    assert_eq!(c.description_string_index(), Some(7));
    assert_eq!(c.extra_descriptors(), &[3, 0x41, 1]);
    assert_eq!(configurations[1].number(), 6);
    assert!(!configurations[1].self_powered());
    assert_eq!(configurations[1].description_string_index(), None);
    assert!(configurations[1].interfaces().is_empty());

    let interfaces = c.interfaces();
    assert_eq!(interfaces.len(), 2);
    assert_eq!(interfaces[0].number(), 0);
    let settings = interfaces[0].alternate_settings();
    assert_eq!(settings.len(), 2);
    let s = &settings[0];
    assert_eq!((s.interface_number(), s.alternate_setting_number()), (0, 0));
    assert_eq!((s.class_code(), s.sub_class_code(), s.protocol_code()), (3, 1, 2));
    assert_eq!(s.description_string_index(), Some(4));
    assert_eq!(s.extra_descriptors(), &[4, 0x21, 1, 2]);
    assert_eq!(settings[1].alternate_setting_number(), 1);
    assert_eq!(settings[1].extra_descriptors(), &[5, 0x24, 9, 9, 9]);
    assert_eq!(settings[1].num_endpoints(), 0);

    let ep = &s.endpoints()[0];
    assert_eq!((ep.address(), ep.number(), ep.direction()), (0x83, 3, Direction::In));
    assert_eq!(ep.transfer_type(), EndpointType::Isochronous);
    assert_eq!(ep.sync_type(), EndpointSyncType::Synchronous);
    assert_eq!(ep.usage_type(), EndpointUsageType::FeedbackData);
    assert_eq!((ep.max_packet_size(), ep.interval()), (0x1400, 4));
    assert_eq!((ep.refresh(), ep.synch_address()), (0, 0));
    assert_eq!(ep.extra_descriptors(), &[2, 0x25]);
}

#[test]
fn malformed_tree_is_an_error() {
    assert!(parse_configurations(&[]).unwrap().is_empty());
    assert!(parse_configurations(&DEVICE).unwrap().is_empty());
    assert!(parse_configurations(&[9]).is_err());
    assert!(parse_configurations(&[1, 2]).is_err());
    assert!(parse_configurations(&CONFIG[..56]).is_err());
    assert!(parse_configurations(&[8, 2, 8, 0, 0, 6, 0, 0x80]).is_err());
    // Reading stops at a standard descriptor that is out of place.
    let mut data = CONFIG.to_vec();
    data.extend(DEVICE);
    data.push(0);
    assert_eq!(parse_configurations(&data).unwrap().len(), 1);
}
