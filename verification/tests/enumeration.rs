//! What is known of devices and buses on each platform, and events about them.

use nusb::debug_fields::{Field, FieldValue};
use nusb::descriptors::Configuration;
use nusb::endpoint::Poll;
use nusb::enumeration::{
    BusInfo, DevfsPath, DeviceId, DeviceInfo, InterfaceInfo, PlatformBusInfo, PlatformDeviceId,
    PlatformInfo, Speed, SysfsPath, UsbControllerType,
};
use nusb::error::{Error, ErrorKind};
use nusb::hotplug::{cancellable_next, watch_devices, EventQueue, HotplugEvent};
use nusb::string_map::StringMap;
use nusb::transfer::{Direction, EndpointType};

fn device(platform: PlatformInfo) -> DeviceInfo {
    DeviceInfo {
        platform,
        bus_id: String::from("003"),
        device_address: 17,
        port_chain: vec![6, 4],
        vendor_id: 0x1d50,
        product_id: 0x60e,
        device_version: 0x0102,
        usb_version: 0x0210,
        class: 0xef,
        subclass: 2,
        protocol: 1,
        speed: Some(Speed::High),
        manufacturer_string: None,
        product_string: Some(String::from("Thing")),
        serial_number: None,
        interfaces: vec![InterfaceInfo {
            interface_number: 1,
            class: 3,
            subclass: 4,
            protocol: 0x5a,
            interface_string: Some(String::from("Name")),
        }],
    }
}

fn linux() -> PlatformInfo {
    PlatformInfo::Linux { path: SysfsPath(String::from("/sys/x")), busnum: 3 }
}

fn macos() -> PlatformInfo {
    PlatformInfo::MacOs { registry_id: 0x1_0000_0abc, location_id: 0x14200000 }
}

fn windows() -> PlatformInfo {
    PlatformInfo::Windows {
        instance_id: vec![0x55],
        location_paths: vec![vec![0x50], vec![0x51]],
        parent_instance_id: vec![0x56],
        port_number: 9,
        devinst: 77,
        driver: Some(String::from("WinUSB")),
    }
}

fn bus(platform: PlatformBusInfo) -> BusInfo {
    BusInfo {
        platform,
        driver: Some(String::from("driver")),
        bus_id: String::from("003"),
        controller_type: Some(UsbControllerType::XHCI),
    }
}

fn macos_bus() -> PlatformBusInfo {
    PlatformBusInfo::MacOs {
        registry_id: 0xabc,
        location_id: 0x14000000,
        provider_class_name: String::from("AppleUSBXHCI"),
        class_name: String::from("AppleUSBRootHub"),
        name: Some(String::from("Root")),
    }
}

fn windows_bus() -> PlatformBusInfo {
    PlatformBusInfo::Windows {
        instance_id: vec![0x55],
        location_paths: vec![vec![0x50]],
        devinst: 77,
        root_hub_description: String::from("Hub"),
        parent_instance_id: vec![0x56],
    }
}

#[test]
fn devices_are_identified_by_platform() {
    let id = |platform: PlatformInfo| device(platform).id();
    assert_eq!(id(linux()), DeviceId(PlatformDeviceId::Bus(3, 17)));
    assert_eq!(id(macos()), DeviceId(PlatformDeviceId::RegistryEntry(0x1_0000_0abc)));
    assert_eq!(id(windows()), DeviceId(PlatformDeviceId::DevInst(77)));
    assert_eq!(
        id(PlatformInfo::Android { device_id: -5 }),
        DeviceId(PlatformDeviceId::Android(-5))
    );
    assert_eq!(id(PlatformInfo::WebUsb { id: 4 }), DeviceId(PlatformDeviceId::WebUsb(4)));
}

#[test]
fn platforms_have_their_own_properties() {
    let d = device(windows());
    assert_eq!(d.instance_id(), &[0x55]);
    assert_eq!(d.parent_instance_id(), &[0x56]);
    assert_eq!(d.location_paths(), &[vec![0x50], vec![0x51]]);
    assert_eq!((d.port_number(), d.driver()), (9, Some("WinUSB")));
    let d = device(macos());
    assert_eq!(d.location_id(), 0x14200000);
    assert_eq!(d.registry_entry_id(), 0x1_0000_0abc);
    let b = bus(macos_bus());
    assert_eq!((b.location_id(), b.registry_entry_id()), (0x14000000, 0xabc));
    assert_eq!((b.provider_class_name(), b.class_name()), ("AppleUSBXHCI", "AppleUSBRootHub"));
    assert_eq!(b.name(), Some("Root"));
    let b = bus(windows_bus());
    assert_eq!((b.instance_id(), b.parent_instance_id()), (&[0x55][..], &[0x56][..]));
    assert_eq!((b.location_paths().len(), b.devinst()), (1, 77));
}

#[test]
fn buses_have_system_names() {
    let hub = device(linux());
    let linux_bus = bus(PlatformBusInfo::Linux {
        path: SysfsPath(String::from("/sys/x")),
        root_hub: hub,
        busnum: 3,
    });
    assert_eq!(linux_bus.system_name(), Some("Thing"));
    assert_eq!(bus(macos_bus()).system_name(), Some("Root"));
    assert_eq!(bus(windows_bus()).system_name(), Some("Hub"));
    assert_eq!(bus(PlatformBusInfo::Illumos).system_name(), None);
}

#[test]
fn speeds_are_read() {
    for (text, speed) in [
        ("low", Some(Speed::Low)),
        ("1.5", Some(Speed::Low)),
        ("full", Some(Speed::Full)),
        ("12", Some(Speed::Full)),
        ("high", Some(Speed::High)),
        ("480", Some(Speed::High)),
        ("super", Some(Speed::Super)),
        ("5000", Some(Speed::Super)),
        ("super+", Some(Speed::SuperPlus)),
        ("10000", Some(Speed::SuperPlus)),
        ("", None),
        ("High", None),
    ] {
        assert_eq!(Speed::from_str(text), speed);
    }
}

#[test]
fn controller_type_is_found_in_driver_name() {
    for (text, controller) in [
        ("xhci_hcd", Some(UsbControllerType::XHCI)),
        ("EHCI", Some(UsbControllerType::EHCI)),
        ("ohci-pci", Some(UsbControllerType::OHCI)),
        ("uhci_hcd", Some(UsbControllerType::UHCI)),
        ("vhci_hcd", Some(UsbControllerType::VHCI)),
        ("AppleUSBXHCI", Some(UsbControllerType::XHCI)),
        ("hci", None),
        ("ahci", None),
        ("usb", None),
    ] {
        assert_eq!(UsbControllerType::from_str(text), controller);
    }
}

fn names(fields: &[Field]) -> Vec<&'static str> {
    fields.iter().map(|f| f.name).collect()
}

fn hex<'a>(fields: &'a [Field], name: &str) -> &'a str {
    match fields.iter().find(|f| f.name == name).map(|f| &f.value) {
        Some(FieldValue::Hex(s)) => s,
        _ => panic!("no number {}", name),
    }
}

#[test]
fn devices_show_their_fields() {
    let fields = device(linux()).debug_fields();
    assert_eq!(
        names(&fields),
        vec![
            "bus_id",
            "device_address",
            "port_chain",
            "vendor_id",
            "product_id",
            "device_version",
            "usb_version",
            "class",
            "subclass",
            "protocol",
            "speed",
            "manufacturer_string",
            "product_string",
            "serial_number",
            "sysfs_path",
            "interfaces",
        ]
    );
    assert_eq!(hex(&fields, "vendor_id"), "0x1D50");
    assert_eq!(hex(&fields, "product_id"), "0x060E");
    assert_eq!(hex(&fields, "protocol"), "0x01");
    assert!(matches!(&fields[0].value, FieldValue::Text(s) if s == "003"));
    assert!(matches!(&fields[1].value, FieldValue::Unsigned(17)));
    assert!(matches!(&fields[2].value, FieldValue::Bytes(b) if b == &[6, 4]));
    assert!(matches!(&fields[10].value, FieldValue::OptionalSpeed(Some(Speed::High))));
    assert!(matches!(&fields[11].value, FieldValue::OptionalText(None)));
    assert!(matches!(&fields[12].value, FieldValue::OptionalText(Some(s)) if s == "Thing"));

    let android = device(PlatformInfo::Android { device_id: -5 }).debug_fields();
    assert_eq!(names(&android)[..4], ["device_id", "vendor_id", "product_id", "usb_version"]);
    assert!(matches!(&android[0].value, FieldValue::Signed(-5)));
    let web = device(PlatformInfo::WebUsb { id: 1 }).debug_fields();
    assert_eq!(names(&web)[..4], ["vendor_id", "product_id", "usb_version", "class"]);
    let illumos = device(PlatformInfo::Illumos {
        devfs: DevfsPath { path: String::from("/pci@0,0"), device_paths: StringMap::new() },
        busnum: 1,
    })
    .debug_fields();
    assert_eq!(names(&illumos)[..4], ["vendor_id", "product_id", "usb_version", "class"]);
    let mac = device(macos()).debug_fields();
    assert_eq!(hex(&mac, "location_id"), "0x14200000");
    assert_eq!(hex(&mac, "registry_entry_id"), "0x100000ABC");
    let win = device(windows()).debug_fields();
    assert_eq!(
        names(&win)[14..],
        [
            "instance_id",
            "parent_instance_id",
            "location_paths",
            "port_number",
            "driver",
            "interfaces"
        ]
    );
}

#[test]
fn interfaces_and_buses_show_their_fields() {
    let d = device(linux());
    let fields = d.interfaces()[0].debug_fields();
    assert_eq!(
        names(&fields),
        vec!["interface_number", "class", "subclass", "protocol", "interface_string"]
    );
    assert_eq!(hex(&fields, "protocol"), "0x5A");

    let fields = bus(macos_bus()).debug_fields();
    assert_eq!(
        names(&fields),
        vec![
            "location_id",
            "registry_entry_id",
            "class_name",
            "provider_class_name",
            "bus_id",
            "system_name",
            "controller_type",
            "driver",
        ]
    );
    assert_eq!(hex(&fields, "registry_entry_id"), "0x00000ABC");
    assert!(matches!(
        &fields[6].value,
        FieldValue::OptionalControllerType(Some(UsbControllerType::XHCI))
    ));
    assert_eq!(names(&bus(windows_bus()).debug_fields())[..3], [
        "instance_id",
        "parent_instance_id",
        "location_paths"
    ]);
    assert_eq!(names(&bus(PlatformBusInfo::Illumos).debug_fields())[0], "bus_id");
}

#[test]
fn descriptors_show_their_fields() {
    let config = [
        9, 2, 25, 0, 1, 5, 0, 0x80, 50, // configuration
        9, 4, 0, 0, 1, 0xff, 1, 2, 6, // interface
        7, 5, 0x8a, 2, 64, 0, 3, // endpoint
    ];
    let c = Configuration::new(&config);
    let fields = c.debug_fields();
    assert_eq!(names(&fields)[..4], [
        "configuration_value",
        "num_interfaces",
        "attributes",
        "max_power"
    ]);
    assert!(matches!(&fields[0].value, FieldValue::Unsigned(5)));
    let setting = c.interface_alt_settings()[0];
    let fields = setting.debug_fields();
    assert!(fields.iter().any(|f| matches!(f.value, FieldValue::Endpoints)));
    let ep = setting.endpoints()[0];
    let fields = ep.debug_fields();
    assert_eq!(hex(&fields, "address"), "0x8A");
    assert!(fields.iter().any(|f| matches!(f.value, FieldValue::Direction(Direction::In))));
    assert!(fields
        .iter()
        .any(|f| matches!(f.value, FieldValue::TransferType(EndpointType::Bulk))));
}

fn gone(addr: u8) -> HotplugEvent {
    HotplugEvent::Disconnected(DeviceId(PlatformDeviceId::Bus(1, addr)))
}

fn addr(event: &HotplugEvent) -> u8 {
    match event {
        HotplugEvent::Disconnected(DeviceId(PlatformDeviceId::Bus(_, addr))) => *addr,
        _ => unreachable!(),
    }
}

#[test]
fn events_come_in_order_and_wake() {
    let mut q = EventQueue::new();
    assert!(!q.wake());
    assert!(matches!(q.poll_next(), Poll::Pending));
    assert!(q.push(gone(1)));
    assert!(!q.push(gone(2)));
    assert!(matches!(q.poll_next(), Poll::Ready(e) if addr(&e) == 1));
    assert!(!q.wake());
    assert!(matches!(q.wait_and_poll(), Poll::Ready(e) if addr(&e) == 2));
    assert!(q.wake());
    assert!(!q.wake());
}

#[test]
fn cancelled_watch_ends() {
    assert!(matches!(cancellable_next(true, Poll::Pending), Poll::Ready(None)));
    assert!(matches!(cancellable_next(true, Poll::Ready(gone(1))), Poll::Ready(None)));
    assert!(matches!(cancellable_next(false, Poll::Pending), Poll::Pending));
    assert!(matches!(
        cancellable_next(false, Poll::Ready(gone(1))),
        Poll::Ready(Some(e)) if addr(&e) == 1
    ));
}

#[test]
fn watching_starts_with_the_platform() {
    assert_eq!(watch_devices(Ok(5)).unwrap().0, 5);
    let e = watch_devices::<u8>(Err(Error::new(ErrorKind::Unsupported, "no"))).err().unwrap();
    assert_eq!(e.kind(), ErrorKind::Unsupported);
}
