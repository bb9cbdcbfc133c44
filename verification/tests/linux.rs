//! Linux: sysfs, udev, and usbfs.

use nusb::descriptors::Configuration;
use nusb::enumeration::{
    BusInfo, DeviceId, DeviceInfo, PlatformDeviceId, Speed, SysfsPath, UsbControllerType,
};
use nusb::error::{Error, ErrorKind, IoErrorKind, OsErrorFormat};
use nusb::hotplug::HotplugEvent;
use nusb::platform::errno::{Errno, ErrnoKind, ErrnoNumbers};
use nusb::platform::linux_usbfs::device::{
    attach_error, clear_halt_error, configuration_request, create_inner, detach_error,
    device_node_path, guess_active_configuration, handle_claim_interface_result,
    request_configuration, reset_error, speed, ConfigurationSource, CtrlRequest,
};
use nusb::platform::linux_usbfs::enumeration::{
    bus_of_root_hub, is_device_name, is_root_hub_name, probe_device, sysfs_list_error, Attr,
    DeviceAttrs, InterfaceAttrs, SysfsError,
};
use nusb::platform::linux_usbfs::events::{Tag, Waiters};
use nusb::platform::linux_usbfs::hotplug::{
    event_of, parse_packet, parse_packet_at, parse_packet_in, receive, Uevent, UDEV_MULTICAST_GROUP,
};
use nusb::platform::linux_usbfs::timeouts::{ReapAction, Timeouts, TimerSetting};
use nusb::platform::linux_usbfs::transfer::{IsoTransferData, TransferData, Urb};
use nusb::platform::linux_usbfs::{errno_to_transfer_error, format_os_error_code};
use nusb::transfer::{
    Buffer, ControlIn, ControlOut, ControlType, EndpointType, Recipient, TransferError,
};

fn attr(s: &str) -> Attr {
    Ok(String::from(s))
}

fn missing() -> Attr {
    Err(String::from("No such file or directory (os error 2)"))
}

fn interface(name: &str, number: &str, string: Attr) -> InterfaceAttrs {
    InterfaceAttrs {
        name: String::from(name),
        interface_number: attr(number),
        interface_class: attr("03\n"),
        interface_subclass: attr("01\n"),
        interface_protocol: attr("02\n"),
        interface: string,
    }
}

fn attrs() -> DeviceAttrs {
    DeviceAttrs {
        busnum: attr("3\n"),
        devnum: attr("17\n"),
        devpath: attr("6.4.2\n"),
        id_vendor: attr("1d50\n"),
        id_product: attr("60e6\n"),
        bcd_device: attr("0102\n"),
        version: attr(" 2.10\n"),
        device_class: attr("ef\n"),
        device_subclass: attr("02\n"),
        device_protocol: attr("01\n"),
        speed: attr("480\n"),
        manufacturer: attr("Maker\n"),
        product: attr("Thing\n"),
        serial: missing(),
        children: vec![
            interface("3-6.4.2:1.1", "01\n", attr("Second\n")),
            interface("power", "00\n", missing()),
            interface("3-6.4.2:1.0", "00\n", missing()),
            interface("3-6.4.2:1.2", "zz\n", missing()),
        ],
    }
}

fn probe(attrs: &DeviceAttrs) -> Result<DeviceInfo, SysfsError> {
    probe_device(SysfsPath(String::from("/sys/bus/usb/devices/3-6.4.2")), attrs)
}

fn failure(attrs: &DeviceAttrs) -> (String, Option<String>) {
    match probe(attrs) {
        Ok(_) => panic!("the attributes should be rejected"),
        Err(e) => {
            let message = e.message();
            (message.head, message.quoted)
        }
    }
}

#[test]
fn device_is_probed_from_its_attributes() {
    let d = match probe(&attrs()) {
        Ok(d) => d,
        Err(e) => panic!("{:?}", e),
    };
    assert_eq!(d.id(), DeviceId(PlatformDeviceId::Bus(3, 17)));
    assert_eq!(d.sysfs_path(), "/sys/bus/usb/devices/3-6.4.2");
    assert_eq!(d.busnum(), 3);
    assert_eq!(d.bus_id(), "003");
    assert_eq!(d.device_address(), 17);
    assert_eq!(d.port_chain(), &[6, 4, 2]);
    assert_eq!((d.vendor_id(), d.product_id()), (0x1d50, 0x60e6));
    assert_eq!(d.device_version(), 0x0102);
    assert_eq!(d.usb_version(), 0x0210);
    assert_eq!((d.class(), d.subclass(), d.protocol()), (0xef, 2, 1));
    assert_eq!(d.speed(), Some(Speed::High));
    assert_eq!(d.manufacturer_string(), Some("Maker"));
    assert_eq!(d.product_string(), Some("Thing"));
    assert_eq!(d.serial_number(), None);
    // Only what looks like an interface counts, in the order of the numbers.
    let interfaces = d.interfaces();
    assert_eq!(interfaces.len(), 2);
    assert_eq!(interfaces[0].interface_number(), 0);
    assert_eq!(interfaces[0].interface_string(), None);
    assert_eq!(interfaces[1].interface_number(), 1);
    assert_eq!(interfaces[1].interface_string(), Some("Second"));
    assert_eq!(
        (interfaces[1].class(), interfaces[1].subclass(), interfaces[1].protocol()),
        (3, 1, 2)
    );
}

#[test]
fn attribute_errors_say_what_failed() {
    let mut a = attrs();
    a.busnum = missing();
    assert_eq!(
        failure(&a),
        (
            String::from(
                "failed to read sysfs attribute /sys/bus/usb/devices/3-6.4.2/busnum: No such file \
                 or directory (os error 2)"
            ),
            None
        )
    );
    let mut a = attrs();
    a.id_vendor = attr("12345\n");
    assert_eq!(
        failure(&a),
        (
            String::from(
                "failed to read sysfs attribute /sys/bus/usb/devices/3-6.4.2/idVendor: couldn't \
                 parse value "
            ),
            Some(String::from("12345"))
        )
    );
    let mut a = attrs();
    a.version = attr("two\n");
    assert_eq!(failure(&a).1, Some(String::from("two")));
    let mut a = attrs();
    a.device_protocol = attr("");
    assert_eq!(failure(&a).1, Some(String::new()));
}

#[test]
fn hexadecimal_attributes_may_have_a_prefix() {
    let mut a = attrs();
    a.id_vendor = attr("0x1D50");
    assert_eq!(probe(&a).unwrap_or_else(|e| panic!("{:?}", e)).vendor_id(), 0x1d50);
}

#[test]
fn version_reads_back() {
    for (content, version) in [(" 1.10\n", 0x0110), (" 3.20\n", 0x0320), ("10.00", 0x1000)] {
        let mut a = attrs();
        a.version = attr(content);
        assert_eq!(probe(&a).unwrap_or_else(|e| panic!("{:?}", e)).usb_version(), version);
    }
}

#[test]
fn port_chain_of_root_hub_is_empty() {
    for (devpath, ports) in [
        (attr("0\n"), vec![]),
        (attr("1\n"), vec![1]),
        (attr("1.x\n"), vec![]),
        (missing(), vec![]),
    ] {
        let mut a = attrs();
        a.devpath = devpath;
        let d = probe(&a).unwrap_or_else(|e| panic!("{:?}", e));
        assert_eq!(d.port_chain(), ports.as_slice());
    }
}

#[test]
fn directories_are_told_apart_by_name() {
    assert!(is_device_name(b"1-6"));
    assert!(is_device_name(b"1-6.4.2"));
    assert!(!is_device_name(b"usb1"));
    assert!(!is_device_name(b"1-6:1.0"));
    assert!(is_root_hub_name(b"usb1"));
    assert!(!is_root_hub_name(b"us"));
    assert!(!is_root_hub_name(b"1-6"));
}

fn bus(driver: Option<&str>) -> BusInfo {
    let mut a = attrs();
    a.devpath = attr("0\n");
    let hub = probe(&a).unwrap_or_else(|e| panic!("{:?}", e));
    match bus_of_root_hub(hub, driver.map(String::from)) {
        Some(bus) => bus,
        None => unreachable!(),
    }
}

#[test]
fn bus_has_what_its_root_hub_has() {
    let b = bus(Some("xhci_hcd"));
    assert_eq!(b.bus_id(), "003");
    assert_eq!(b.busnum(), 3);
    assert_eq!(b.sysfs_path(), "/sys/bus/usb/devices/3-6.4.2");
    assert_eq!(b.driver(), Some("xhci_hcd"));
    assert_eq!(b.controller_type(), Some(UsbControllerType::XHCI));
    assert_eq!(b.root_hub().vendor_id(), 0x1d50);
    assert_eq!(b.system_name(), Some("Thing"));
    assert_eq!(bus(None).controller_type(), None);
}

#[test]
fn list_errors_by_kind() {
    let cases = [
        (IoErrorKind::NotFound, ErrorKind::Other, "/sys/bus/usb/devices/ not found"),
        (
            IoErrorKind::PermissionDenied,
            ErrorKind::PermissionDenied,
            "/sys/bus/usb/devices/ permission denied",
        ),
        (IoErrorKind::Other, ErrorKind::Other, "failed to open /sys/bus/usb/devices/"),
    ];
    for (io_kind, kind, message) in cases {
        let e = sysfs_list_error(io_kind, None);
        assert_eq!(e.kind(), kind);
        assert_eq!(e.description(OsErrorFormat::Errno), message);
        assert_eq!(sysfs_list_error(io_kind, Some(13)).os_error(), Some(13));
        assert_eq!(sysfs_list_error(io_kind, Some(0)).os_error(), None);
    }
}

const ADD: &[u8] = b"ACTION=add\0SUBSYSTEM=usb\0DEVTYPE=usb_device\0DEVPATH=/devices/usb3/3-6\0\
BUSNUM=003\0DEVNUM=017\0PRODUCT=a=b\0";

/// A message of udev with these properties.
fn packet(properties: &[u8]) -> Vec<u8> {
    let mut data = b"libudev\0".to_vec();
    data.extend([0xfe, 0xed, 0xca, 0xfe]);
    data.extend(40u32.to_ne_bytes());
    data.extend(40u32.to_ne_bytes());
    data.extend((properties.len() as u32).to_ne_bytes());
    data.resize(40, 0);
    data.extend(properties);
    data
}

#[test]
fn udev_messages_are_parsed() {
    match parse_packet(&packet(ADD)) {
        Some(Uevent::Add(path)) => assert_eq!(path.0, "/sys/devices/usb3/3-6"),
        other => panic!("{:?}", other),
    }
    let remove = b"ACTION=remove\0SUBSYSTEM=usb\0DEVTYPE=usb_device\0DEVPATH=/devices/x\0\
BUSNUM=255\0DEVNUM=1\0";
    match parse_packet(&packet(remove)) {
        Some(Uevent::Remove { bus, addr }) => assert_eq!((bus, addr), (255, 1)),
        other => panic!("{:?}", other),
    }
}

#[test]
fn udev_messages_have_a_byte_order() {
    let little = 40u32.to_ne_bytes()[0] == 40;
    assert!(parse_packet_in(&packet(ADD), little).is_some());
    assert!(parse_packet_in(&packet(ADD), !little).is_none());
    let mut other = packet(ADD);
    for field in [12, 16, 20] {
        other[field..field + 4].reverse();
    }
    assert!(parse_packet_in(&other, !little).is_some());
    assert!(parse_packet(&other).is_none());
}

#[test]
fn other_messages_are_ignored() {
    assert!(parse_packet(&[]).is_none());
    assert!(parse_packet(&packet(ADD)[..23]).is_none());
    let mut wrong_magic = packet(ADD);
    wrong_magic[11] = 0;
    assert!(parse_packet(&wrong_magic).is_none());
    // The properties lie beyond the end.
    let whole = packet(ADD);
    assert!(parse_packet(&whole[..whole.len() - 1]).is_none());
    assert!(parse_packet_at(&whole, u32::MAX, u32::MAX).is_none());

    for (from, to) in [
        ("ACTION=add", "ACTION=bind"),
        ("SUBSYSTEM=usb", "SUBSYSTEM=net"),
        ("DEVTYPE=usb_device", "DEVTYPE=usb_interface"),
        ("BUSNUM=003", "BUSNUM=256"),
        ("DEVNUM=017", "DEVICE=017"),
        ("DEVPATH=", "PATH="),
    ] {
        let text = String::from_utf8(ADD.to_vec()).unwrap().replace(from, to);
        assert!(parse_packet(&packet(text.as_bytes())).is_none(), "{}", to);
    }
}

#[test]
fn entry_that_is_no_text_is_skipped() {
    let mut properties = b"NAME=\xff\0".to_vec();
    properties.extend(ADD);
    assert!(parse_packet(&packet(&properties)).is_some());
}

#[test]
fn messages_from_elsewhere_are_rejected() {
    assert!(receive(&packet(ADD), Some(UDEV_MULTICAST_GROUP)).is_some());
    assert!(receive(&packet(ADD), Some(1)).is_none());
    assert!(receive(&packet(ADD), None).is_none());
}

#[test]
fn uevent_becomes_hotplug_event() {
    let path = || SysfsPath(String::from("/sys/devices/usb3/3-6"));
    match event_of(Uevent::Add(path()), &attrs()) {
        Some(HotplugEvent::Connected(d)) => assert_eq!(d.sysfs_path(), "/sys/devices/usb3/3-6"),
        _ => panic!("not connected"),
    }
    let mut a = attrs();
    a.devnum = missing();
    assert!(event_of(Uevent::Add(path()), &a).is_none());
    match event_of(Uevent::Remove { bus: 3, addr: 4 }, &attrs()) {
        Some(HotplugEvent::Disconnected(id)) => {
            assert_eq!(id, DeviceId(PlatformDeviceId::Bus(3, 4)));
        }
        _ => panic!("not disconnected"),
    }
}

#[test]
fn tags_come_back() {
    for tag in [Tag::Device(0), Tag::DeviceTimer(5), Tag::Waker(0x1fff_ffff_ffff_ffff)] {
        assert_eq!(Tag::from_event_data(tag.as_event_data()), tag);
    }
    assert_eq!(Tag::Device(2).as_event_data(), 17);
    assert_eq!(Tag::DeviceTimer(2).as_event_data(), 18);
    assert_eq!(Tag::Waker(2).as_event_data(), 19);
}

#[test]
fn waiters_are_woken_once() {
    let mut waiters = Waiters::new();
    let id = waiters.insert();
    assert!(!waiters.ready(id));
    waiters.register(id);
    assert!(waiters.ready(id));
    assert!(!waiters.ready(id));
    waiters.register(id);
    waiters.remove(id);
    assert!(!waiters.ready(id));
}

#[test]
fn timeouts_come_due_in_order() {
    let mut t = Timeouts::new();
    assert_eq!(t.timer(5), TimerSetting { tv_sec: 0, tv_nsec: 0 });
    t.insert(3_000_000_007, 1);
    t.insert(2_000_000_000, 2);
    t.insert(2_000_000_000, 1);
    t.insert(2_000_000_000, 1);
    assert_eq!(t.timer(500_000_000), TimerSetting { tv_sec: 1, tv_nsec: 500_000_000 });
    assert_eq!(t.timer(2_000_000_001), TimerSetting { tv_sec: 0, tv_nsec: 1 });
    assert!(t.take_due(1_999_999_999).is_empty());
    assert_eq!(t.take_due(2_000_000_000), vec![1, 2]);
    assert_eq!(t.timer(0), TimerSetting { tv_sec: 3, tv_nsec: 7 });
    t.remove(3_000_000_007, 2);
    t.remove(3_000_000_007, 1);
    assert_eq!(t.timer(0), TimerSetting { tv_sec: 0, tv_nsec: 0 });
}

#[test]
fn reaping_takes_the_timeout_away() {
    let mut t = Timeouts::new();
    assert_eq!(
        t.submitted(7, 100, false, 40),
        Some(TimerSetting { tv_sec: 0, tv_nsec: 60 })
    );
    assert_eq!(t.submitted(8, 90, true, 40), None);
    assert_eq!(t.handle_reap(Ok((8, None)), 50), ReapAction::Complete(8, None));
    assert_eq!(t.timer(40), TimerSetting { tv_sec: 0, tv_nsec: 60 });
    assert_eq!(
        t.handle_reap(Ok((7, Some(100))), 50),
        ReapAction::Complete(7, Some(TimerSetting { tv_sec: 0, tv_nsec: 0 }))
    );
    assert_eq!(t.handle_reap(Err(errno(ErrnoKind::NoDev)), 50), ReapAction::Unregister);
    assert_eq!(t.handle_reap(Err(errno(ErrnoKind::Again)), 50), ReapAction::Nothing);
    assert_eq!(t.handle_reap(Err(errno(ErrnoKind::Inval)), 50), ReapAction::Nothing);
}

fn numbers() -> ErrnoNumbers {
    ErrnoNumbers::of_system()
}

fn errno(kind: ErrnoKind) -> Errno {
    Errno { code: 7, kind }
}

#[test]
fn errno_stands_for_transfer_error() {
    let cases = [
        (ErrnoKind::NoDev, TransferError::Disconnected),
        (ErrnoKind::Shutdown, TransferError::Disconnected),
        (ErrnoKind::Pipe, TransferError::Stall),
        (ErrnoKind::NoEnt, TransferError::Cancelled),
        (ErrnoKind::ConnReset, TransferError::Cancelled),
        (ErrnoKind::TimedOut, TransferError::Cancelled),
        (ErrnoKind::Proto, TransferError::Fault),
        (ErrnoKind::IlSeq, TransferError::Fault),
        (ErrnoKind::Overflow, TransferError::Fault),
        (ErrnoKind::Comm, TransferError::Fault),
        (ErrnoKind::Time, TransferError::Fault),
        (ErrnoKind::Inval, TransferError::InvalidArgument),
        (ErrnoKind::Busy, TransferError::Unknown(7)),
        (ErrnoKind::Other, TransferError::Unknown(7)),
    ];
    for (kind, error) in cases {
        assert_eq!(errno_to_transfer_error(errno(kind)), error);
    }
    assert_eq!(format_os_error_code(19), "errno 19");
}

#[test]
fn control_out_sends_setup_and_data() {
    let mut t = TransferData::new_control_out(ControlOut {
        control_type: ControlType::Vendor,
        recipient: Recipient::Device,
        request: 0x81,
        value: 0x1234,
        index: 0x5678,
        data: &[9, 8],
    });
    assert_eq!(t.memory(), &[0x40, 0x81, 0x34, 0x12, 0x78, 0x56, 2, 0, 9, 8]);
    assert_eq!(
        t.urb(),
        Urb {
            ep_type: 2,
            endpoint: 0,
            status: 0,
            flags: 0,
            buffer_length: 10,
            actual_length: 0,
            number_of_packets_or_stream_id: 0,
            error_count: 0,
        }
    );
    let memory = t.memory().to_vec();
    t.complete(0, 2, memory);
    assert_eq!(t.status(&numbers()), Ok(()));
}

#[test]
fn control_in_receives_behind_setup() {
    let mut t = TransferData::new_control_in(ControlIn {
        control_type: ControlType::Standard,
        recipient: Recipient::Device,
        request: 6,
        value: 0x0100,
        index: 0,
        length: 18,
    });
    assert_eq!(t.urb().buffer_length, 26);
    assert_eq!(t.urb().endpoint, 0x80);
    let mut memory = t.memory().to_vec();
    memory.extend([1, 2, 3]);
    t.complete(0, 3, memory.clone());
    assert_eq!(t.control_in_data(), &[1, 2, 3]);
    assert_eq!(t.control_in_result(&numbers()), Ok(vec![1, 2, 3]));
    t.complete(-libc::EPIPE, 0, memory);
    assert_eq!(t.control_in_result(&numbers()), Err(TransferError::Stall));
}

#[test]
fn buffer_of_transfer_comes_back() {
    let mut t = TransferData::new(0x02, EndpointType::Bulk);
    let mut buf = Buffer::new(16);
    buf.extend_from_slice(&[1, 2, 3]);
    t.set_buffer(buf);
    assert_eq!(t.urb().ep_type, 3);
    assert_eq!(t.urb().buffer_length, 3);
    t.complete(-libc::ENOENT, 2, vec![1, 2, 3]);
    let c = t.take_completion(&numbers());
    assert_eq!(c.status, Err(TransferError::Cancelled));
    assert_eq!(c.actual_len, 2);
    assert_eq!(c.buffer.as_slice(), &[1, 2, 3]);
    assert_eq!((c.buffer.requested_len(), c.buffer.capacity()), (3, 16));

    let mut t = TransferData::new(0x81, EndpointType::Interrupt);
    t.set_buffer(Buffer::new(16));
    assert_eq!((t.urb().ep_type, t.urb().buffer_length), (1, 16));
    t.complete(0, 2, vec![5, 6]);
    let c = t.take_completion(&numbers());
    assert_eq!(c.status, Ok(()));
    assert_eq!(c.buffer.as_slice(), &[5, 6]);
    assert_eq!((c.buffer.requested_len(), c.buffer.capacity()), (16, 16));
}

#[test]
fn failed_transfers_are_told_apart() {
    for (code, error) in [
        (libc::ENODEV, TransferError::Disconnected),
        (libc::ESHUTDOWN, TransferError::Disconnected),
        (libc::EPIPE, TransferError::Stall),
        (libc::ENOENT, TransferError::Cancelled),
        (libc::ECONNRESET, TransferError::Cancelled),
        (libc::ETIMEDOUT, TransferError::Cancelled),
        (libc::EPROTO, TransferError::Fault),
        (libc::EILSEQ, TransferError::Fault),
        (libc::EOVERFLOW, TransferError::Fault),
        (libc::ECOMM, TransferError::Fault),
        (libc::ETIME, TransferError::Fault),
        (libc::EINVAL, TransferError::InvalidArgument),
        (libc::ENOMEM, TransferError::Unknown(libc::ENOMEM as u32)),
    ] {
        let mut t = TransferData::new(0x81, EndpointType::Bulk);
        t.set_buffer(Buffer::new(8));
        t.complete(-code, 0, vec![]);
        assert_eq!(t.status(&numbers()), Err(error));
        assert_eq!(t.take_completion(&numbers()).status, Err(error));
    }
}

#[test]
fn transfer_that_could_not_be_submitted_is_complete() {
    let mut t = TransferData::new(0x81, EndpointType::Bulk);
    t.set_buffer(Buffer::new(8));
    assert_eq!(t.deadline(), None);
    t.set_deadline(99);
    assert_eq!(t.deadline(), Some(99));
    t.fail_submit(Errno::from_raw_os_error(libc::ENODEV, &numbers()));
    let c = t.take_completion(&numbers());
    assert_eq!(c.status, Err(TransferError::Disconnected));
    assert_eq!((c.actual_len, c.buffer.len()), (0, 0));
}

#[test]
fn isochronous_packets_have_their_places() {
    let mut t = IsoTransferData::new(0x83, 4);
    assert_eq!(t.num_packets(), 4);
    t.set_buffer(Buffer::new(20), 8);
    t.complete(0, 1, &[(8, 0), (3, 0), (0, libc::EXDEV as u32), (0, 0)], vec![7; 20]);
    assert_eq!(t.status(&numbers()), Ok(()));
    let c = t.take_completion(&numbers());
    assert_eq!(c.status, Ok(()));
    assert_eq!(c.error_count, 1);
    assert_eq!((c.buffer.len(), c.buffer.requested_len()), (20, 20));
    let places: Vec<(usize, usize, usize)> =
        c.packets.iter().map(|p| (p.offset, p.length, p.actual_length)).collect();
    assert_eq!(places, vec![(0, 8, 8), (8, 8, 3), (16, 4, 0), (20, 0, 0)]);
    assert_eq!(c.packets[2].status, libc::EXDEV);
    t.set_buffer(Buffer::new(8), 8);
    t.complete(-libc::ESHUTDOWN, 0, &[(0, 0); 4], vec![0; 8]);
    assert_eq!(t.take_completion(&numbers()).status, Err(TransferError::Disconnected));
}

fn same_error(e: Error, kind: ErrorKind, text: &str) {
    assert_eq!(e.kind(), kind, "{}", text);
    assert_eq!(e.description(OsErrorFormat::Errno), text);
}

/// A device descriptor, and one configuration with an interface that has an endpoint.
fn descriptors() -> Vec<u8> {
    let mut d = vec![18, 1, 0, 2, 0, 0, 0, 64, 0x50, 0x1d, 0xe6, 0x60, 0, 1, 1, 2, 3, 1];
    d.extend([9, 2, 25, 0, 1, 5, 0, 0x80, 50]);
    d.extend([9, 4, 0, 0, 1, 0xff, 0, 0, 0]);
    d.extend([7, 5, 0x81, 2, 0, 2, 0]);
    d
}

#[test]
fn device_nodes_have_three_digits() {
    assert_eq!(device_node_path(3, 17), "/dev/bus/usb/003/017");
    assert_eq!(device_node_path(255, 1), "/dev/bus/usb/255/001");
}

#[test]
fn active_configuration_is_asked_for_or_guessed() {
    assert_eq!(
        configuration_request(),
        CtrlRequest { request_type: 0x80, request: 8, value: 0, index: 0, length: 1, timeout: 50 }
    );
    assert_eq!(request_configuration(Ok(1), 4), Ok(4));
    assert_eq!(request_configuration(Ok(0), 4), Err(()));
    assert_eq!(request_configuration(Err(errno(ErrnoKind::Pipe)), 4), Err(()));
    assert_eq!(guess_active_configuration(Ok(4), &descriptors()), 4);
    assert_eq!(guess_active_configuration(Err(()), &descriptors()), 5);
    assert_eq!(guess_active_configuration(Err(()), &descriptors()[..18]), 0);
}

#[test]
fn device_is_opened_with_its_configuration() {
    let from = |source: ConfigurationSource| create_inner(Ok(descriptors()), &source, Ok(()));
    let sysfs = |attr: Attr| from(ConfigurationSource::Sysfs(attr));
    assert_eq!(sysfs(attr("5\n")).unwrap().active_config, 5);
    assert_eq!(sysfs(attr("\n")).unwrap().active_config, 0);
    assert_eq!(from(ConfigurationSource::Device(Err(()))).unwrap().active_config, 5);
    same_error(
        sysfs(missing()).unwrap_err(),
        ErrorKind::Other,
        "failed to read sysfs bConfigurationValue",
    );
    let source = ConfigurationSource::Sysfs(attr("5\n"));
    same_error(
        create_inner(Err(Some(5)), &source, Ok(())).unwrap_err(),
        ErrorKind::Other,
        "failed to read descriptors (errno 5)",
    );
    same_error(
        create_inner(Ok(vec![1, 2, 3]), &source, Ok(())).unwrap_err(),
        ErrorKind::Other,
        "invalid device descriptor",
    );
    same_error(
        create_inner(Ok(descriptors()), &source, Err(errno(ErrnoKind::Other))).unwrap_err(),
        ErrorKind::Other,
        "failed to create timerfd (errno 7)",
    );
}

#[test]
fn configuration_follows_sysfs_and_setting() {
    let source = ConfigurationSource::Sysfs(attr("5\n"));
    let mut d = create_inner(Ok(descriptors()), &source, Ok(())).unwrap();
    assert_eq!(d.active_configuration_value(&None), 5);
    assert_eq!(d.active_configuration_value(&Some(attr("1\n"))), 1);
    assert_eq!(d.active_configuration_value(&Some(missing())), 1);
    assert!(d.set_configuration(3, Ok(())).is_ok());
    assert_eq!(d.active_config, 3);
    let cases = [
        (ErrnoKind::Inval, ErrorKind::NotFound, "configuration not found (errno 7)"),
        (ErrnoKind::Busy, ErrorKind::Busy, "device is busy (errno 7)"),
        (ErrnoKind::NoDev, ErrorKind::Disconnected, "device disconnected (errno 7)"),
        (ErrnoKind::Pipe, ErrorKind::Other, "failed to set configuration (errno 7)"),
    ];
    for (e, kind, text) in cases {
        same_error(d.set_configuration(4, Err(errno(e))).unwrap_err(), kind, text);
        assert_eq!(d.active_config, 3);
    }
}

#[test]
fn driver_errors_by_condition() {
    let cases = [
        (ErrnoKind::Busy, ErrorKind::Busy, "device is busy (errno 7)"),
        (ErrnoKind::NoDev, ErrorKind::Disconnected, "device disconnected (errno 7)"),
        (ErrnoKind::Inval, ErrorKind::Other, "failed to reset device (errno 7)"),
    ];
    for (e, kind, text) in cases {
        same_error(reset_error(errno(e)), kind, text);
    }
    let cases = [
        (ErrnoKind::Inval, ErrorKind::NotFound, "interface not found (errno 7)"),
        (ErrnoKind::NoDev, ErrorKind::Disconnected, "device disconnected (errno 7)"),
        (ErrnoKind::NoData, ErrorKind::Other, "no kernel driver attached (errno 7)"),
        (ErrnoKind::Busy, ErrorKind::Other, "failed to detach kernel driver (errno 7)"),
    ];
    for (e, kind, text) in cases {
        same_error(detach_error(errno(e)), kind, text);
    }
    let cases = [
        (ErrnoKind::Inval, ErrorKind::NotFound, "interface not found (errno 7)"),
        (ErrnoKind::NoDev, ErrorKind::Disconnected, "device disconnected (errno 7)"),
        (ErrnoKind::Busy, ErrorKind::Busy, "kernel driver already attached (errno 7)"),
        (ErrnoKind::NoData, ErrorKind::Other, "failed to attach kernel driver (errno 7)"),
    ];
    for (e, kind, text) in cases {
        same_error(attach_error(errno(e)), kind, text);
    }
    let cases = [
        (ErrnoKind::NoDev, ErrorKind::Disconnected, "device disconnected (errno 7)"),
        (ErrnoKind::Inval, ErrorKind::Other, "failed to clear halt (errno 7)"),
    ];
    for (e, kind, text) in cases {
        same_error(clear_halt_error(errno(e)), kind, text);
    }
}

#[test]
fn kernel_numbers_speeds() {
    let speeds = [
        (0, None),
        (1, Some(Speed::Low)),
        (2, Some(Speed::Full)),
        (3, Some(Speed::High)),
        (4, None),
        (5, Some(Speed::Super)),
        (6, Some(Speed::SuperPlus)),
        (7, None),
    ];
    for (raw, expected) in speeds {
        assert_eq!(speed(Ok(raw)), expected);
    }
    assert_eq!(speed(Err(errno(ErrnoKind::NoDev))), None);
}

#[test]
fn claimed_interface_guards_its_endpoints() {
    let bytes = descriptors();
    let interfaces = Configuration::new(&bytes[18..]).interface_alt_settings();
    let endpoint = interfaces[0].endpoints()[0];

    let mut i = handle_claim_interface_result(0, Ok(()), true).unwrap();
    assert_eq!(i.get_alt_setting(), 0);
    let ep = i.endpoint(endpoint).unwrap();
    assert_eq!((ep.endpoint_address(), ep.max_packet_size()), (0x81, 512));
    same_error(
        i.endpoint(endpoint).unwrap_err(),
        ErrorKind::Busy,
        "endpoint already in use",
    );
    same_error(
        i.check_alt_setting().unwrap_err(),
        ErrorKind::Busy,
        "can't change alternate setting while endpoints are in use",
    );
    i.release_endpoint(0x81);
    assert!(i.check_alt_setting().is_ok());
    assert!(i.set_alt_setting(2, Ok(())).is_ok());
    assert_eq!(i.get_alt_setting(), 2);
    let cases = [
        (ErrnoKind::Inval, ErrorKind::NotFound, "alternate setting not found (errno 7)"),
        (ErrnoKind::NoDev, ErrorKind::Disconnected, "device disconnected (errno 7)"),
        (ErrnoKind::Busy, ErrorKind::Other, "failed to set alternate setting (errno 7)"),
    ];
    for (e, kind, text) in cases {
        same_error(i.set_alt_setting(3, Err(errno(e))).unwrap_err(), kind, text);
        assert_eq!(i.get_alt_setting(), 2);
    }
    assert!(i.endpoint(endpoint).is_ok());
    assert!(i.reattaches(true));
    assert!(!i.reattaches(false));
}

#[test]
fn claim_errors_by_condition() {
    let cases = [
        (ErrnoKind::Inval, ErrorKind::NotFound, "interface not found (errno 7)"),
        (ErrnoKind::Busy, ErrorKind::Busy, "interface is busy (errno 7)"),
        (ErrnoKind::NoDev, ErrorKind::Disconnected, "device disconnected (errno 7)"),
        (ErrnoKind::Perm, ErrorKind::Other, "failed to claim interface (errno 7)"),
    ];
    for (e, kind, text) in cases {
        let r = handle_claim_interface_result(0, Err(errno(e)), false);
        same_error(r.unwrap_err(), kind, text);
    }
}
