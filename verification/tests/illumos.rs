//! illumos: the device tree, and `ugen`.

use nusb::descriptors::Configuration;
use nusb::enumeration::{
    DeviceId, DevfsPath, DeviceInfo, PlatformDeviceId, PlatformInfo, UsbControllerType,
};
use nusb::error::{Error, ErrorKind, OsErrorFormat};
use nusb::platform::errno::{Errno, ErrnoKind, ErrnoNumbers};
use nusb::platform::illumos_ugen::device::{
    check_device_descriptor, control_path, Action, Answer, Asking, DescriptorType, Event,
    IllumosDevice, IllumosInterface, Question, RawEndpoint,
};
use nusb::platform::illumos_ugen::enumeration::{
    build_prop_tree, walk_buses, walk_devices, LinkItem, Node, PropVal, Property,
};
use nusb::platform::illumos_ugen::transfer::{
    cancel_is_sound, handle_errno_result, needs_stat, received, written, BlockingTransferData,
    CancelReply, TransferData, UsbResult,
};
use nusb::platform::illumos_ugen::{errno_to_transfer_error, ugen_to_transfer_error};
use nusb::string_map::StringMap;
use nusb::transfer::{
    Buffer, ControlIn, ControlOut, ControlType, Direction, EndpointType, Recipient, TransferError,
};

const DEVICE: [u8; 18] =
    [18, 1, 0x10, 2, 0xef, 2, 1, 64, 0x50, 0x1d, 0xe6, 0x60, 0x34, 0x12, 1, 2, 3, 1];

/// A configuration with an interface that has an endpoint in each direction.
const CONFIG: [u8; 32] = [
    9, 2, 32, 0, 1, 5, 0, 0x80, 50, // configuration
    9, 4, 0, 0, 2, 0xff, 1, 2, 4, // interface
    7, 5, 0x81, 2, 0, 2, 0, // bulk in
    7, 5, 0x02, 2, 0, 2, 0, // bulk out
];

fn property(name: &str) -> Property {
    Property {
        name: String::from(name),
        integer: None,
        bytes: None,
        string: None,
        is_boolean: false,
    }
}

fn integer(name: &str, value: i64) -> Property {
    Property { integer: Some(value), ..property(name) }
}

fn bytes(name: &str, value: &[u8]) -> Property {
    Property { bytes: Some(value.to_vec()), ..property(name) }
}

fn string(name: &str, value: &str) -> Property {
    Property { string: Some(String::from(value)), ..property(name) }
}

fn boolean(name: &str) -> Property {
    Property { is_boolean: true, ..property(name) }
}

fn link(name: &str) -> LinkItem {
    LinkItem::Link {
        file_name: Some(String::from(name)),
        path: format!("/dev/usb/1d50.60e6/0/{}", name),
    }
}

fn node(depth: u32, props: Vec<Property>) -> Node {
    Node {
        props,
        path: Some(format!("/pci@0,0/usb@{}", depth)),
        depth,
        driver_name: None,
        links: vec![],
        strings: vec![],
    }
}

fn root_hub(driver: &str) -> Node {
    Node { driver_name: Some(String::from(driver)), ..node(1, vec![boolean("root-hub")]) }
}

fn hub(depth: u32, port: i64) -> Node {
    Node { driver_name: Some(String::from("hubd")), ..node(depth, vec![integer("reg", port)]) }
}

fn device(depth: u32, port: i64) -> Node {
    let props = vec![
        integer("reg", port),
        bytes("usb-dev-descriptor", &DEVICE),
        integer("assigned-address", 7),
        string("usb-vendor-name", "Maker"),
        string("usb-product-name", "Thing"),
        bytes("usb-raw-cfg-descriptors", &CONFIG),
    ];
    Node {
        links: vec![link("cntrl0"), link("cntrl0stat")],
        strings: vec![(4, vec![6, 3, b'H', 0, b'i', 0])],
        ..node(depth, props)
    }
}

fn without(mut node: Node, name: &str) -> Node {
    node.props.retain(|p| p.name != name);
    node
}

fn with(node: Node, p: Property) -> Node {
    let name = p.name.clone();
    let mut node = without(node, &name);
    node.props.push(p);
    node
}

fn message(e: Error) -> String {
    e.description(OsErrorFormat::Errno)
}

fn walk(nodes: &[Node]) -> Vec<DeviceInfo> {
    walk_devices(nodes).unwrap_or_else(|e| panic!("{:?}", e))
}

fn walk_error(node: Node) -> String {
    match walk_devices(&[root_hub("xhci"), node]) {
        Ok(_) => panic!("the node should be rejected"),
        Err(e) => message(e),
    }
}

#[test]
fn property_is_read_in_its_best_form() {
    let mut both = bytes("a", &[1]);
    both.integer = Some(5);
    let tree = build_prop_tree(&[
        both,
        bytes("b", &[1, 2]),
        string("c", "x"),
        boolean("d"),
        property("e"),
        integer("f", 1),
        integer("f", 2),
    ]);
    assert!(matches!(tree.get("a"), Some(PropVal::Integer(5))));
    assert!(matches!(tree.get("b"), Some(PropVal::Bytes(b)) if b == &[1, 2]));
    assert!(matches!(tree.get("c"), Some(PropVal::String(s)) if s == "x"));
    assert!(matches!(tree.get("d"), Some(PropVal::Boolean)));
    assert!(matches!(tree.get("e"), Some(PropVal::Unknown)));
    assert!(matches!(tree.get("f"), Some(PropVal::Integer(2))));
    assert!(tree.get("g").is_none());
}

#[test]
fn devices_are_found_in_the_tree() {
    let devices = walk(&[root_hub("xhci"), device(2, 3)]);
    assert_eq!(devices.len(), 1);
    let d = &devices[0];
    assert_eq!(d.id(), DeviceId(PlatformDeviceId::Bus(1, 7)));
    assert_eq!(d.bus_id(), "001");
    assert_eq!(d.port_chain(), &[3]);
    assert_eq!((d.vendor_id(), d.product_id()), (0x1d50, 0x60e6));
    assert_eq!((d.device_version(), d.usb_version()), (0x1234, 0x0210));
    assert_eq!((d.class(), d.subclass(), d.protocol()), (0xef, 2, 1));
    assert_eq!(d.manufacturer_string(), Some("Maker"));
    assert_eq!(d.product_string(), Some("Thing"));
    assert_eq!(d.serial_number(), None);
    assert_eq!(d.interfaces().len(), 1);
    let i = &d.interfaces()[0];
    assert_eq!((i.interface_number(), i.class(), i.subclass(), i.protocol()), (0, 0xff, 1, 2));
    assert_eq!(i.interface_string(), Some("Hi"));
    match &d.platform {
        PlatformInfo::Illumos { devfs, busnum } => {
            assert_eq!(*busnum, 1);
            assert_eq!(devfs.path, "/pci@0,0/usb@2");
            assert_eq!(
                devfs.device_paths.get("cntrl0").map(String::as_str),
                Some("/dev/usb/1d50.60e6/0/cntrl0")
            );
        }
        _ => unreachable!(),
    }
}

#[test]
fn strings_are_read_through_the_control_node() {
    let mut node = device(2, 3);
    node.links.clear();
    assert_eq!(walk(&[root_hub("xhci"), node])[0].interfaces()[0].interface_string(), None);
    let mut node = device(2, 3);
    node.strings = vec![(4, vec![4, 2, b'H', 0])];
    assert_eq!(walk(&[root_hub("xhci"), node])[0].interfaces()[0].interface_string(), None);
}

#[test]
fn port_chain_goes_through_hubs() {
    let devices = walk(&[
        root_hub("xhci"),
        hub(2, 1),
        hub(3, 4),
        device(4, 2),
        device(3, 5),
        device(2, 6),
        root_hub("ehci"),
        device(2, 9),
    ]);
    let places: Vec<(&str, &[u8])> = devices.iter().map(|d| (d.bus_id(), d.port_chain())).collect();
    assert_eq!(
        places,
        vec![
            ("001", &[1, 4, 2][..]),
            ("001", &[1, 5][..]),
            ("001", &[6][..]),
            ("002", &[9][..]),
        ]
    );
}

#[test]
fn devices_are_grouped_by_listed_bus() {
    let nodes = [
        root_hub("xhci"),
        root_hub("ehci"),
        device(2, 1),
        root_hub("ohci"),
        device(2, 9),
    ];
    let devices = walk(&nodes);
    let buses = walk_buses(&nodes);
    let on = |bus: usize| -> Vec<&[u8]> {
        devices
            .iter()
            .filter(|d| d.bus_id() == buses[bus].bus_id())
            .map(|d| d.port_chain())
            .collect()
    };
    assert_eq!(buses.len(), 3);
    assert_eq!((on(0), on(1), on(2)), (vec![], vec![&[1][..]], vec![&[9][..]]));
}

#[test]
fn nodes_that_are_no_devices_are_skipped() {
    let nodes = [
        root_hub("xhci"),
        without(device(2, 3), "reg"),
        without(device(2, 3), "usb-dev-descriptor"),
        without(device(2, 3), "usb-vendor-name"),
    ];
    assert!(walk(&nodes).is_empty());
}

#[test]
fn nodes_that_are_wrong_are_errors() {
    assert_eq!(walk_error(with(device(2, 3), string("reg", "x"))), "unexpected value in reg");
    assert_eq!(walk_error(Node { path: None, ..device(2, 3) }), "devfs path err");
    assert_eq!(
        walk_error(with(device(2, 3), integer("assigned-address", 255))),
        "bad assigned-address"
    );
    assert_eq!(walk_error(without(device(2, 3), "assigned-address")), "bad assigned-address");
    assert_eq!(
        walk_error(with(device(2, 3), integer("usb-vendor-name", 1))),
        "bad usb-vendor-name"
    );
    assert_eq!(
        walk_error(with(device(2, 3), integer("usb-product-name", 1))),
        "bad usb-product-name"
    );
    assert_eq!(walk_error(with(device(2, 3), boolean("usb-serialno"))), "bad usb-serialno");
    assert_eq!(
        walk_error(with(device(2, 3), bytes("usb-dev-descriptor", &DEVICE[..17]))),
        "bad device descriptor"
    );
    assert_eq!(
        walk_error(without(device(2, 3), "usb-raw-cfg-descriptors")),
        "bad raw config decriptors"
    );
    for (item, text) in [
        (
            LinkItem::Link { file_name: None, path: String::from("/") },
            "bad link path",
        ),
        (LinkItem::MinorError, "transpose err"),
        (LinkItem::MinorPathError, "devfs path err"),
        (LinkItem::LinksError, "links for path err"),
    ] {
        let mut node = device(2, 3);
        node.links.push(item);
        assert_eq!(walk_error(node), text);
    }
    assert_eq!(message(walk_devices(&[device(2, 3)]).err().unwrap()), "no root port");
}

#[test]
fn buses_are_numbered_from_one() {
    let buses = walk_buses(&[root_hub("xhci"), device(2, 3), root_hub("ehci")]);
    assert_eq!(buses.len(), 2);
    assert_eq!(buses[0].bus_id(), "001");
    assert_eq!(buses[0].driver(), Some("xhci"));
    assert_eq!(buses[0].controller_type(), Some(UsbControllerType::XHCI));
    assert_eq!(buses[1].bus_id(), "002");
    assert_eq!(buses[1].controller_type(), Some(UsbControllerType::EHCI));
}

fn numbers() -> ErrnoNumbers {
    ErrnoNumbers::of_system()
}

fn errno(kind: ErrnoKind) -> Errno {
    Errno { code: 7, kind }
}

/// Answer a question in a conversation with a device that has these bytes to say.
fn ask(question: Question, says: &[u8]) -> Result<Vec<u8>, Error> {
    let mut asking = Asking::new(question);
    loop {
        let event = match asking.action() {
            Action::Write(packet) => Event::Wrote(Ok(packet.len())),
            Action::Read(len) => {
                let mut buf = vec![0; len as usize];
                let n = says.len().min(buf.len());
                buf[..n].copy_from_slice(&says[..n]);
                Event::Read(Ok(n), buf)
            }
        };
        match asking.step(event)? {
            Answer::More(next) => asking = next,
            Answer::Done(data) => return Ok(data),
        }
    }
}

#[test]
fn descriptors_are_asked_for() {
    assert_eq!(DescriptorType::Device.to_value(), 0x0100);
    assert_eq!(DescriptorType::Configuration { index: 2 }.to_value(), 0x0202);
    assert_eq!(DescriptorType::String { index: 7 }.to_value(), 0x0307);

    match Asking::new(Question::RawString { index: 4 }).action() {
        Action::Write(packet) => assert_eq!(packet, [0x80, 6, 4, 3, 9, 4, 0, 16]),
        other => panic!("{:?}", other),
    }
    match Asking::new(Question::Configuration).action() {
        Action::Write(packet) => assert_eq!(packet, [0x80, 8, 0, 0, 0, 0, 1, 0]),
        other => panic!("{:?}", other),
    }

    let s = [6, 3, b'H', 0, b'i', 0];
    assert_eq!(ask(Question::RawString { index: 4 }, &s).unwrap(), s);
    assert_eq!(ask(Question::DeviceDescriptor { index: 0 }, &DEVICE).unwrap(), DEVICE);
    assert_eq!(
        ask(Question::ConfigDescriptors { config: 0, index: 0 }, &CONFIG).unwrap(),
        CONFIG
    );
    assert_eq!(ask(Question::Configuration, &[5]).unwrap(), vec![5]);
}

#[test]
fn bad_answers_are_errors() {
    let failed = |question: Question, says: &[u8]| message(ask(question, says).unwrap_err());
    let config = Question::ConfigDescriptors { config: 0, index: 0 };
    assert_eq!(failed(Question::RawString { index: 1 }, &[]), "empty string descriptor");
    assert_eq!(
        failed(Question::DeviceDescriptor { index: 0 }, &DEVICE[..17]),
        "short descriptor read"
    );
    assert_eq!(failed(config, &CONFIG[..8]), "short descriptor read");
    assert_eq!(failed(config, &CONFIG[..31]), "short descriptor read");
    assert_eq!(failed(config, &[9, 2, 0, 0, 1, 5, 0, 0x80, 50]), "Empty descriptor");
    assert_eq!(failed(Question::Configuration, &[]), "short descriptor len");

    let asking = Asking::new(config);
    let write = |n: Result<usize, Errno>| message(asking.step(Event::Wrote(n)).unwrap_err());
    assert_eq!(write(Err(errno(ErrnoKind::Other))), "failed to write (errno 7)");
    assert_eq!(write(Ok(7)), "incomplete write");
    let configuration = Asking::new(Question::Configuration);
    assert_eq!(
        message(configuration.step(Event::Wrote(Ok(7))).unwrap_err()),
        "short descriptor write"
    );
    match asking.step(Event::Wrote(Ok(8))).unwrap() {
        Answer::More(next) => assert_eq!(
            message(next.step(Event::Read(Err(errno(ErrnoKind::Other)), vec![])).unwrap_err()),
            "failed to read (errno 7)"
        ),
        other => panic!("{:?}", other),
    }
}

fn paths(names: &[&str]) -> DevfsPath {
    let mut device_paths = StringMap::new();
    for name in names {
        device_paths.insert(String::from(*name), format!("/dev/{}", name));
    }
    DevfsPath { path: String::from("/pci"), device_paths }
}

#[test]
fn control_node_has_its_name() {
    let p = paths(&["cntrl0", "cntrl0stat"]);
    assert_eq!(control_path(&p, false).unwrap(), "/dev/cntrl0");
    assert_eq!(control_path(&p, true).unwrap(), "/dev/cntrl0stat");
    assert_eq!(message(control_path(&paths(&[]), false).unwrap_err()), "not ugen");
}

#[test]
fn endpoint_nodes_have_their_names() {
    let ep = RawEndpoint {
        interface_number: 1,
        address: 0x83,
        transfer_type: EndpointType::Bulk,
        direction: Direction::In,
    };
    assert_eq!(ep.device_basename(), "if1in3");
    assert_eq!(ep.stat_basename(), "if1in3stat");
    let ep = RawEndpoint { address: 0x02, direction: Direction::Out, ..ep };
    assert_eq!(ep.device_basename(), "if1out2");
}

fn open(names: &[&str]) -> IllumosDevice {
    match IllumosDevice::from_device_info(DEVICE.to_vec(), 5, CONFIG.to_vec(), paths(names)) {
        Ok(d) => d,
        Err(e) => panic!("{:?}", e),
    }
}

#[test]
fn device_is_opened_by_its_answers() {
    assert!(check_device_descriptor(&DEVICE).is_ok());
    assert_eq!(
        message(check_device_descriptor(&DEVICE[..10]).unwrap_err()),
        "Invalid device descriptor"
    );
    let d = open(&[]);
    assert_eq!(d.active_configuration_value(), 5);
    assert_eq!(d.configuration_descriptors(), vec![&CONFIG[..]]);
    assert_eq!(d.interfaces.len(), 1);
    assert_eq!(d.interfaces[0].endpoints.len(), 2);
    assert_eq!(d.speed(), None);
    for e in [d.set_configuration(1).unwrap_err(), d.reset().unwrap_err()] {
        assert_eq!(e.kind(), ErrorKind::Unsupported);
    }
    let bad = IllumosDevice::from_device_info(DEVICE.to_vec(), 5, vec![], paths(&[]));
    assert_eq!(message(bad.err().unwrap()), "Invalid config desc");
}

#[test]
fn claiming_opens_nodes_in_turn() {
    let d = open(&["if0in1", "if0in1stat", "if0out2", "if0out2stat"]);
    let mut opened = vec![];
    while let Some(n) = d.claim_interface(0, opened.len()).unwrap() {
        opened.push((n.address, n.path));
    }
    assert_eq!(
        opened,
        vec![
            (0x81, String::from("/dev/if0in1")),
            (0x81, String::from("/dev/if0in1stat")),
            (0x02, String::from("/dev/if0out2")),
            (0x02, String::from("/dev/if0out2stat")),
        ]
    );
    assert_eq!(message(d.claim_interface(1, 0).unwrap_err()), "invalid interface number");
    let d = open(&["if0in1"]);
    assert!(d.claim_interface(0, 0).unwrap().is_some());
    assert_eq!(message(d.claim_interface(0, 1).unwrap_err()), "bad device stat");
    assert_eq!(message(d.claim_interface(0, 2).unwrap_err()), "bad device");
}

#[test]
fn endpoints_of_claimed_interface() {
    let d = open(&[]);
    let settings = Configuration::new(&CONFIG).interface_alt_settings();
    let endpoints = settings[0].endpoints();
    let mut i = IllumosInterface::new(0, vec![0x81]);
    assert_eq!(i.get_alt_setting(), 0);
    let ep = i.endpoint(&d, endpoints[0], &numbers()).unwrap();
    assert_eq!((ep.endpoint_address(), ep.max_packet_size()), (0x81, 512));
    assert_eq!(message(i.endpoint(&d, endpoints[0], &numbers()).unwrap_err()), "endpoint already in use");
    assert_eq!(message(i.endpoint(&d, endpoints[1], &numbers()).unwrap_err()), "couldn't find ep address");
    i.release_endpoint(0x81);
    assert!(i.endpoint(&d, endpoints[0], &numbers()).is_ok());
    assert_eq!(i.set_alt_setting(1).unwrap_err().kind(), ErrorKind::Unsupported);
    assert_eq!(i.clear_halt().unwrap_err().kind(), ErrorKind::Unsupported);
    let mut other = IllumosInterface::new(9, vec![0x81]);
    assert_eq!(
        message(other.endpoint(&d, endpoints[0], &numbers()).unwrap_err()),
        "invalid interface number"
    );
    let interrupt = [9, 4, 0, 0, 1, 0xff, 1, 2, 0, 7, 5, 0x81, 3, 8, 0, 1];
    let mut config = vec![9, 2, 25, 0, 1, 5, 0, 0x80, 50];
    config.extend(interrupt);
    let settings = Configuration::new(&config).interface_alt_settings();
    let mut i = IllumosInterface::new(0, vec![0x81]);
    assert_eq!(
        message(i.endpoint(&d, settings[0].endpoints()[0], &numbers()).unwrap_err()),
        "couldn't find the endpoint"
    );
}

const UNSPECIFIED: Errno = Errno { code: u32::MAX, kind: ErrnoKind::Other };

#[test]
fn status_file_has_the_error() {
    assert!(!needs_stat(Ok(1)));
    assert!(!needs_stat(Err(errno(ErrnoKind::Pipe))));
    assert!(needs_stat(Err(UNSPECIFIED)));
    assert_eq!(handle_errno_result(Ok(3), None), Ok(3));
    assert_eq!(
        handle_errno_result(Err(errno(ErrnoKind::Pipe)), None),
        Err(UsbResult::Errno(errno(ErrnoKind::Pipe)))
    );
    assert_eq!(
        handle_errno_result(Err(UNSPECIFIED), Some(Ok((4, [4, 0, 0, 0])))),
        Err(UsbResult::UgenStat(4))
    );
    assert_eq!(
        handle_errno_result(Err(UNSPECIFIED), Some(Ok((3, [4, 0, 0, 0])))),
        Err(UsbResult::UgenStat(0x0e))
    );
    assert_eq!(
        handle_errno_result(Err(UNSPECIFIED), Some(Err(errno(ErrnoKind::NoDev)))),
        Err(UsbResult::Errno(errno(ErrnoKind::NoDev)))
    );
    assert_eq!(written(Ok(8), None), Ok(()));
    assert_eq!(
        written(Err(UNSPECIFIED), Some(Ok((4, [4, 0, 0, 0])))),
        Err(TransferError::Stall)
    );
    assert_eq!(received(Ok(vec![1, 2]), None), Ok(vec![1, 2]));
    assert_eq!(
        received(Err(errno(ErrnoKind::NoDev)), None),
        Err(TransferError::Disconnected)
    );
}

#[test]
fn ugen_status_stands_for_transfer_error() {
    for (code, error) in [
        (0x01, TransferError::Cancelled),
        (0x02, TransferError::Fault),
        (0x04, TransferError::Stall),
        (0x05, TransferError::Disconnected),
        (0x08, TransferError::InvalidArgument),
        (0x0c, TransferError::Cancelled),
        (0x0e, TransferError::Fault),
        (0x44, TransferError::Disconnected),
        (0x47, TransferError::Cancelled),
        (0x52, TransferError::Fault),
        (0x53, TransferError::Unknown(0x53)),
        (0x00, TransferError::Unknown(0)),
    ] {
        assert_eq!(ugen_to_transfer_error(code), error);
        assert_eq!(UsbResult::UgenStat(code).to_transfer_error(), error);
    }
    assert_eq!(errno_to_transfer_error(errno(ErrnoKind::Pipe)), TransferError::Stall);
    assert_eq!(errno_to_transfer_error(errno(ErrnoKind::Inval)), TransferError::Unknown(7));
    assert_eq!(UsbResult::Cancelled.to_transfer_error(), TransferError::Cancelled);
}

#[test]
fn control_requests_are_written() {
    let out = BlockingTransferData::new_control_out(ControlOut {
        control_type: ControlType::Class,
        recipient: Recipient::Interface,
        request: 9,
        value: 0x0200,
        index: 1,
        data: &[7, 8],
    });
    assert_eq!(out.out_buffer, vec![0x21, 9, 0, 2, 1, 0, 2, 0, 7, 8]);
    assert_eq!(out.data_in_len, 0);
    let input = BlockingTransferData::new_control_in(ControlIn {
        control_type: ControlType::Standard,
        recipient: Recipient::Device,
        request: 6,
        value: 0x0100,
        index: 0,
        length: 18,
    });
    assert_eq!(input.out_buffer, vec![0x80, 6, 0, 1, 0, 0, 18, 0]);
    assert_eq!(input.data_in_len, 18);
}

#[test]
fn buffer_of_asynchronous_transfer_comes_back() {
    let mut t = TransferData::for_endpoint(0x81, Buffer::new(8));
    let request = t.start();
    assert_eq!((request.direction, request.nbytes), (Direction::In, 8));
    assert!(t.is_live());
    t.finish(0, 3, None, vec![1, 2, 3, 0, 0, 0, 0, 0], &numbers());
    assert!(!t.is_live());
    let c = t.take_completion();
    assert_eq!(c.status, Ok(()));
    assert_eq!((c.actual_len, c.buffer.as_slice()), (3, &[1, 2, 3][..]));
    assert_eq!((c.buffer.requested_len(), c.buffer.capacity()), (8, 8));

    let mut buf = Buffer::new(8);
    buf.extend_from_slice(&[5, 6]);
    let mut t = TransferData::for_endpoint(0x02, buf);
    let request = t.start();
    assert_eq!((request.direction, request.nbytes), (Direction::Out, 2));
    t.finish(-1, 0, Some(Ok((4, [4, 0, 0, 0]))), vec![], &numbers());
    let c = t.take_completion();
    assert_eq!((c.status, c.actual_len), (Err(TransferError::Stall), 0));
    assert_eq!(c.buffer.as_slice(), &[5, 6]);
}

#[test]
fn asynchronous_transfer_fails() {
    let mut t = TransferData::new_bulk_in(Buffer::new(8));
    t.start();
    t.fail(errno(ErrnoKind::NoDev));
    assert!(!t.is_live());
    assert_eq!(t.take_completion().status, Err(TransferError::Disconnected));

    for (code, error) in [
        (libc::EPIPE, TransferError::Stall),
        (libc::ENODEV, TransferError::Disconnected),
        (libc::ECANCELED, TransferError::Cancelled),
        (libc::ENOMEM, TransferError::Unknown(libc::ENOMEM as u32)),
    ] {
        let mut t = TransferData::new_bulk_out(Buffer::new(8));
        t.start();
        t.finish(code, 0, None, vec![], &numbers());
        assert_eq!(t.take_completion().status, Err(error));
    }

    assert!(!cancel_is_sound(CancelReply::AllDone, true));
    assert!(cancel_is_sound(CancelReply::AllDone, false));
    assert!(cancel_is_sound(CancelReply::NotCanceled, true));
    assert!(cancel_is_sound(CancelReply::Canceled, true));
    assert!(cancel_is_sound(CancelReply::Failed, true));
}
