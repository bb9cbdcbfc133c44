//! macOS: the registry, the termination of devices, and what IOKit returns.

use nusb::endpoint::Poll;
use nusb::enumeration::{DeviceId, PlatformDeviceId, Speed};
use nusb::error::{Error, ErrorKind};
use nusb::hotplug::HotplugEvent;
use nusb::platform::macos_iokit::device::{
    control_result, guess_active_config, Capture, MacDevice,
};
use nusb::platform::macos_iokit::enumeration::{
    map_speed, parse_location_id, probe_device, probe_root_hub, service_by_registry_id,
    AppleUSBController, DeviceProps, InterfaceProps, RootHubProps,
};
use nusb::platform::macos_iokit::hotplug::{
    after_matched, after_terminated, HotplugStep, Wakers,
};
use nusb::platform::macos_iokit::iokit::{check_iokit_return, IoObject, IoService};
use nusb::platform::macos_iokit::iokit_usb::{
    find_endpoint, plugin_result, Attempt, DeviceAttempts, EndpointInfo,
};
use nusb::platform::macos_iokit::termination::{Registry, K_IO_MESSAGE_SERVICE_IS_TERMINATED};
use nusb::platform::macos_iokit::transfer::TransferData;
use nusb::platform::macos_iokit::{
    os_version, read_osproductversion, read_osrelease, status_to_transfer_result, IoReturn,
    IoReturnKind, OsVersion,
};
use nusb::transfer::{
    Buffer, Control, ControlType, Direction, EndpointType, Recipient, TransferError,
};

const SUCCESS: IoReturn = IoReturn {
    code: 0,
    kind: IoReturnKind::Success,
};

const ABORTED: IoReturn = IoReturn {
    code: 0xe00002eb_u32 as i32,
    kind: IoReturnKind::Aborted,
};

fn failed(kind: IoReturnKind) -> IoReturn {
    IoReturn { code: -1, kind }
}

#[test]
fn test_parse_location_id() {
    assert_eq!(parse_location_id(0x01234567), vec![2, 3, 4, 5, 6, 7]);
    assert_eq!(parse_location_id(0xff875000), vec![8, 7, 5]);
    assert_eq!(parse_location_id(0x08400000), vec![4]);
    assert_eq!(parse_location_id(0x02040100), vec![0, 4, 0, 1]);
    assert_eq!(parse_location_id(0), vec![]);
}

/// A transfer in flight, and the number that stands for it in the registry.
fn pending_transfer(number: usize) -> (usize, TransferData) {
    (number, TransferData::new(SUCCESS))
}

#[test]
fn sweep_completes_pending_transfers_with_aborted_and_wakes_waiters() {
    let mut registry = Registry::new();
    let key = registry.register_device();
    let (ptr, mut transfer) = pending_transfer(0x1000);
    assert!(registry.try_add_pending(Some(key), ptr));

    let swept = registry.sweep_terminated(key);
    assert_eq!(swept, vec![ptr]);
    transfer.complete(ABORTED, 0, vec![]);
    assert_eq!(
        transfer.take_completion(Direction::In).status,
        Err(TransferError::Cancelled),
        "waiter woke with the synthesized aborted completion"
    );
    registry.unregister_device(key);
}

#[test]
fn closed_device_rejects_new_submissions() {
    let mut registry = Registry::new();
    let key = registry.register_device();
    registry.sweep_terminated(key);
    let (ptr, mut transfer) = pending_transfer(0x1000);
    assert!(
        !registry.try_add_pending(Some(key), ptr),
        "post-termination submits must fail fast"
    );
    transfer.complete(ABORTED, 0, vec![]);
    drop(transfer.take_completion(Direction::In));
    registry.unregister_device(key);
}

#[test]
fn normally_completed_transfer_is_not_swept() {
    let mut registry = Registry::new();
    let key = registry.register_device();
    let (ptr, mut transfer) = pending_transfer(0x1000);
    assert!(registry.try_add_pending(Some(key), ptr));

    // The transfer is removed from the registry, and then completed.
    registry.remove_pending(ptr);
    transfer.complete(SUCCESS, 0, vec![]);
    let completion = transfer.take_completion(Direction::In);

    // The sweep must not complete the transfer again.
    assert_eq!(registry.sweep_terminated(key), Vec::<usize>::new());
    assert_eq!(
        completion.status,
        Ok(()),
        "sweep left the completed transfer untouched"
    );
    registry.unregister_device(key);
}

#[test]
fn sweep_leaves_other_devices_alone() {
    let mut registry = Registry::new();
    let a = registry.register_device();
    let b = registry.register_device();
    assert_ne!(a, b);
    assert!(registry.try_add_pending(Some(a), 1));
    assert!(registry.try_add_pending(Some(b), 2));
    assert!(registry.try_add_pending(Some(a), 3));
    assert!(registry.try_add_pending(None, 4));
    assert_eq!(registry.interest_callback(a, 0), Vec::<usize>::new());
    assert_eq!(
        registry.interest_callback(a, K_IO_MESSAGE_SERVICE_IS_TERMINATED),
        vec![1, 3]
    );
    assert_eq!(registry.sweep_terminated(a), Vec::<usize>::new());
    assert!(!registry.try_add_pending(Some(a), 5));
    assert!(registry.try_add_pending(Some(b), 6));
    registry.unregister_device(b);
    assert!(!registry.try_add_pending(Some(b), 7));
    assert_eq!(registry.sweep_terminated(b), Vec::<usize>::new());
}

#[test]
fn wakers_are_woken_once() {
    let mut wakers = Wakers::new();
    let id = wakers.insert();
    assert!(!wakers.callback(id));
    wakers.register(id);
    assert!(wakers.callback(id));
    assert!(!wakers.callback(id));
    wakers.register(id);
    wakers.remove(id);
    assert!(!wakers.callback(id));
}

#[test]
fn statuses_of_transfers() {
    assert_eq!(status_to_transfer_result(SUCCESS), Ok(()));
    assert_eq!(status_to_transfer_result(failed(IoReturnKind::Underrun)), Ok(()));
    assert_eq!(
        status_to_transfer_result(failed(IoReturnKind::NoDevice)),
        Err(TransferError::Disconnected)
    );
    assert_eq!(status_to_transfer_result(ABORTED), Err(TransferError::Cancelled));
    assert_eq!(
        status_to_transfer_result(failed(IoReturnKind::PipeStalled)),
        Err(TransferError::Stall)
    );
    assert_eq!(
        status_to_transfer_result(failed(IoReturnKind::Other)),
        Err(TransferError::Unknown(0xffff_ffff))
    );
    assert_eq!(control_result(SUCCESS, 7), Ok(7));
    assert_eq!(control_result(ABORTED, 7), Err(TransferError::Cancelled));
}

#[test]
fn versions_of_the_operating_system() {
    let version = |major, minor, patch| OsVersion { major, minor, patch };
    assert_eq!(read_osproductversion("13.4.1"), Some(version(13, 4, 1)));
    assert_eq!(read_osproductversion("13.4"), None);
    assert_eq!(read_osproductversion("13.x.1"), None);
    assert_eq!(read_osproductversion("256.0.0"), None);
    assert_eq!(read_osrelease("1.3.1"), Some(version(10, 0, 0)));
    assert_eq!(read_osrelease("1.4"), Some(version(10, 1, 0)));
    assert_eq!(read_osrelease("5.5"), Some(version(10, 1, 0)));
    assert_eq!(read_osrelease("19.6.0"), Some(version(10, 15, 6)));
    assert_eq!(read_osrelease("22.5.0"), Some(version(13, 5, 0)));
    assert_eq!(read_osrelease("22"), None);
    assert_eq!(os_version(Some("13.4.1"), Some("19.6.0")), version(13, 4, 1));
    assert_eq!(os_version(Some("13.4"), Some("19.6.0")), version(10, 15, 6));
    assert_eq!(os_version(None, Some("")), version(10, 0, 0));
    assert_eq!(os_version(None, None), version(10, 0, 0));
}

fn keyboard() -> DeviceProps {
    DeviceProps {
        registry_id: Some(0x1_0000_0abc),
        location_id: Some(0x1412_0000),
        address: Some(3),
        vendor_id: Some(0x5ac),
        product_id: Some(0x24f),
        device_version: Some(0x110),
        class: Some(0),
        subclass: Some(0),
        protocol: Some(0),
        max_packet_size_0: Some(8),
        speed: Some(1),
        vendor_name: Some(String::from("Apple")),
        product_name: Some(String::from("Keyboard")),
        serial_number: None,
        children: Some(vec![
            InterfaceProps {
                number: Some(0),
                class: Some(3),
                subclass: Some(1),
                protocol: Some(1),
                usb_string: None,
                name: Some(String::from("Keys")),
            },
            InterfaceProps {
                number: None,
                class: Some(3),
                subclass: Some(1),
                protocol: Some(1),
                usb_string: None,
                name: None,
            },
            InterfaceProps {
                number: Some(1),
                class: Some(3),
                subclass: Some(0),
                protocol: Some(0),
                usb_string: Some(String::from("Media")),
                name: Some(String::from("Other")),
            },
        ]),
    }
}

#[test]
fn devices_are_probed() {
    let info = probe_device(keyboard()).unwrap();
    assert_eq!(info.bus_id(), "14");
    assert_eq!(info.port_chain(), &[1, 2]);
    assert_eq!(info.device_address(), 3);
    assert_eq!(info.vendor_id(), 0x5ac);
    assert_eq!(info.product_id(), 0x24f);
    assert_eq!(info.device_version(), 0x110);
    assert_eq!(info.location_id(), 0x1412_0000);
    assert_eq!(info.registry_entry_id(), 0x1_0000_0abc);
    assert_eq!(info.speed(), Some(Speed::Full));
    assert_eq!(info.manufacturer_string(), Some("Apple"));
    assert_eq!(info.product_string(), Some("Keyboard"));
    assert_eq!(info.serial_number(), None);
    assert_eq!(
        info.id(),
        DeviceId(PlatformDeviceId::RegistryEntry(0x1_0000_0abc))
    );
    assert_eq!(info.interfaces().len(), 2);
    assert_eq!(info.interfaces()[0].interface_string(), Some("Keys"));
    assert_eq!(info.interfaces()[1].interface_number(), 1);
    assert_eq!(info.interfaces()[1].interface_string(), Some("Media"));

    let mut props = keyboard();
    props.address = None;
    assert!(probe_device(props).is_none());
    let mut props = keyboard();
    props.max_packet_size_0 = None;
    assert!(probe_device(props).is_none());
    let mut props = keyboard();
    props.children = None;
    assert_eq!(probe_device(props).unwrap().interfaces().len(), 0);
}

#[test]
fn root_hubs_are_probed() {
    let props = |pci: Option<&str>| RootHubProps {
        registry_id: Some(7),
        location_id: Some(0xfd00_0000),
        pci_match: pci.map(String::from),
        provider_class: Some(String::from("IOPCIDevice")),
        class: Some(String::from("AppleUSBXHCI")),
        name: None,
    };
    let info = probe_root_hub(
        props(Some("0x15e98086 0x15ec8086")),
        AppleUSBController::XHCI,
    )
    .unwrap();
    assert_eq!(info.bus_id(), "fd");
    assert_eq!(info.port_chain(), &[] as &[u8]);
    assert_eq!(info.vendor_id(), 0x8086);
    assert_eq!(info.product_id(), 0x15e9);
    assert_eq!(info.device_version(), 0x300);
    assert_eq!(info.class(), 9);
    assert_eq!(info.protocol(), 3);
    assert_eq!(info.manufacturer_string(), Some("IOPCIDevice"));
    assert_eq!(info.product_string(), Some("AppleUSBXHCI"));

    let info = probe_root_hub(props(Some("0x15zz8086")), AppleUSBController::EHCI).unwrap();
    assert_eq!((info.vendor_id(), info.product_id()), (0x8086, 0));
    assert_eq!((info.device_version(), info.protocol()), (0x200, 1));
    let info = probe_root_hub(props(Some("0x15e980")), AppleUSBController::OHCI).unwrap();
    assert_eq!((info.vendor_id(), info.product_id()), (0, 0));
    assert_eq!((info.device_version(), info.protocol()), (0x110, 0));
    let info = probe_root_hub(props(None), AppleUSBController::VHCI).unwrap();
    assert_eq!((info.vendor_id(), info.product_id()), (0, 0));
    assert_eq!((info.device_version(), info.protocol()), (0, 0));
    let info = probe_root_hub(props(Some("0\u{e9}5e98086xx")), AppleUSBController::VHCI).unwrap();
    assert_eq!((info.vendor_id(), info.product_id()), (0, 0));
}

#[test]
fn speeds_and_services() {
    assert_eq!(map_speed(0), Some(Speed::Low));
    assert_eq!(map_speed(3), Some(Speed::Super));
    assert_eq!(map_speed(5), Some(Speed::SuperPlus));
    assert_eq!(map_speed(6), None);
    assert_eq!(map_speed(-1), None);
    assert_eq!(service_by_registry_id(&[None, Some(4), Some(4)], 4).unwrap(), 1);
    let e = service_by_registry_id(&[None, Some(4)], 5).unwrap_err();
    assert_eq!(e.kind(), ErrorKind::NotFound);
    assert_eq!(IoObject::new(9).get(), 9);
    assert_eq!(IoService::from_iterator(5).unwrap().get(), 5);
    assert!(IoService::from_iterator(0).is_none());
}

#[test]
fn hotplug_events_in_order() {
    assert!(matches!(after_matched(Some(None)), HotplugStep::NextMatched));
    assert!(matches!(after_matched(None), HotplugStep::NextTerminated));
    let dev = probe_device(keyboard());
    assert!(matches!(
        after_matched(Some(dev)),
        HotplugStep::Done(Poll::Ready(HotplugEvent::Connected(_)))
    ));
    assert!(matches!(
        after_terminated(Some(Some(8))),
        Poll::Ready(HotplugEvent::Disconnected(DeviceId(
            PlatformDeviceId::RegistryEntry(8)
        )))
    ));
    assert!(matches!(after_terminated(Some(None)), Poll::Pending));
    assert!(matches!(after_terminated(None), Poll::Pending));
}

#[test]
fn plugins_are_retried() {
    let busy = failed(IoReturnKind::NoResources);
    let mut attempts = DeviceAttempts::new();
    for _ in 0..4 {
        assert!(matches!(attempts.after(busy, false), Attempt::Retry));
    }
    match attempts.after(busy, false) {
        Attempt::Done(Err(e)) => assert_eq!(e.kind(), ErrorKind::NotFound),
        _ => panic!("a sixth attempt"),
    }
    let mut attempts = DeviceAttempts::new();
    assert!(matches!(attempts.after(busy, false), Attempt::Retry));
    assert!(matches!(attempts.after(SUCCESS, true), Attempt::Done(Ok(()))));
    assert!(plugin_result(SUCCESS, true).is_ok());
    assert!(plugin_result(SUCCESS, false).is_err());
    let e = plugin_result(failed(IoReturnKind::Other), true).unwrap_err();
    assert_eq!(e.os_error(), Some(0xffff_ffff));
    let e = check_iokit_return(failed(IoReturnKind::ExclusiveAccess)).unwrap_err();
    assert_eq!(e.os_error(), None);
}

fn endpoint(pipe_ref: u8, direction: u8, number: u8) -> EndpointInfo {
    EndpointInfo {
        pipe_ref,
        direction,
        number,
        transfer_type: 2,
        max_packet_size: 64,
        interval: 0,
        max_burst: 0,
        mult: 0,
        bytes_per_interval: 0,
    }
}

#[test]
fn interfaces_are_claimed() {
    let mut device =
        MacDevice::from_device_info(Some(Speed::High), failed(IoReturnKind::Other), true, None, Ok(2))
            .unwrap();
    assert_eq!(device.active_configuration_value(), 2);
    assert_eq!(device.speed(), Some(Speed::High));
    assert!(!device.is_open_exclusive);
    assert!(MacDevice::from_device_info(None, SUCCESS, false, None, Ok(2)).is_err());
    let guessed = MacDevice::from_device_info(None, SUCCESS, true, Some(1), Ok(2)).unwrap();
    assert_eq!(guessed.active_configuration_value(), 1);

    assert!(device
        .require_open_exclusive(failed(IoReturnKind::Other))
        .is_err());
    assert!(device.require_open_exclusive(SUCCESS).is_ok());
    assert!(device.set_configuration(3, SUCCESS).is_ok());
    assert_eq!(device.active_configuration_value(), 3);
    assert!(device
        .set_configuration(4, failed(IoReturnKind::Other))
        .is_err());
    assert_eq!(device.active_configuration_value(), 3);

    assert_eq!(
        MacDevice::find_interface(&[None, Some(1), Some(0)], 0).unwrap(),
        2
    );
    let e = MacDevice::find_interface(&[None, Some(1)], 0).unwrap_err();
    assert_eq!(e.kind(), ErrorKind::NotFound);
    assert!(device
        .claim_interface(0, failed(IoReturnKind::ExclusiveAccess), Ok(vec![]))
        .is_err());
    assert!(device
        .claim_interface(0, SUCCESS, Err(failed(IoReturnKind::Other)))
        .is_err());
    let mut interface = device
        .claim_interface(0, SUCCESS, Ok(vec![endpoint(1, 1, 1), endpoint(2, 0, 1)]))
        .unwrap();
    assert!(device.require_open_exclusive(SUCCESS).is_err());
    assert_eq!(interface.make_transfer(0x81, EndpointType::Bulk), 1);
    assert_eq!(interface.make_transfer(0x01, EndpointType::Bulk), 2);
    assert_eq!(interface.make_transfer(0x02, EndpointType::Bulk), 0);
    assert_eq!(interface.make_transfer(0, EndpointType::Control), 0);
    assert_eq!(interface.clear_halt(0x81).unwrap(), 1);
    assert_eq!(
        interface.clear_halt(0x82).unwrap_err().kind(),
        ErrorKind::NotFound
    );
    assert!(interface
        .set_alt_setting(1, failed(IoReturnKind::Other), Ok(vec![]))
        .is_err());
    assert_eq!(interface.get_alt_setting(), 0);
    assert!(interface
        .set_alt_setting(1, SUCCESS, Ok(vec![endpoint(3, 1, 1)]))
        .is_ok());
    assert_eq!(interface.get_alt_setting(), 1);
    assert_eq!(interface.clear_halt(0x81).unwrap(), 3);
    device.release_interface();
    assert!(device.require_open_exclusive(SUCCESS).is_ok());
    assert_eq!(
        find_endpoint(&[endpoint(1, 1, 1), endpoint(9, 1, 1)], 0x81)
            .unwrap()
            .pipe_ref,
        9
    );
}

#[test]
fn capture_and_configuration() {
    assert_eq!(
        MacDevice::with_capture_authorization(true, false).unwrap(),
        Capture::Authorize
    );
    assert_eq!(
        MacDevice::with_capture_authorization(false, true).unwrap(),
        Capture::Direct
    );
    let e = MacDevice::with_capture_authorization(false, false).unwrap_err();
    assert_eq!(e.kind(), ErrorKind::PermissionDenied);
    let desc: &[u8] = &[9, 2, 9, 0, 0, 5, 0, 0, 0];
    assert_eq!(guess_active_config(Ok(1), true, Some(desc)), Some(5));
    assert_eq!(guess_active_config(Ok(2), true, Some(desc)), None);
    assert_eq!(guess_active_config(Ok(1), false, Some(desc)), None);
    assert_eq!(guess_active_config(Ok(1), true, None), None);
    assert_eq!(guess_active_config(Ok(1), true, Some(&[9, 2])), None);
    let e = Error::new(ErrorKind::Other, "no");
    assert_eq!(guess_active_config(Err(e), true, Some(desc)), None);
}

#[test]
fn control_requests() {
    let device = MacDevice::from_device_info(None, SUCCESS, true, Some(1), Ok(0)).unwrap();
    let control = Control {
        control_type: ControlType::Vendor,
        recipient: Recipient::Interface,
        request: 9,
        value: 0x1234,
        index: 2,
    };
    let r = device.control_in_blocking(control, 64, 500);
    assert_eq!(r.request_type, 0xc1);
    assert_eq!((r.request, r.value, r.index, r.length), (9, 0x1234, 2, 64));
    assert_eq!((r.no_data_timeout, r.completion_timeout), (500, 500));
    let r = device.control_out_blocking(control, &[1, 2, 3], 1 << 40);
    assert_eq!(r.request_type, 0x41);
    assert_eq!(r.length, 3);
    assert_eq!(r.completion_timeout, u32::MAX);
}

#[test]
fn buffers_come_back_from_transfers() {
    let mut out = TransferData::new(SUCCESS);
    let mut buffer = Buffer::new(8);
    buffer.extend_from_slice(&[1, 2, 3]);
    out.put_buffer(buffer, Direction::Out);
    out.complete(SUCCESS, 2, vec![1, 2, 3]);
    let c = out.take_completion(Direction::Out);
    assert_eq!((c.status, c.actual_len), (Ok(()), 2));
    assert_eq!(c.buffer.as_slice(), &[1, 2, 3]);
    assert_eq!(c.buffer.capacity(), 8);

    let mut t = TransferData::new(SUCCESS);
    t.put_buffer(Buffer::new(8), Direction::In);
    t.complete(ABORTED, 3, vec![4, 5, 6, 7]);
    let c = t.take_completion(Direction::In);
    assert_eq!((c.status, c.actual_len), (Err(TransferError::Cancelled), 3));
    assert_eq!(c.buffer.as_slice(), &[4, 5, 6]);
    assert_eq!(c.buffer.requested_len(), 8);
}
