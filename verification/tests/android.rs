//! Android: devices and permissions.

use nusb::enumeration::{DeviceId, PlatformDeviceId};
use nusb::error::{Error, ErrorKind, OsErrorFormat};
use nusb::platform::linux_usbfs::android::{
    action_usb_permission, build_device_info, check_connection, check_usb_manager, hotplug_action,
    java_error, on_receive, open_device, pending_intent_flags, AndroidDevice, AndroidInterface,
    HotplugAction, JavaError, PendingRequest, PermissionEvent, PermissionRequest, RequestStep,
    FLAG_MUTABLE,
};

fn text(e: Error) -> String {
    e.description(OsErrorFormat::Errno)
}

fn interface(id: i32, class: i32) -> AndroidInterface {
    AndroidInterface { id, class, subclass: 1, protocol: 2, name: None }
}

fn device(version: Option<&str>) -> AndroidDevice {
    AndroidDevice {
        device_id: 1002,
        vendor_id: 0x1d50,
        product_id: 0x60e6,
        version: version.map(String::from),
        class: 0xef,
        subclass: 2,
        protocol: 1,
        manufacturer_name: Some(String::from("Maker")),
        product_name: None,
        serial_number: None,
        interfaces: vec![interface(1, 3), interface(0, 8), interface(1, 9)],
    }
}

#[test]
fn java_errors_are_described() {
    let cases = [
        (JavaError::CaughtException, "unexpected Java error, please check logcat"),
        (JavaError::PendingException(true), "unexpected pending Java error, please check logcat"),
        (JavaError::PendingException(false), "unexpected pending Java error"),
        (JavaError::Other, "unexpected JNI error, please check logcat"),
    ];
    for (e, message) in cases {
        assert_eq!(text(java_error(e)), message);
        assert_eq!(java_error(e).kind(), ErrorKind::Other);
    }
}

#[test]
fn system_has_to_be_recent_and_have_usb() {
    assert!(check_usb_manager(23, true).is_ok());
    let old = check_usb_manager(22, true).unwrap_err();
    assert_eq!(old.kind(), ErrorKind::Unsupported);
    assert_eq!(text(old), "nusb requires Android API level 23 (6.0) or newer versions");
    let none = check_usb_manager(34, false).unwrap_err();
    assert_eq!(none.kind(), ErrorKind::Unsupported);
    assert_eq!(text(none), "USB system service not found");
}

#[test]
fn first_alternate_setting_counts() {
    let d = build_device_info(device(Some("2.10")));
    assert_eq!(d.id(), DeviceId(PlatformDeviceId::Android(1002)));
    assert_eq!((d.vendor_id(), d.product_id()), (0x1d50, 0x60e6));
    assert_eq!(d.device_version, 0x0210);
    assert_eq!(d.manufacturer_string(), Some("Maker"));
    let interfaces: Vec<(u8, u8)> =
        d.interfaces().iter().map(|i| (i.interface_number(), i.class())).collect();
    assert_eq!(interfaces, vec![(0, 8), (1, 3)]);
}

#[test]
fn version_is_binary_coded_decimal() {
    for (version, expected) in [
        (Some("1.00"), 0x0100),
        (Some("12.34"), 0x1234),
        (Some(" 2 . 5 .9"), 0x0205),
        (Some("2"), 0xffff),
        (Some("a.b"), 0xffff),
        (None, 0xffff),
    ] {
        assert_eq!(build_device_info(device(version)).device_version, expected);
    }
}

#[test]
fn connection_is_checked_by_id() {
    assert!(check_connection(2, &[1, 2]));
    assert!(!check_connection(3, &[1, 2]));
    assert_eq!(action_usb_permission("org.app"), "org.app.rust.nusb.USB_PERMISSION");
    assert_eq!(pending_intent_flags(30), 0);
    assert_eq!(pending_intent_flags(31), FLAG_MUTABLE);
}

fn failed() -> Error {
    Error::new(ErrorKind::Other, "failed")
}

#[test]
fn permission_is_asked_for_once() {
    let idle = PendingRequest { shown: false };
    let mut pending = idle;
    let q = match PermissionRequest::build(7, true, Ok(false), pending) {
        Ok(RequestStep::Show(q)) => q,
        other => panic!("{:?}", other),
    };
    assert!(q.shown(Err(failed()), &mut pending).is_err());
    assert_eq!(pending, idle);
    assert!(q.shown(Ok(()), &mut pending).is_ok());
    assert!(pending.shown);
    assert_eq!(
        text(PermissionRequest::build(8, true, Ok(false), pending).unwrap_err()),
        "another permission request is already pending"
    );

    match PermissionRequest::build(8, true, Ok(true), pending) {
        Ok(RequestStep::Known(q)) => assert!(matches!(q.result, Some(Ok(true)))),
        other => panic!("{:?}", other),
    }
    match PermissionRequest::build(8, false, Ok(true), pending) {
        Ok(RequestStep::Known(q)) => match q.result {
            Some(Err(e)) => assert_eq!(e.kind(), ErrorKind::Disconnected),
            other => panic!("{:?}", other),
        },
        other => panic!("{:?}", other),
    }
    assert_eq!(
        text(PermissionRequest::build(8, true, Err(failed()), pending).unwrap_err()),
        "failed"
    );
}

#[test]
fn result_is_set_once() {
    let mut pending = PendingRequest { shown: true };
    let mut q = PermissionRequest { device_id: 7, result: None };
    assert!(q.set_result(Ok(false), &mut pending));
    assert!(!pending.shown);
    pending.shown = true;
    assert!(!q.set_result(Ok(true), &mut pending));
    assert!(matches!(q.result, Some(Ok(false))));
    assert!(pending.shown);
}

#[test]
fn result_is_checked_against_the_system() {
    let mut pending = PendingRequest { shown: true };
    let mut q = PermissionRequest { device_id: 7, result: None };
    assert!(matches!(q.check_result(true, Ok(false), &mut pending), (None, false)));
    assert!(matches!(q.check_result(true, Err(failed()), &mut pending), (None, false)));
    assert!(matches!(q.check_result(true, Ok(true), &mut pending), (Some(Ok(true)), true)));
    assert!(!pending.shown);
    match q.check_result(false, Ok(true), &mut pending) {
        (Some(Err(e)), false) => assert_eq!(text(e), "device disconnected"),
        other => panic!("{:?}", other),
    }
    assert!(matches!(q.check_result(true, Ok(false), &mut pending), (Some(Ok(true)), false)));
}

#[test]
fn answers_are_received() {
    let q = Some(PermissionRequest { device_id: 7, result: None });
    let shown = PendingRequest { shown: true };

    let mut pending = shown;
    let (same, set) = on_receive(q, 7, PermissionEvent::Answer(8, Ok(true)), &mut pending);
    assert!(same.unwrap().result.is_none() && !set && pending.shown);

    let (after, set) = on_receive(q, 7, PermissionEvent::Answer(7, Ok(false)), &mut pending);
    assert!(matches!(after.unwrap().result, Some(Ok(false))));
    assert!(set && !pending.shown);

    let mut pending = shown;
    let (after, _) = on_receive(q, 7, PermissionEvent::Answer(7, Err(())), &mut pending);
    match after.unwrap().result {
        Some(Err(e)) => assert_eq!(text(e), "failed to get EXTRA_PERMISSION_GRANTED"),
        other => panic!("{:?}", other),
    }

    let mut pending = shown;
    let (after, set) = on_receive(q, 7, PermissionEvent::Other(true), &mut pending);
    assert!(after.unwrap().result.is_none() && !set && pending.shown);
    let (after, set) = on_receive(q, 7, PermissionEvent::Other(false), &mut pending);
    assert!(matches!(after.unwrap().result, Some(Err(_))));
    assert!(set && !pending.shown);

    // Nobody waits, but the request is done.
    let mut pending = shown;
    let (after, set) = on_receive(None, 7, PermissionEvent::Answer(7, Ok(true)), &mut pending);
    assert!(after.is_none() && !set && !pending.shown);
}

#[test]
fn device_is_opened_with_permission() {
    assert_eq!(open_device(Ok(true), Ok(()), Some(5)).unwrap(), 5);
    let e = open_device(Ok(true), Ok(()), None).unwrap_err();
    assert_eq!((e.kind(), text(e)), (
        ErrorKind::NotFound,
        String::from("`UsbManager.openDevice()` failed")
    ));
    let e = open_device(Ok(false), Ok(()), Some(5)).unwrap_err();
    assert_eq!((e.kind(), text(e)), (
        ErrorKind::PermissionDenied,
        String::from("USB device permission request refused by the user")
    ));
    assert_eq!(text(open_device(Err(failed()), Ok(()), Some(5)).unwrap_err()), "failed");
    assert_eq!(text(open_device(Ok(true), Err(failed()), Some(5)).unwrap_err()), "failed");
}

#[test]
fn hotplug_actions_are_told_apart() {
    assert_eq!(hotplug_action("attached ", "attached", "detached"), HotplugAction::Attached);
    assert_eq!(hotplug_action("detached", "attached", "detached"), HotplugAction::Detached);
    assert_eq!(hotplug_action("other", "attached", "detached"), HotplugAction::Other);
}
