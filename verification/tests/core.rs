//! Errors, transfers, text, and the queue of an endpoint.

use nusb::endpoint::{Endpoint, Poll, System};
use nusb::error::{
    format_os_error_code, ActiveConfigurationError, Error, ErrorKind, GetDescriptorError,
    IoErrorKind, OsErrorFormat,
};
use nusb::ioaction::IoAction;
use nusb::maybe_future::blocking::Blocking;
use nusb::maybe_future::future::ActualFuture;
use nusb::maybe_future::{MapFut, MaybeFuture, Ready};
use nusb::platform::errno::{open_error, Errno, ErrnoKind, ErrnoNumbers};
use nusb::platform::slots::Slots;
use nusb::string_map::StringMap;
use nusb::text;
use nusb::transfer::{
    request_type, Buffer, Completion, Control, ControlIn, ControlOut, ControlType, Direction,
    EndpointType, Recipient, TransferError, SETUP_PACKET_SIZE,
};
use nusb::EndpointBitSet;

#[test]
fn endpoint_set_holds_what_was_put_in() {
    let mut set = EndpointBitSet::default();
    assert!(set.is_empty());
    set.set(0x81);
    set.set(0x02);
    assert!(set.is_set(0x81));
    assert!(set.is_set(0x02));
    assert!(!set.is_set(0x01));
    assert!(!set.is_set(0x82));
    set.clear(0x81);
    assert!(!set.is_set(0x81));
    assert!(set.is_set(0x02));
    set.clear(0x02);
    assert!(set.is_empty());
}

#[test]
fn endpoint_mask_keeps_directions_apart() {
    assert_eq!(EndpointBitSet::mask(0x00), 1);
    assert_eq!(EndpointBitSet::mask(0x0f), 0x4000_0000);
    assert_eq!(EndpointBitSet::mask(0x80), 2);
    assert_eq!(EndpointBitSet::mask(0x8f), 0x8000_0000);
}

#[test]
fn error_describes_itself_with_its_code() {
    let plain = Error::new(ErrorKind::Busy, "interface is busy");
    assert_eq!(plain.kind(), ErrorKind::Busy);
    assert_eq!(plain.os_error(), None);
    assert_eq!(plain.description(OsErrorFormat::Errno), "interface is busy");

    let os = Error::new_os(ErrorKind::NotFound, "interface not found", 2);
    assert_eq!(os.os_error(), Some(2));
    assert_eq!(os.description(OsErrorFormat::Errno), "interface not found (errno 2)");
    assert_eq!(os.description(OsErrorFormat::Omitted), "interface not found ()");

    assert_eq!(Error::new_os(ErrorKind::Other, "nothing", 0).os_error(), None);
    assert_eq!(Error::new_io(ErrorKind::Other, "failed", Some(5)).os_error(), Some(5));
    assert_eq!(Error::new_io(ErrorKind::Other, "failed", None).os_error(), None);
    assert_eq!(format_os_error_code(OsErrorFormat::Errno, 110), "errno 110");
}

#[test]
fn error_kinds_have_io_kinds() {
    let cases = [
        (ErrorKind::Disconnected, IoErrorKind::NotConnected),
        (ErrorKind::Busy, IoErrorKind::Other),
        (ErrorKind::PermissionDenied, IoErrorKind::PermissionDenied),
        (ErrorKind::NotFound, IoErrorKind::NotFound),
        (ErrorKind::Unsupported, IoErrorKind::Unsupported),
        (ErrorKind::Other, IoErrorKind::Other),
    ];
    for (kind, io_kind) in cases {
        assert_eq!(Error::new(kind, "").io_kind(), io_kind);
    }
}

#[test]
fn active_configuration_error_says_whether_configured() {
    let none = Error::from(ActiveConfigurationError { configuration_value: 0 });
    assert_eq!(none.kind(), ErrorKind::Other);
    assert_eq!(none.description(OsErrorFormat::Errno), "device is not configured");
    let missing = Error::from(ActiveConfigurationError { configuration_value: 3 });
    assert_eq!(
        missing.description(OsErrorFormat::Errno),
        "no descriptor found for active configuration"
    );
}

#[test]
fn descriptor_error_passes_transfer_error_on() {
    let transfer = GetDescriptorError::Transfer(TransferError::Stall);
    assert_eq!(transfer.message(), Err(TransferError::Stall));
    assert_eq!(transfer.io_kind(), Err(TransferError::Stall));
    assert_eq!(GetDescriptorError::InvalidDescriptor.message(), Ok("invalid descriptor"));
    assert_eq!(GetDescriptorError::InvalidDescriptor.io_kind(), Ok(IoErrorKind::InvalidData));
}

#[test]
fn errno_numbers_have_conditions() {
    let cases = [
        (libc::EAGAIN, ErrnoKind::Again),
        (libc::EBUSY, ErrnoKind::Busy),
        (libc::ECANCELED, ErrnoKind::Canceled),
        (libc::ECOMM, ErrnoKind::Comm),
        (libc::ECONNRESET, ErrnoKind::ConnReset),
        (libc::EILSEQ, ErrnoKind::IlSeq),
        (libc::EINVAL, ErrnoKind::Inval),
        (libc::ENODATA, ErrnoKind::NoData),
        (libc::ENODEV, ErrnoKind::NoDev),
        (libc::ENOENT, ErrnoKind::NoEnt),
        (libc::EOVERFLOW, ErrnoKind::Overflow),
        (libc::EPERM, ErrnoKind::Perm),
        (libc::EPIPE, ErrnoKind::Pipe),
        (libc::EPROTO, ErrnoKind::Proto),
        (libc::ESHUTDOWN, ErrnoKind::Shutdown),
        (libc::ETIME, ErrnoKind::Time),
        (libc::ETIMEDOUT, ErrnoKind::TimedOut),
        (libc::ENOMEM, ErrnoKind::Other),
        (-1, ErrnoKind::Other),
    ];
    let numbers = ErrnoNumbers::of_system();
    for (code, kind) in cases {
        assert_eq!(Errno::from_raw_os_error(code, &numbers), Errno { code: code as u32, kind });
    }
}

#[test]
fn open_errors_by_condition() {
    let cases = [
        (ErrnoKind::NoEnt, ErrorKind::Disconnected, "device not found (errno 7)"),
        (ErrnoKind::Perm, ErrorKind::PermissionDenied, "permission denied (errno 7)"),
        (ErrnoKind::Busy, ErrorKind::Other, "failed to open device (errno 7)"),
    ];
    for (errno, kind, text) in cases {
        let e = open_error(Errno { code: 7, kind: errno });
        assert_eq!(e.kind(), kind);
        assert_eq!(e.description(OsErrorFormat::Errno), text);
    }
    // There is no error number 0.
    assert_eq!(open_error(Errno { code: 0, kind: ErrnoKind::Other }).os_error(), None);
}

#[test]
fn request_type_packs_its_parts() {
    assert_eq!(request_type(Direction::In, ControlType::Standard, Recipient::Device), 0x80);
    assert_eq!(request_type(Direction::Out, ControlType::Class, Recipient::Interface), 0x21);
    assert_eq!(request_type(Direction::In, ControlType::Vendor, Recipient::Other), 0xc3);
    let control = Control {
        control_type: ControlType::Vendor,
        recipient: Recipient::Endpoint,
        request: 1,
        value: 0,
        index: 0,
    };
    assert_eq!(control.request_type(Direction::Out), 0x42);
}

#[test]
fn setup_packets_are_little_endian() {
    let input = ControlIn {
        control_type: ControlType::Standard,
        recipient: Recipient::Device,
        request: 0x06,
        value: 0x0301,
        index: 0x0409,
        length: 0x1234,
    };
    assert_eq!(input.setup_packet(), [0x80, 0x06, 0x01, 0x03, 0x09, 0x04, 0x34, 0x12]);
    assert_eq!(input.setup_packet().len(), SETUP_PACKET_SIZE);

    let output = ControlOut {
        control_type: ControlType::Vendor,
        recipient: Recipient::Device,
        request: 0x81,
        value: 0x9999,
        index: 0xaabb,
        data: &[1, 2, 3],
    };
    assert_eq!(output.setup_packet(), [0x40, 0x81, 0x99, 0x99, 0xbb, 0xaa, 0x03, 0x00]);
}

#[test]
fn endpoint_attributes_and_directions() {
    assert_eq!(Direction::from_address(0x81), Direction::In);
    assert_eq!(Direction::from_address(0x01), Direction::Out);
    assert_eq!(EndpointType::from_attributes(0b00), EndpointType::Control);
    assert_eq!(EndpointType::from_attributes(0b0001_0101), EndpointType::Isochronous);
    assert_eq!(EndpointType::from_attributes(0b10), EndpointType::Bulk);
    assert_eq!(EndpointType::from_attributes(0b11), EndpointType::Interrupt);
}

#[test]
fn buffer_keeps_within_capacity() {
    let mut buf = Buffer::new(8);
    assert_eq!((buf.len(), buf.requested_len(), buf.capacity()), (0, 8, 8));
    assert!(buf.is_empty());
    buf.extend_from_slice(&[1, 2, 3]);
    assert_eq!(buf.as_slice(), &[1, 2, 3]);
    assert_eq!(buf.remaining_capacity(), 5);
    buf.set_requested_len(4);
    assert_eq!(buf.requested_len(), 4);
    buf.clear();
    assert_eq!((buf.len(), buf.capacity()), (0, 8));
}

#[test]
fn numbers_are_read_as_std_reads_them() {
    let parse = |s: &str, radix: u32, max: u32| text::parse_unsigned(&text::chars_of(s), radix, max);
    assert_eq!(parse("255", 10, 255), Some(255));
    assert_eq!(parse("256", 10, 255), None);
    assert_eq!(parse("+7", 10, 255), Some(7));
    assert_eq!(parse("+", 10, 255), None);
    assert_eq!(parse("-1", 10, 255), None);
    assert_eq!(parse("", 10, 255), None);
    assert_eq!(parse("ff", 16, 255), Some(255));
    assert_eq!(parse("FF", 16, 255), Some(255));
    assert_eq!(parse("0x1", 16, 255), None);
    assert_eq!(parse("000000000001", 10, 255), Some(1));
    assert_eq!(parse("4294967295", 10, u32::MAX), Some(u32::MAX));
    assert_eq!(parse("4294967296", 10, u32::MAX), None);
}

#[test]
fn numbers_are_written_padded() {
    assert_eq!(text::write_padded(0x1d6b, 16, 4), "1D6B");
    assert_eq!(text::write_padded(0x2, 16, 4), "0002");
    assert_eq!(text::write_padded(7, 10, 3), "007");
    assert_eq!(text::write_padded(12345, 10, 3), "12345");
    assert_eq!(text::write_decimal(0), "0");
    assert_eq!(text::write_decimal(u32::MAX), "4294967295");
}

#[test]
fn text_is_trimmed_and_split() {
    let trimmed = |s: &str| text::string_of(text::trim(&text::chars_of(s)));
    assert_eq!(trimmed("  a b\n"), "a b");
    assert_eq!(trimmed("\t\n "), "");
    assert_eq!(trimmed("\u{a0}x\u{3000}"), "x");

    let parts: Vec<String> = text::split(&text::chars_of("1.2..4"), '.')
        .iter()
        .map(|p| text::string_of(p))
        .collect();
    assert_eq!(parts, vec!["1", "2", "", "4"]);
    assert_eq!(text::split(&[], '.').len(), 1);
    assert_eq!(
        text::split_bytes(b"a\0bc\0", 0),
        vec![b"a".to_vec(), b"bc".to_vec(), vec![]]
    );
}

#[test]
fn parts_of_a_text_go_together() {
    let s = "add@/devices\0ACTION=add\0DEVPATH=/devices";
    let parts = text::split_bytes(s.as_bytes(), 0);
    assert_eq!(parts.len(), 3);
    assert_eq!(parts.join(&0u8), s.as_bytes());
}

#[test]
fn text_comparison() {
    assert!(text::same_text("xhci", "xhci"));
    assert!(!text::same_text("xhci", "xhc"));
    assert!(!text::same_text("xhci", "xhcI"));
    assert!(text::is_word(&['a', 'b'], "ab"));
    assert!(!text::is_word(&['a', 'b'], "abc"));
    assert_eq!(text::to_lower('A'), 'a');
    assert_eq!(text::to_lower('z'), 'z');
    assert_eq!(text::to_lower('-'), '-');
    assert_eq!(text::as_deref(&Some(String::from("x"))), Some("x"));
    assert_eq!(text::as_deref(&None), None);
}

#[test]
fn string_map_finds_last_value() {
    let mut map: StringMap<u32> = StringMap::new();
    assert_eq!(map.len(), 0);
    map.insert(String::from("a"), 1);
    map.insert(String::from("b"), 2);
    map.insert(String::from("a"), 3);
    assert_eq!(map.len(), 2);
    assert_eq!(map.get("a"), Some(&3));
    assert_eq!(map.get("b"), Some(&2));
    assert_eq!(map.get("c"), None);
    assert_eq!(map.clone().get("a"), Some(&3));
}

#[test]
fn slots_are_free_again_after_removal() {
    let mut slots = Slots::new();
    let a = slots.insert(false);
    let b = slots.insert(true);
    assert_ne!(a, b);
    assert_eq!(slots.get(a), Some(false));
    assert_eq!(slots.get(b), Some(true));
    assert_eq!(slots.replace(a, true), Some(false));
    assert_eq!(slots.get(a), Some(true));
    assert_eq!(slots.remove(b), Some(true));
    assert_eq!(slots.get(b), None);
    assert_eq!(slots.remove(b), None);
    assert_eq!(slots.replace(b, false), None);
    assert_eq!(slots.insert(false), b);
}

fn sent(at: u8, len: usize, status: Result<(), TransferError>) -> Completion {
    let mut buffer = Buffer::new(8);
    buffer.extend_from_slice(&[at; 8][..len]);
    Completion { buffer, actual_len: len, status }
}

#[test]
fn transfers_are_handed_over_and_returned_in_order() {
    let mut ep = Endpoint::new(System::Usbfs, 0x02, 64);
    assert_eq!(ep.endpoint_address(), 0x02);
    assert_eq!(ep.max_packet_size(), 64);
    for i in 1..=3u8 {
        let mut buf = ep.allocate(8);
        buf.extend_from_slice(&[i]);
        ep.submit(buf);
    }
    assert_eq!(ep.pending(), 3);
    let (first, data) = ep.next_queued().unwrap();
    assert_eq!((first, data.as_slice()), (0, &[1u8][..]));
    let (second, data) = ep.next_queued().unwrap();
    assert_eq!((second, data.as_slice()), (1, &[2u8][..]));

    ep.complete(second, sent(2, 1, Ok(())));
    assert!(matches!(ep.poll_next_complete(), Poll::Pending));
    ep.complete(first, sent(1, 1, Ok(())));
    let c = match ep.poll_next_complete() {
        Poll::Ready(c) => c,
        Poll::Pending => unreachable!(),
    };
    assert_eq!(c.buffer.as_slice(), &[1]);
    assert_eq!(ep.pending(), 2);
    // The place of the transfer that is left has moved up.
    let (third, data) = ep.next_queued().unwrap();
    assert_eq!((third, data.as_slice()), (1, &[3u8][..]));
    assert!(ep.next_queued().is_none());
}

#[test]
fn cancelling_goes_backwards() {
    let mut ep = Endpoint::new(System::Usbfs, 0x81, 64);
    for _ in 0..4 {
        let buf = ep.allocate(8);
        ep.submit(buf);
    }
    ep.next_queued().unwrap();
    ep.next_queued().unwrap();
    assert_eq!(ep.cancel_all(), vec![1, 0]);
    assert!(matches!(ep.poll_next_complete(), Poll::Pending));
    ep.complete(0, sent(9, 3, Err(TransferError::Cancelled)));
    ep.complete(1, sent(9, 0, Err(TransferError::Cancelled)));
    for expected in [3, 0, 0, 0] {
        match ep.poll_next_complete() {
            Poll::Ready(c) => {
                assert_eq!(c.status, Err(TransferError::Cancelled));
                assert_eq!(c.buffer.len(), expected);
            }
            Poll::Pending => unreachable!(),
        }
    }
    assert_eq!(ep.pending(), 0);
}

#[test]
fn refused_transfer_comes_out_in_its_turn() {
    let invalid = TransferError::InvalidArgument;
    for (system, address, error, data, requested_len) in [
        (System::Usbfs, 0x01, invalid, &[1, 2, 3][..], 3),
        (System::Usbfs, 0x81, invalid, &[], 8),
        (System::IoKit, 0x01, invalid, &[1, 2, 3], 3),
        (System::IoKit, 0x81, invalid, &[], 8),
        (System::Ugen { inval: 22 }, 0x01, TransferError::Unknown(22), &[1, 2, 3], 8),
        (System::Ugen { inval: 22 }, 0x81, TransferError::Unknown(22), &[], 8),
        (System::WebUsb, 0x01, invalid, &[1, 2, 3], 8),
        (System::WebUsb, 0x81, invalid, &[1, 2, 3], 8),
    ] {
        let mut ep = Endpoint::new(system, address, 64);
        let mut buf = ep.allocate(8);
        buf.extend_from_slice(&[1, 2, 3]);
        ep.submit_err(buf, invalid);
        match ep.poll_next_complete() {
            Poll::Ready(c) => {
                assert_eq!(c.status, Err(error), "{:?}", system);
                assert_eq!(c.actual_len, 0);
                assert_eq!(c.buffer.as_slice(), data, "{:?}", system);
                assert_eq!(c.buffer.requested_len(), requested_len, "{:?}", system);
            }
            Poll::Pending => unreachable!(),
        }
    }
    let mut ep = Endpoint::new(System::WebUsb, 0x01, 64);
    ep.submit_err(Buffer::new(0), TransferError::Fault);
    match ep.poll_next_complete() {
        Poll::Ready(c) => assert_eq!(c.status, Err(TransferError::Fault)),
        Poll::Pending => unreachable!(),
    }
}

#[test]
fn actions_can_be_waited_for_and_mapped() {
    assert_eq!(Ready(3).wait(), 3);
    assert_eq!(Ready(3).map(|x| x + 1).wait(), 4);
    assert_eq!(MaybeFuture::wait(Blocking::new(|| 5)), 5);
    assert_eq!(Blocking::new(|| 5).map(|x| x * 2).wait(), 10);
    assert_eq!(Blocking::new(|| 6).into_inner()(), 6);
    assert_eq!(IoAction::wait(Blocking::new(|| 7)), 7);
    assert_eq!(ActualFuture::new(8).into_future(), 8);
}

#[test]
fn mapped_future_applies_function_once_ready() {
    let mut fut = MapFut::new(|x: u32| x + 1);
    assert!(matches!(fut.poll::<u32, u32>(Poll::Pending), Poll::Pending));
    assert!(matches!(fut.poll::<u32, u32>(Poll::Ready(1)), Poll::Ready(2)));
}
