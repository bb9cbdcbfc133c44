//! Buffered reading and writing.

use std::time::Duration;

use nusb::endpoint::{Endpoint, Poll, System};
use nusb::io::{EndpointRead, EndpointWrite, ExpectedShortPacket, IoError};
use nusb::transfer::{Buffer, Completion, TransferError};

/// A device end for an endpoint: hand over all transfers, and complete the oldest ones.
struct Device {
    requested: Vec<(usize, usize)>,
}

impl Device {
    fn new() -> Device {
        Device { requested: vec![] }
    }

    /// Take what is queued; the sizes of the buffers.
    fn take(&mut self, ep: &mut Endpoint) -> Vec<usize> {
        let mut sizes = vec![];
        while let Some((at, buf)) = ep.next_queued() {
            sizes.push(buf.requested_len());
            self.requested.push((at, buf.capacity()));
        }
        sizes
    }

    /// Complete the oldest transfer that is in flight with data.
    fn reply(&mut self, ep: &mut Endpoint, data: &[u8], status: Result<(), TransferError>) {
        let (at, capacity) = self.requested.remove(0);
        let buffer = Buffer::from_parts(data.to_vec(), capacity as u32, capacity as u32);
        ep.complete(at, Completion { buffer, actual_len: data.len(), status });
    }
}

fn ready<T>(poll: Poll<T>) -> T {
    match poll {
        Poll::Ready(x) => x,
        Poll::Pending => panic!("pending"),
    }
}

fn reader(size: usize) -> EndpointRead {
    EndpointRead::new(Endpoint::new(System::Usbfs, 0x81, 8), size)
}

fn writer(size: usize) -> EndpointWrite {
    EndpointWrite::new(Endpoint::new(System::Usbfs, 0x01, 8), size)
}

#[test]
fn transfer_size_is_rounded_up_to_packets() {
    for (size, rounded) in [(0, 8), (1, 8), (8, 8), (9, 16), (16, 16), (17, 24)] {
        let mut r = reader(size);
        let mut device = Device::new();
        assert!(matches!(r.poll_fill_buf(), Poll::Pending));
        assert_eq!(device.take(r.endpoint_mut()), vec![rounded]);
    }
}

#[test]
fn reading_hands_out_data_in_order() {
    let mut r = reader(8).with_num_transfers(3);
    let mut device = Device::new();
    // The last transfer is left to be submitted by reading.
    assert_eq!(device.take(r.endpoint_mut()), vec![8, 8]);
    assert!(matches!(r.poll_fill_buf(), Poll::Pending));
    assert_eq!(device.take(r.endpoint_mut()), vec![8]);

    device.reply(r.endpoint_mut(), &[1, 2, 3, 4, 5, 6, 7, 8], Ok(()));
    let mut buf = [0; 5];
    assert_eq!(ready(r.poll_read(&mut buf)), Ok(5));
    assert_eq!(buf, [1, 2, 3, 4, 5]);
    assert_eq!(ready(r.poll_fill_buf()).unwrap(), &[6, 7, 8]);
    r.consume(1);
    assert_eq!(ready(r.poll_fill_buf()).unwrap(), &[7, 8]);
    assert_eq!(ready(r.poll_read(&mut buf)), Ok(2));
    assert_eq!(buf, [7, 8, 3, 4, 5]);
    assert!(matches!(r.poll_read(&mut buf), Poll::Pending));
    assert_eq!(r.into_inner().pending(), 3);
}

#[test]
fn empty_and_short_transfers_are_joined() {
    let mut r = reader(8).with_num_transfers(3);
    let mut device = Device::new();
    assert!(r.start_read());
    device.take(r.endpoint_mut());
    device.reply(r.endpoint_mut(), &[], Ok(()));
    device.reply(r.endpoint_mut(), &[1], Ok(()));
    device.reply(r.endpoint_mut(), &[2], Ok(()));
    r.set_num_transfers(0);
    let mut buf = [0; 4];
    assert_eq!(ready(r.poll_read(&mut buf)), Ok(1));
    assert_eq!(buf[0], 1);
    assert_eq!(ready(r.poll_read(&mut buf)), Ok(1));
    assert_eq!(buf[0], 2);
    // Nothing more is submitted, so this is the end.
    assert_eq!(ready(r.poll_read(&mut buf)), Ok(0));
    assert!(ready(r.poll_fill_buf()).unwrap().is_empty());
    assert!(!r.start_read());
}

#[test]
fn error_comes_after_data() {
    let mut r = reader(8);
    let mut device = Device::new();
    r.start_read();
    device.take(r.endpoint_mut());
    device.reply(r.endpoint_mut(), &[1, 2], Err(TransferError::Stall));
    let mut buf = [0; 4];
    assert_eq!(ready(r.poll_read(&mut buf)), Ok(2));
    assert_eq!(ready(r.poll_read(&mut buf)), Err(IoError::Transfer(TransferError::Stall)));
    assert_eq!(ready(r.fill_buf(false)), Err(IoError::Transfer(TransferError::Stall)));
}

#[test]
fn cancelled_transfers_are_no_error() {
    let mut r = reader(8).with_num_transfers(2);
    let mut device = Device::new();
    r.start_read();
    device.take(r.endpoint_mut());
    r.set_num_transfers(0);
    assert_eq!(r.cancel_all(), vec![1, 0]);
    device.reply(r.endpoint_mut(), &[7], Err(TransferError::Cancelled));
    device.reply(r.endpoint_mut(), &[], Err(TransferError::Cancelled));
    let mut buf = [0; 4];
    assert_eq!(ready(r.poll_read(&mut buf)), Ok(1));
    assert_eq!(ready(r.poll_read(&mut buf)), Ok(0));
}

#[test]
fn reading_times_out_and_goes_on() {
    let mut r = reader(8).with_read_timeout(Duration::from_millis(5));
    assert_eq!(r.read_timeout(), Some(Duration::from_millis(5)));
    let mut device = Device::new();
    assert!(matches!(r.fill_buf(false), Poll::Pending));
    assert_eq!(ready(r.fill_buf(true)), Err(IoError::TimedOut));
    device.take(r.endpoint_mut());
    device.reply(r.endpoint_mut(), &[1], Ok(()));
    assert_eq!(ready(r.fill_buf(true)).unwrap(), &[1]);
    r.set_read_timeout(Duration::from_millis(6));
    assert_eq!(r.read_timeout(), Some(Duration::from_millis(6)));
}

#[test]
fn reading_stops_at_short_packet() {
    let mut r = reader(8).with_num_transfers(3);
    let mut device = Device::new();
    r.start_read();
    device.take(r.endpoint_mut());
    device.reply(r.endpoint_mut(), &[1, 2, 3, 4, 5, 6, 7, 8], Ok(()));
    device.reply(r.endpoint_mut(), &[9], Ok(()));
    device.reply(r.endpoint_mut(), &[10], Ok(()));
    r.set_num_transfers(0);

    let mut message = r.until_short_packet();
    assert!(!message.is_end());
    assert_eq!(message.consume_end(), Err(ExpectedShortPacket));
    assert_eq!(ExpectedShortPacket.message(), "expected short packet");
    let mut buf = [0; 16];
    assert_eq!(ready(message.poll_read(&mut buf)), Ok(8));
    assert!(!message.is_end());
    assert_eq!(ready(message.poll_read(&mut buf)), Ok(1));
    assert_eq!(buf[0], 9);
    assert!(message.is_end());
    assert_eq!(ready(message.poll_read(&mut buf)), Ok(0));
    assert!(ready(message.fill_buf(false)).unwrap().is_empty());
    assert_eq!(message.consume_end(), Ok(()));
    assert!(!message.is_end());
    // An end is consumed once.
    assert_eq!(message.consume_end(), Err(ExpectedShortPacket));

    assert_eq!(ready(message.fill_buf(false)).unwrap(), &[10]);
    message.consume(1);
    assert!(message.is_end());
    assert_eq!(message.consume_end(), Ok(()));
    // The data ends without a short packet.
    assert_eq!(ready(message.fill_buf(false)), Err(IoError::UnexpectedEof));
    assert_eq!(ready(message.poll_read(&mut buf)), Err(IoError::UnexpectedEof));
}

#[test]
fn adapter_has_no_state_of_its_own() {
    let mut r = reader(8).with_num_transfers(2);
    let mut device = Device::new();
    r.start_read();
    device.take(r.endpoint_mut());
    device.reply(r.endpoint_mut(), &[1, 2, 3], Ok(()));
    device.reply(r.endpoint_mut(), &[4], Ok(()));
    assert_eq!(ready(r.until_short_packet().fill_buf(false)).unwrap(), &[1, 2, 3]);
    assert!(!r.until_short_packet().is_end());
    r.until_short_packet().consume(1);
    assert_eq!(ready(r.until_short_packet().poll_read(&mut [0; 8])), Ok(2));
    assert!(r.until_short_packet().is_end());
    assert!(ready(r.until_short_packet().fill_buf(false)).unwrap().is_empty());
    assert_eq!(r.until_short_packet().consume_end(), Ok(()));
    assert!(!r.until_short_packet().is_end());
    assert_eq!(ready(r.until_short_packet().fill_buf(false)).unwrap(), &[4]);
}

#[test]
fn cancelled_reading_ends_after_data() {
    let mut r = reader(8).with_num_transfers(3);
    let mut device = Device::new();
    r.start_read();
    device.take(r.endpoint_mut());
    device.reply(r.endpoint_mut(), &[1, 2], Ok(()));
    assert_eq!(r.cancel_all(), vec![2, 1]);
    device.reply(r.endpoint_mut(), &[3], Err(TransferError::Cancelled));
    device.reply(r.endpoint_mut(), &[], Err(TransferError::Cancelled));
    for expected in [&[1, 2][..], &[3], &[], &[]] {
        assert_eq!(ready(r.fill_buf(false)).unwrap(), expected);
        r.consume(expected.len());
    }
}

#[test]
fn rest_comes_after_partial_consume() {
    let mut r = reader(8);
    let mut device = Device::new();
    r.start_read();
    device.take(r.endpoint_mut());
    device.reply(r.endpoint_mut(), &[1, 2, 3, 4, 5], Ok(()));

    let mut message = r.until_short_packet();
    assert_eq!(ready(message.fill_buf(false)).unwrap(), &[1, 2, 3, 4, 5]);
    message.consume(2);
    assert_eq!(ready(message.fill_buf(false)).unwrap(), &[3, 4, 5]);
    assert!(!message.is_end());
    assert!(device.take(message.reader.endpoint_mut()).is_empty());
    assert_eq!(ready(message.reader.fill_buf(false)).unwrap(), &[3, 4, 5]);
    message.consume(1);
    assert_eq!(ready(message.reader.fill_buf(false)).unwrap(), &[4, 5]);
    message.consume(2);
    assert!(message.is_end());
}

#[test]
fn zero_length_packet_ends_message() {
    let mut r = reader(8).with_num_transfers(2);
    let mut device = Device::new();
    r.start_read();
    device.take(r.endpoint_mut());
    device.reply(r.endpoint_mut(), &[1; 8], Ok(()));
    device.reply(r.endpoint_mut(), &[], Ok(()));
    let mut message = r.until_short_packet();
    let mut buf = [0; 16];
    assert_eq!(ready(message.poll_read(&mut buf)), Ok(8));
    assert_eq!(ready(message.poll_read(&mut buf)), Ok(0));
    assert!(message.is_end());
    assert_eq!(message.consume_end(), Ok(()));
    assert!(matches!(message.fill_buf(false), Poll::Pending));
    assert_eq!(ready(message.fill_buf(true)), Err(IoError::TimedOut));
}

#[test]
fn writing_fills_transfers() {
    let mut w = writer(10).with_num_transfers(2);
    let mut device = Device::new();
    // Two packets of eight bytes each go into a transfer.
    assert_eq!(ready(w.poll_write(&[1; 10])), Ok(10));
    assert_eq!(w.endpoint_mut().pending(), 0);
    assert_eq!(ready(w.poll_write(&[2; 10])), Ok(6));
    assert_eq!(w.endpoint_mut().pending(), 1);
    assert_eq!(ready(w.poll_write(&[3; 16])), Ok(16));
    assert!(matches!(w.poll_write(&[4]), Poll::Pending));
    assert_eq!(ready(w.write(&[4], true)), Err(IoError::TimedOut));

    let (at, buf) = w.endpoint_mut().next_queued().unwrap();
    let mut expected = vec![1; 10];
    expected.extend([2; 6]);
    assert_eq!(buf.as_slice(), expected.as_slice());
    device.requested.push((at, buf.capacity()));
    device.reply(w.endpoint_mut(), &expected, Ok(()));
    assert_eq!(ready(w.write(&[4], false)), Ok(1));
    assert_eq!(w.into_inner().pending(), 1);
}

#[test]
fn data_is_sent_in_chunks_of_transfer_size() {
    let mut w = writer(16).with_num_transfers(4);
    let mut device = Device::new();
    let data: Vec<u8> = (0..40).collect();
    let mut written = 0;
    while written < data.len() {
        let end = data.len().min(written + 5);
        written += ready(w.poll_write(&data[written..end])).unwrap();
    }
    let mut sent = vec![];
    while let Some((at, buf)) = w.endpoint_mut().next_queued() {
        device.requested.push((at, buf.capacity()));
        sent.push(buf.as_slice().to_vec());
    }
    assert_eq!(sent, vec![data[..16].to_vec(), data[16..32].to_vec()]);
    // A buffer that comes back is filled up to the same size.
    device.reply(w.endpoint_mut(), &[], Ok(()));
    device.reply(w.endpoint_mut(), &[], Ok(()));
    w.submit();
    assert_eq!(w.endpoint_mut().next_queued().unwrap().1.as_slice(), &data[32..]);
    assert!(matches!(w.drain(false), Poll::Pending));
    assert_eq!(ready(w.poll_write(&[7; 20])), Ok(16));
    assert_eq!(w.endpoint_mut().next_queued().unwrap().1.as_slice(), &[7; 16]);
}

#[test]
fn flushing_waits_for_transfers() {
    let mut w = writer(8);
    let mut device = Device::new();
    assert!(matches!(w.poll_flush(), Poll::Ready(Ok(()))));
    assert_eq!(ready(w.poll_write(&[1, 2])), Ok(2));
    assert!(matches!(w.poll_flush(), Poll::Pending));
    let (at, buf) = w.endpoint_mut().next_queued().unwrap();
    assert_eq!(buf.as_slice(), &[1, 2]);
    device.requested.push((at, buf.capacity()));
    assert_eq!(ready(w.drain(true)), Err(IoError::TimedOut));
    device.reply(w.endpoint_mut(), &[1, 2], Ok(()));
    assert_eq!(ready(w.poll_flush()), Ok(()));
    assert_eq!(w.endpoint_mut().pending(), 0);
}

#[test]
fn failed_transfer_fails_writing_and_flushing() {
    let mut w = writer(8);
    let mut device = Device::new();
    assert_eq!(ready(w.poll_write(&[1; 8])), Ok(8));
    device.take(w.endpoint_mut());
    device.reply(w.endpoint_mut(), &[1; 8], Err(TransferError::Disconnected));
    assert_eq!(
        ready(w.poll_write(&[2])),
        Err(IoError::Transfer(TransferError::Disconnected))
    );
    assert_eq!(ready(w.poll_write(&[2; 8])), Ok(8));
    device.take(w.endpoint_mut());
    device.reply(w.endpoint_mut(), &[2; 8], Err(TransferError::Stall));
    assert_eq!(ready(w.poll_flush()), Err(IoError::Transfer(TransferError::Stall)));
    assert_eq!(ready(w.poll_flush()), Ok(()));
}

#[test]
fn message_ends_with_short_packet() {
    // Data that is no whole number of packets ends with a short one.
    let mut w = writer(16);
    assert_eq!(ready(w.poll_write(&[1; 9])), Ok(9));
    w.submit_end();
    assert_eq!(w.endpoint_mut().pending(), 1);

    // After a whole number of packets comes a zero-length one.
    let mut w = writer(16);
    assert_eq!(ready(w.poll_write(&[1; 8])), Ok(8));
    w.submit_end();
    assert_eq!(w.endpoint_mut().next_queued().unwrap().1.len(), 8);
    let (_, last) = w.endpoint_mut().next_queued().unwrap();
    assert_eq!((last.len(), last.capacity()), (0, 0));

    // Without data there is only a zero-length one.
    let mut w = writer(16);
    w.submit();
    assert_eq!(w.endpoint_mut().pending(), 0);
    w.submit_end();
    assert_eq!(w.endpoint_mut().pending(), 1);
    assert_eq!(w.endpoint_mut().next_queued().unwrap().1.len(), 0);
}

#[test]
fn flushing_the_end_drains() {
    let mut w = writer(16).with_write_timeout(Duration::from_secs(1));
    assert_eq!(w.write_timeout(), Some(Duration::from_secs(1)));
    let mut device = Device::new();
    assert_eq!(ready(w.poll_write(&[1; 8])), Ok(8));
    assert!(matches!(w.flush_end(), Poll::Pending));
    device.take(w.endpoint_mut());
    device.reply(w.endpoint_mut(), &[1; 8], Ok(()));
    assert!(matches!(w.drain(false), Poll::Pending));
    device.requested[0].0 = 0;
    device.reply(w.endpoint_mut(), &[], Ok(()));
    assert_eq!(ready(w.drain(false)), Ok(()));
    w.set_num_transfers(4);
    w.set_write_timeout(Duration::from_secs(2));
    assert_eq!(w.write_timeout(), Some(Duration::from_secs(2)));
}
