# nusb

Access to USB devices, with its logic verified by Verus.

- `src/` is the library: descriptors, what is known of devices and buses, the queue of an endpoint,
  buffered reading and writing, and for each operating system the rules by which devices are found,
  opened, used and watched. It makes no system calls. What reading a file, an `ioctl` or a callback
  came to is handed in as plain values, and what is to be done next is handed out.
- `app/` makes those calls: sysfs, usbfs and netlink on Linux, the Android SDK, `ugen` on illumos,
  IOKit on macOS and WebUSB in browsers.
- `tests/` runs the library on concrete values.

Contracts are stated over models: each type has a view, and spec functions say what bytes, texts and
properties stand for. Proof functions whose names begin with `law_` state what holds of several
functions together, such as that no byte of a stream is lost between the transfers, or that a buffer
comes back from a transfer as it went in.

The few things that are taken on trust are in `platform/slots.rs` (the `slab` crate),
`platform/errno.rs` (the error numbers of `rustix`), and, for the standard library, in `text.rs` and
`platform/linux_usbfs/hotplug.rs`.
