//! What is particular to each platform.

pub mod errno;
pub mod illumos_ugen;
pub mod linux_usbfs;
pub mod macos_iokit;
pub mod slots;
pub mod webusb;
