[package]
name = "nusb"
version = "0.2.0"
edition = "2021"
publish = false

[dependencies]
atomic-waker = "=1.1.2"
core-foundation = "=0.10.1"
core-foundation-sys = "=0.8.7"
devinfo = "=0.1.0"
futures-core = "=0.3.34"
futures-io = "=0.3.34"
io-kit-sys = "=0.5.0"
jni = "0.22"
jni-min-helper = "=0.4.7"
libc = "=0.2.191"
log = "=0.4.35"
once_cell = "=1.21.4"
rustix = { version = "=1.1.6", features = ["event", "fs", "mm", "net", "param", "time"] }
slab = "=0.4.12"
tokio = { version = "=1.54.1", features = ["rt"] }
wasm-bindgen-futures = "=0.4.80"
web-sys = { version = "=0.3.107", features = ["Event", "EventTarget", "Navigator", "Usb", "UsbAlternateInterface", "UsbConfiguration", "UsbConnectionEvent", "UsbControlTransferParameters", "UsbDevice", "UsbDeviceFilter", "UsbDeviceRequestOptions", "UsbDirection", "UsbEndpoint", "UsbInTransferResult", "UsbInterface", "UsbOutTransferResult", "UsbRecipient", "UsbRequestType", "UsbTransferStatus", "Window", "WorkerGlobalScope", "WorkerNavigator"] }
