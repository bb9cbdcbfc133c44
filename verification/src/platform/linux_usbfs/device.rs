//! Opening devices and claiming interfaces.

use vstd::prelude::*;

use crate::bitset::EndpointBitSet;
use crate::descriptors::{self, Configuration, DeviceDescriptor};
use crate::endpoint::{Endpoint, EndpointModel, System};
use crate::enumeration::Speed;
use crate::error::{Error, ErrorKind};
use crate::platform::errno::{Errno, ErrnoKind};
use crate::text;
use crate::transfer::{ControlType, Direction, Recipient};

use super::enumeration::Attr;

verus! {

/// The path of the node of a device.
pub open spec fn node_path(busnum: u8, devnum: u8) -> Seq<char> {
    "/dev/bus/usb/"@ + text::zero_padded(text::decimal(busnum as nat), 3) + "/"@
        + text::zero_padded(text::decimal(devnum as nat), 3)
}

/// The path of the node of a device.
pub fn device_node_path(busnum: u8, devnum: u8) -> (r: String)
    ensures
        r@ == node_path(busnum, devnum),
{
    let mut path = String::from_str("/dev/bus/usb/");
    let bus = text::write_padded(busnum as u64, 10, 3);
    path.append(bus.as_str());
    path.append("/");
    let dev = text::write_padded(devnum as u64, 10, 3);
    path.append(dev.as_str());
    path
}

/// The node of a device is in the directory of its bus, and both are named by three decimal digits.
pub proof fn law_node_is_named_by_digits(busnum: u8, devnum: u8)
    ensures
        node_path(busnum, devnum) == "/dev/bus/usb/"@ + seq![
            (48 + busnum / 100) as char,
            (48 + busnum / 10 % 10) as char,
            (48 + busnum % 10) as char,
            '/',
            (48 + devnum / 100) as char,
            (48 + devnum / 10 % 10) as char,
            (48 + devnum % 10) as char,
        ],
{
    text::law_three_digits_read_back(busnum as nat, 255);
    text::law_three_digits_read_back(devnum as nat, 255);
    reveal_strlit("/");
    assert(node_path(busnum, devnum) =~= "/dev/bus/usb/"@ + seq![
        (48 + busnum / 100) as char,
        (48 + busnum / 10 % 10) as char,
        (48 + busnum % 10) as char,
        '/',
        (48 + devnum / 100) as char,
        (48 + devnum / 10 % 10) as char,
        (48 + devnum % 10) as char,
    ]);
}

/// A control request that is made through usbfs and waited for.
#[derive(Clone, Copy, Debug, PartialEq, Eq, Structural)]
pub struct CtrlRequest {
    pub request_type: u8,
    pub request: u8,
    pub value: u16,
    pub index: u16,
    pub length: u16,
    /// in milliseconds
    pub timeout: u32,
}

/// The request that asks a device for its active configuration.
pub fn configuration_request() -> (r: CtrlRequest)
    ensures
        r == (CtrlRequest {
            request_type: 0x80,
            request: 0x08,
            value: 0,
            index: 0,
            length: 1,
            timeout: 50,
        }),
{
    CtrlRequest {
        request_type: crate::transfer::request_type(
            Direction::In,
            ControlType::Standard,
            Recipient::Device,
        ),
        request: 0x08,
        value: 0,
        index: 0,
        length: 1,
        timeout: 50,
    }
}

/// The active configuration that a device has answered: one byte, or nothing.
pub open spec fn answered(reply: Result<usize, Errno>, data: u8) -> Result<u8, ()> {
    match reply {
        Ok(n) => if n == 1 {
            Ok(data)
        } else {
            Err(())
        },
        Err(_) => Err(()),
    }
}

/// The active configuration that a device has answered.
pub fn request_configuration(reply: Result<usize, Errno>, data: u8) -> (r: Result<u8, ()>)
    ensures
        r == answered(reply, data),
{
    match reply {
        Ok(n) => if n == 1 {
            Ok(data)
        } else {
            Err(())
        },
        Err(_) => Err(()),
    }
}

/// The active configuration by the answer of the device, or the first one that it has, or 0 if it
/// has none.
pub open spec fn guessed(answer: Result<u8, ()>, descriptors: Seq<u8>) -> u8 {
    match answer {
        Ok(v) => v,
        Err(_) => {
            let configs = descriptors::config_chain(
                descriptors.skip(descriptors::DESCRIPTOR_LEN_DEVICE as int),
            );
            if configs.len() > 0 {
                configs[0][5]
            } else {
                0
            }
        },
    }
}

/// Take the answer of the device for its active configuration or fall back to a guess.
pub fn guess_active_configuration(answer: Result<u8, ()>, descriptors: &[u8]) -> (r: u8)
    requires
        descriptors@.len() >= descriptors::DESCRIPTOR_LEN_DEVICE,
    ensures
        r == guessed(answer, descriptors@),
{
    match answer {
        Ok(v) => v,
        Err(_) => {
            let rest = vstd::slice::slice_subrange(
                descriptors,
                descriptors::DESCRIPTOR_LEN_DEVICE as usize,
                descriptors.len(),
            );
            assert(rest@ =~= descriptors@.skip(descriptors::DESCRIPTOR_LEN_DEVICE as int));
            let configs = descriptors::parse_concatenated_config_descriptors(rest);
            let ghost all = descriptors::config_chain(rest@);
            if configs.len() > 0 {
                proof {
                    descriptors::law_configs_are_whole(rest@, 0);
                    assert(all[0] == configs@[0]@);
                }
                Configuration::new(configs[0]).configuration_value()
            } else {
                0
            }
        },
    }
}

/// Where the active configuration of a device is known from.
#[derive(Debug)]
pub enum ConfigurationSource {
    /// The attribute `bConfigurationValue` in sysfs
    Sysfs(Attr),
    /// The answer of the device
    Device(Result<u8, ()>),
}

/// The configuration that the attribute in sysfs says. The attribute is empty when the device is
/// unconfigured, and anything that is no number is taken for that; there is nothing if it could not
/// be read.
pub open spec fn sysfs_configuration(attr: Attr) -> Option<u8> {
    match attr {
        Ok(content) => match super::enumeration::decimal_content(content@, 255) {
            Some(v) => Some(v as u8),
            None => Some(0),
        },
        Err(_) => None,
    }
}

fn read_sysfs_configuration(attr: &Attr) -> (r: Option<u8>)
    ensures
        r == sysfs_configuration(*attr),
{
    match attr {
        Ok(content) => {
            let chars = text::chars_of(content.as_str());
            match text::parse_unsigned(text::trim(chars.as_slice()), 10, 255) {
                Some(v) => Some(v as u8),
                None => Some(0),
            }
        },
        Err(_) => None,
    }
}

/// The active configuration is what the attribute in sysfs says, and 0 if that is no number. Where the
/// device was asked, it is its answer; without one it is the value in the first configuration that
/// follows the device descriptor, and 0 if none does.
pub proof fn law_active_configuration_is_found(
    attr: Attr,
    reply: Result<usize, Errno>,
    data: u8,
    descriptors: Seq<u8>,
)
    requires
        descriptors.len() >= 18,
    ensures
        attr is Err ==> sysfs_configuration(attr) is None,
        attr matches Ok(c) ==> match text::unsigned_value(text::trimmed(c@), 10, 255) {
            Some(v) => sysfs_configuration(attr) == Some(v as u8),
            None => sysfs_configuration(attr) == Some(0u8),
        },
        reply == Ok::<usize, Errno>(1) ==> guessed(answered(reply, data), descriptors) == data,
        reply != Ok::<usize, Errno>(1) ==> {
            let s = descriptors.skip(18);
            guessed(answered(reply, data), descriptors) == if s.len() >= 9 && s[0] >= 9 && s[1] == 2
                && s[0] <= s[2] + 256 * s[3] <= s.len() {
                descriptors[23]
            } else {
                0
            }
        },
{
    let s = descriptors.skip(18);
    descriptors::law_configs_go_by_total_length(s);
    if s.len() >= 9 && s[0] >= 9 && s[1] == 2 && s[0] <= s[2] + 256 * s[3] <= s.len() {
        assert(descriptors::config_chain(s)[0] == s.take(s[2] + 256 * s[3]));
        assert(s.take(s[2] + 256 * s[3])[5] == descriptors[23]);
    }
}

/// What an open device is known to be.
#[derive(Debug)]
pub struct OpenDevice {
    /// The device descriptor followed by the configuration descriptors
    pub descriptors: Vec<u8>,
    pub active_config: u8,
}

/// The active configuration of a device that is being opened, where it can be had.
pub open spec fn initial_configuration(
    source: ConfigurationSource,
    descriptors: Seq<u8>,
) -> Option<u8> {
    match source {
        ConfigurationSource::Sysfs(attr) => sysfs_configuration(attr),
        ConfigurationSource::Device(answer) => Some(guessed(answer, descriptors)),
    }
}

/// The configuration of a device that is being opened is what the attribute in sysfs says, if that could
/// be read, or what the device has answered.
pub proof fn law_configuration_has_its_source(
    attr: Attr,
    answer: Result<u8, ()>,
    descriptors: Seq<u8>,
)
    ensures
        initial_configuration(ConfigurationSource::Sysfs(attr), descriptors)
            == sysfs_configuration(attr),
        initial_configuration(ConfigurationSource::Device(answer), descriptors) == Some(
            guessed(answer, descriptors),
        ),
        answer matches Ok(v) ==> guessed(answer, descriptors) == v,
{
}

/// What opening a device comes to, once its descriptors were read, its active configuration was
/// asked for, and a timer was made for its timeouts.
pub fn create_inner(
    descriptors: Result<Vec<u8>, Option<u32>>,
    source: &ConfigurationSource,
    timer: Result<(), Errno>,
) -> (r: Result<OpenDevice, Error>)
    ensures
        match descriptors {
            Err(code) => r matches Err(e) && e.is(
                ErrorKind::Other,
                crate::error::io_code(code),
                "failed to read descriptors"@,
            ),
            Ok(bytes) => if !descriptors::starts_with_device(bytes@) {
                r matches Err(e) && e.is(ErrorKind::Other, None, "invalid device descriptor"@)
            } else {
                match initial_configuration(*source, bytes@) {
                    None => r matches Err(e) && e.is(
                        ErrorKind::Other,
                        None,
                        "failed to read sysfs bConfigurationValue"@,
                    ),
                    Some(config) => match timer {
                        Err(errno) => r matches Err(e) && e.is(
                            ErrorKind::Other,
                            crate::error::os_code(errno.code),
                            "failed to create timerfd"@,
                        ),
                        Ok(_) => r matches Ok(d) && d.descriptors == bytes && d.active_config
                            == config,
                    },
                }
            },
        },
{
    let descriptors = match descriptors {
        Ok(descriptors) => descriptors,
        Err(code) => return Err(
            Error::new_io(ErrorKind::Other, "failed to read descriptors", code),
        ),
    };
    if DeviceDescriptor::new(descriptors.as_slice()).is_none() {
        return Err(Error::new(ErrorKind::Other, "invalid device descriptor"));
    }
    let active_config: u8 = match source {
        ConfigurationSource::Sysfs(attr) => match read_sysfs_configuration(attr) {
            Some(v) => v,
            None => return Err(
                Error::new(ErrorKind::Other, "failed to read sysfs bConfigurationValue"),
            ),
        },
        ConfigurationSource::Device(answer) => guess_active_configuration(
            *answer,
            descriptors.as_slice(),
        ),
    };
    match timer {
        Ok(_) => Ok(OpenDevice { descriptors, active_config }),
        Err(e) => Err(Error::new_os(ErrorKind::Other, "failed to create timerfd", e.code)),
    }
}

impl OpenDevice {
    /// Get the active configuration, from the attribute in sysfs if there is one and it could be
    /// read, else the one that was last known.
    pub fn active_configuration_value(&mut self, sysfs: &Option<Attr>) -> (r: u8)
        ensures
            r == match *sysfs {
                Some(attr) => match sysfs_configuration(attr) {
                    Some(v) => v,
                    None => old(self).active_config,
                },
                None => old(self).active_config,
            },
            final(self).active_config == r,
            final(self).descriptors == old(self).descriptors,
    {
        if let Some(attr) = sysfs {
            if let Some(v) = read_sysfs_configuration(attr) {
                self.active_config = v;
            }
        }
        self.active_config
    }

    /// What setting a configuration comes to.
    pub fn set_configuration(&mut self, configuration: u8, result: Result<(), Errno>) -> (r: Result<
        (),
        Error,
    >)
        ensures
            final(self).descriptors == old(self).descriptors,
            match result {
                Ok(_) => r is Ok && final(self).active_config == configuration,
                Err(errno) => r matches Err(e) && final(self).active_config == old(
                    self).active_config && match errno.kind {
                    ErrnoKind::Inval => e.is(
                        ErrorKind::NotFound,
                        crate::error::os_code(errno.code),
                        "configuration not found"@,
                    ),
                    ErrnoKind::Busy => e.is(
                        ErrorKind::Busy,
                        crate::error::os_code(errno.code),
                        "device is busy"@,
                    ),
                    ErrnoKind::NoDev => e.is(
                        ErrorKind::Disconnected,
                        crate::error::os_code(errno.code),
                        "device disconnected"@,
                    ),
                    _ => e.is(
                        ErrorKind::Other,
                        crate::error::os_code(errno.code),
                        "failed to set configuration"@,
                    ),
                },
            },
    {
        match result {
            Ok(_) => {
                self.active_config = configuration;
                Ok(())
            },
            Err(e) => Err(
                match e.kind {
                    ErrnoKind::Inval => Error::new_os(
                        ErrorKind::NotFound,
                        "configuration not found",
                        e.code,
                    ),
                    ErrnoKind::Busy => Error::new_os(ErrorKind::Busy, "device is busy", e.code),
                    ErrnoKind::NoDev => Error::new_os(
                        ErrorKind::Disconnected,
                        "device disconnected",
                        e.code,
                    ),
                    _ => Error::new_os(ErrorKind::Other, "failed to set configuration", e.code),
                },
            ),
        }
    }
}

/// The error for a device that could not be reset.
pub fn reset_error(e: Errno) -> (r: Error)
    ensures
        match e.kind {
            ErrnoKind::Busy => r.is(ErrorKind::Busy, crate::error::os_code(e.code), "device is busy"@),
            ErrnoKind::NoDev => r.is(
                ErrorKind::Disconnected,
                crate::error::os_code(e.code),
                "device disconnected"@,
            ),
            _ => r.is(ErrorKind::Other, crate::error::os_code(e.code), "failed to reset device"@),
        },
{
    match e.kind {
        ErrnoKind::Busy => Error::new_os(ErrorKind::Busy, "device is busy", e.code),
        ErrnoKind::NoDev => Error::new_os(ErrorKind::Disconnected, "device disconnected", e.code),
        _ => Error::new_os(ErrorKind::Other, "failed to reset device", e.code),
    }
}

/// The error for a kernel driver that could not be detached.
pub fn detach_error(e: Errno) -> (r: Error)
    ensures
        match e.kind {
            ErrnoKind::Inval => r.is(ErrorKind::NotFound, crate::error::os_code(e.code), "interface not found"@),
            ErrnoKind::NoDev => r.is(
                ErrorKind::Disconnected,
                crate::error::os_code(e.code),
                "device disconnected"@,
            ),
            ErrnoKind::NoData => r.is(
                ErrorKind::Other,
                crate::error::os_code(e.code),
                "no kernel driver attached"@,
            ),
            _ => r.is(ErrorKind::Other, crate::error::os_code(e.code), "failed to detach kernel driver"@),
        },
{
    match e.kind {
        ErrnoKind::Inval => Error::new_os(ErrorKind::NotFound, "interface not found", e.code),
        ErrnoKind::NoDev => Error::new_os(ErrorKind::Disconnected, "device disconnected", e.code),
        ErrnoKind::NoData => Error::new_os(ErrorKind::Other, "no kernel driver attached", e.code),
        _ => Error::new_os(ErrorKind::Other, "failed to detach kernel driver", e.code),
    }
}

/// The error for a kernel driver that could not be attached.
pub fn attach_error(e: Errno) -> (r: Error)
    ensures
        match e.kind {
            ErrnoKind::Inval => r.is(ErrorKind::NotFound, crate::error::os_code(e.code), "interface not found"@),
            ErrnoKind::NoDev => r.is(
                ErrorKind::Disconnected,
                crate::error::os_code(e.code),
                "device disconnected"@,
            ),
            ErrnoKind::Busy => r.is(
                ErrorKind::Busy,
                crate::error::os_code(e.code),
                "kernel driver already attached"@,
            ),
            _ => r.is(ErrorKind::Other, crate::error::os_code(e.code), "failed to attach kernel driver"@),
        },
{
    match e.kind {
        ErrnoKind::Inval => Error::new_os(ErrorKind::NotFound, "interface not found", e.code),
        ErrnoKind::NoDev => Error::new_os(ErrorKind::Disconnected, "device disconnected", e.code),
        ErrnoKind::Busy => Error::new_os(
            ErrorKind::Busy,
            "kernel driver already attached",
            e.code,
        ),
        _ => Error::new_os(ErrorKind::Other, "failed to attach kernel driver", e.code),
    }
}

/// The error for an endpoint whose halt could not be cleared.
pub fn clear_halt_error(e: Errno) -> (r: Error)
    ensures
        match e.kind {
            ErrnoKind::NoDev => r.is(
                ErrorKind::Disconnected,
                crate::error::os_code(e.code),
                "device disconnected"@,
            ),
            _ => r.is(ErrorKind::Other, crate::error::os_code(e.code), "failed to clear halt"@),
        },
{
    match e.kind {
        ErrnoKind::NoDev => Error::new_os(ErrorKind::Disconnected, "device disconnected", e.code),
        _ => Error::new_os(ErrorKind::Other, "failed to clear halt", e.code),
    }
}

/// The speed that the kernel gives a number for. 4 is wireless USB, which is not supported.
pub open spec fn speed_of(raw: usize) -> Option<Speed> {
    if raw == 1 {
        Some(Speed::Low)
    } else if raw == 2 {
        Some(Speed::Full)
    } else if raw == 3 {
        Some(Speed::High)
    } else if raw == 5 {
        Some(Speed::Super)
    } else if raw == 6 {
        Some(Speed::SuperPlus)
    } else {
        None
    }
}

/// The speeds have the numbers that the kernel has for them.
pub proof fn law_speeds_have_numbers(raw: usize)
    ensures
        speed_of(raw) == Some(Speed::Low) <==> raw == 1,
        speed_of(raw) == Some(Speed::Full) <==> raw == 2,
        speed_of(raw) == Some(Speed::High) <==> raw == 3,
        speed_of(raw) == Some(Speed::Super) <==> raw == 5,
        speed_of(raw) == Some(Speed::SuperPlus) <==> raw == 6,
{
}

/// The speed of a device, if the kernel could say it.
pub fn speed(raw: Result<usize, Errno>) -> (r: Option<Speed>)
    ensures
        r == match raw {
            Ok(raw) => speed_of(raw),
            Err(_) => None,
        },
{
    match raw {
        Ok(raw) => match raw {
            1 => Some(Speed::Low),
            2 => Some(Speed::Full),
            3 => Some(Speed::High),
            5 => Some(Speed::Super),
            6 => Some(Speed::SuperPlus),
            _ => None,
        },
        Err(_) => None,
    }
}

/// A claimed interface: which of its endpoints are in use, its alternate setting, and whether the
/// kernel driver is to be attached again when it is released.
#[derive(Debug)]
pub struct InterfaceState {
    pub interface_number: u8,
    pub reattach: bool,
    pub endpoints: EndpointBitSet,
    pub alt_setting: u8,
}

/// What claiming an interface comes to.
pub fn handle_claim_interface_result(
    interface_number: u8,
    result: Result<(), Errno>,
    reattach: bool,
) -> (r: Result<InterfaceState, Error>)
    ensures
        match result {
            Ok(_) => r matches Ok(i) && i.interface_number == interface_number && i.reattach
                == reattach && i.endpoints@ == Set::<u8>::empty() && i.alt_setting == 0,
            Err(errno) => r matches Err(e) && match errno.kind {
                ErrnoKind::Inval => e.is(
                    ErrorKind::NotFound,
                    crate::error::os_code(errno.code),
                    "interface not found"@,
                ),
                ErrnoKind::Busy => e.is(ErrorKind::Busy, crate::error::os_code(errno.code), "interface is busy"@),
                ErrnoKind::NoDev => e.is(
                    ErrorKind::Disconnected,
                    crate::error::os_code(errno.code),
                    "device disconnected"@,
                ),
                _ => e.is(ErrorKind::Other, crate::error::os_code(errno.code), "failed to claim interface"@),
            },
        },
{
    match result {
        Ok(_) => Ok(
            InterfaceState {
                interface_number,
                reattach,
                endpoints: EndpointBitSet::default(),
                alt_setting: 0,
            },
        ),
        Err(e) => Err(
            match e.kind {
                ErrnoKind::Inval => Error::new_os(
                    ErrorKind::NotFound,
                    "interface not found",
                    e.code,
                ),
                ErrnoKind::Busy => Error::new_os(ErrorKind::Busy, "interface is busy", e.code),
                ErrnoKind::NoDev => Error::new_os(
                    ErrorKind::Disconnected,
                    "device disconnected",
                    e.code,
                ),
                _ => Error::new_os(ErrorKind::Other, "failed to claim interface", e.code),
            },
        ),
    }
}

impl InterfaceState {
    /// Get the alternate setting.
    pub fn get_alt_setting(&self) -> (r: u8)
        ensures
            r == self.alt_setting,
    {
        self.alt_setting
    }

    /// Whether the alternate setting may be changed: not while endpoints are in use.
    pub fn check_alt_setting(&self) -> (r: Result<(), Error>)
        ensures
            r is Ok <==> self.endpoints@ == Set::<u8>::empty(),
            r matches Err(e) ==> e.is(
                ErrorKind::Busy,
                None,
                "can't change alternate setting while endpoints are in use"@,
            ),
    {
        if !self.endpoints.is_empty() {
            return Err(
                Error::new(
                    ErrorKind::Busy,
                    "can't change alternate setting while endpoints are in use",
                ),
            );
        }
        Ok(())
    }

    /// What changing the alternate setting comes to.
    pub fn set_alt_setting(&mut self, alt_setting: u8, result: Result<(), Errno>) -> (r: Result<
        (),
        Error,
    >)
        requires
            old(self).endpoints@ == Set::<u8>::empty(),
        ensures
            final(self).endpoints == old(self).endpoints,
            final(self).interface_number == old(self).interface_number,
            final(self).reattach == old(self).reattach,
            match result {
                Ok(_) => r is Ok && final(self).alt_setting == alt_setting,
                Err(errno) => r matches Err(e) && final(self).alt_setting == old(self).alt_setting
                    && match errno.kind {
                    ErrnoKind::Inval => e.is(
                        ErrorKind::NotFound,
                        crate::error::os_code(errno.code),
                        "alternate setting not found"@,
                    ),
                    ErrnoKind::NoDev => e.is(
                        ErrorKind::Disconnected,
                        crate::error::os_code(errno.code),
                        "device disconnected"@,
                    ),
                    _ => e.is(
                        ErrorKind::Other,
                        crate::error::os_code(errno.code),
                        "failed to set alternate setting"@,
                    ),
                },
            },
    {
        match result {
            Ok(_) => {
                self.alt_setting = alt_setting;
                Ok(())
            },
            Err(e) => Err(
                match e.kind {
                    ErrnoKind::Inval => Error::new_os(
                        ErrorKind::NotFound,
                        "alternate setting not found",
                        e.code,
                    ),
                    ErrnoKind::NoDev => Error::new_os(
                        ErrorKind::Disconnected,
                        "device disconnected",
                        e.code,
                    ),
                    _ => Error::new_os(
                        ErrorKind::Other,
                        "failed to set alternate setting",
                        e.code,
                    ),
                },
            ),
        }
    }

    /// Use an endpoint of the interface. It can be used only once at a time.
    pub fn endpoint(&mut self, descriptor: descriptors::Endpoint<'_>) -> (r: Result<Endpoint, Error>)
        ensures
            final(self).interface_number == old(self).interface_number,
            final(self).reattach == old(self).reattach,
            final(self).alt_setting == old(self).alt_setting,
            ({
                let address = crate::bitset::canonical(descriptor@[2]);
                if old(self).endpoints@.contains(address) {
                    r matches Err(e) && e.is(ErrorKind::Busy, None, "endpoint already in use"@)
                        && final(self).endpoints == old(self).endpoints
                } else {
                    r matches Ok(endpoint) && endpoint@ == (EndpointModel {
                        system: System::Usbfs,
                        address: descriptor@[2],
                        max_packet_size: (descriptors::le16(descriptor@[4], descriptor@[5])
                            % 2048) as nat,
                        queue: seq![],
                    }) && final(self).endpoints@ == old(self).endpoints@.insert(address)
                }
            }),
    {
        let address: u8 = descriptor.address();
        let max_packet_size: usize = descriptor.max_packet_size();
        if self.endpoints.is_set(address) {
            return Err(Error::new(ErrorKind::Busy, "endpoint already in use"));
        }
        self.endpoints.set(address);
        Ok(Endpoint::new(System::Usbfs, address, max_packet_size))
    }

    /// An endpoint is no longer in use.
    pub fn release_endpoint(&mut self, address: u8)
        ensures
            final(self).endpoints@ == old(self).endpoints@.remove(crate::bitset::canonical(address)),
            final(self).interface_number == old(self).interface_number,
            final(self).reattach == old(self).reattach,
            final(self).alt_setting == old(self).alt_setting,
    {
        self.endpoints.clear(address);
    }

    /// Whether the kernel driver is to be attached again, once the interface was released or not.
    pub fn reattaches(&self, released: bool) -> (r: bool)
        ensures
            r == (released && self.reattach),
    {
        released && self.reattach
    }
}

} // verus!
