//! Opening devices and claiming interfaces.

use vstd::prelude::*;

use crate::enumeration::Speed;
use crate::error::{Error, ErrorKind};
use crate::transfer::{Control, Direction, EndpointType, TransferError};

use super::iokit::{self, check_iokit_return};
use super::iokit_usb::{self, EndpointInfo};
use super::{status_to_transfer_result, IoReturn, IoReturnKind};

verus! {

/// The active configuration, if it can be told without asking the device: it has a single one,
/// and has an interface, which shows that it is configured.
pub open spec fn guessed_config(
    num_configs: Result<u8, Error>,
    has_interface: bool,
    config_desc: Option<Seq<u8>>,
) -> Option<u8> {
    if num_configs == Ok::<u8, Error>(1) && has_interface {
        match config_desc {
            Some(desc) if desc.len() > 5 => Some(desc[5]),
            _ => None,
        }
    } else {
        None
    }
}

/// The active configuration is told only of a device that has one configuration and an interface, and is
/// then the value in that configuration.
pub proof fn law_single_configuration_is_told(
    num_configs: Result<u8, Error>,
    has_interface: bool,
    config_desc: Option<Seq<u8>>,
)
    ensures
        guessed_config(num_configs, has_interface, config_desc) is Some <==> num_configs is Ok
            && num_configs->Ok_0 == 1 && has_interface && config_desc is Some
            && config_desc->0.len() >= 6,
        guessed_config(num_configs, has_interface, config_desc) matches Some(v) ==> v
            == config_desc->0[5],
{
}

/// Tell the active configuration without asking the device, where that is possible.
pub fn guess_active_config(
    num_configs: Result<u8, Error>,
    has_interface: bool,
    config_desc: Option<&[u8]>,
) -> (r: Option<u8>)
    ensures
        r == guessed_config(
            num_configs,
            has_interface,
            match config_desc {
                Some(desc) => Some(desc@),
                None => None,
            },
        ),
        r is Some <==> num_configs is Ok && num_configs->Ok_0 == 1 && has_interface
            && config_desc is Some && config_desc->0@.len() >= 6,
        r matches Some(v) ==> v == config_desc->0@[5],
{
    let num: u8 = match num_configs {
        Ok(num) => num,
        Err(_) => 0,
    };
    if num != 1 || !has_interface {
        return None;
    }
    match config_desc {
        Some(desc) => if desc.len() > 5 {
            Some(desc[5])
        } else {
            None
        },
        None => None,
    }
}

/// A control request with a timeout.
#[derive(Debug, Clone, Copy, PartialEq, Eq, Structural)]
pub struct DevRequest {
    pub request_type: u8,
    pub request: u8,
    pub value: u16,
    pub index: u16,
    pub length: u16,
    /// In milliseconds
    pub no_data_timeout: u32,
    /// In milliseconds
    pub completion_timeout: u32,
}

/// A control request. A timeout that is too long is the longest that there is.
pub open spec fn dev_request(
    direction: Direction,
    control: Control,
    len: nat,
    timeout_millis: u128,
) -> DevRequest {
    let timeout = if timeout_millis < u32::MAX {
        timeout_millis as u32
    } else {
        u32::MAX
    };
    DevRequest {
        request_type: crate::transfer::request_type_of(
            direction,
            control.control_type,
            control.recipient,
        ),
        request: control.request,
        value: control.value,
        index: control.index,
        length: len as u16,
        no_data_timeout: timeout,
        completion_timeout: timeout,
    }
}

/// A control request has the fields that were given, and the timeout for both of its phases, cut to the
/// longest that there is.
pub proof fn law_request_has_its_fields(
    direction: Direction,
    control: Control,
    len: nat,
    timeout_millis: u128,
)
    requires
        len <= 0xffff,
    ensures
        ({
            let r = dev_request(direction, control, len, timeout_millis);
            &&& r.request_type == crate::transfer::request_type_of(
                direction,
                control.control_type,
                control.recipient,
            )
            &&& r.request == control.request && r.value == control.value && r.index == control.index
            &&& r.length == len
            &&& r.completion_timeout == r.no_data_timeout
            &&& timeout_millis <= 0xffff_ffff ==> r.completion_timeout == timeout_millis
            &&& timeout_millis > 0xffff_ffff ==> r.completion_timeout == 0xffff_ffff
        }),
{
}

/// The control request that sends or receives a number of bytes.
pub fn control_blocking(
    direction: Direction,
    control: Control,
    len: usize,
    timeout_millis: u128,
) -> (r: DevRequest)
    requires
        len <= 0xffff,
    ensures
        r == dev_request(direction, control, len as nat, timeout_millis),
{
    let timeout: u32 = if timeout_millis < u32::MAX as u128 {
        timeout_millis as u32
    } else {
        u32::MAX
    };
    DevRequest {
        request_type: control.request_type(direction),
        request: control.request,
        value: control.value,
        index: control.index,
        length: len as u16,
        no_data_timeout: timeout,
        completion_timeout: timeout,
    }
}

/// What a control request came to: how many bytes were transferred.
pub fn control_result(status: IoReturn, len_done: u32) -> (r: Result<usize, TransferError>)
    ensures
        r == match super::transfer_result_of(status) {
            Ok(_) => Ok::<usize, TransferError>(len_done as usize),
            Err(e) => Err(e),
        },
{
    match status_to_transfer_result(status) {
        Ok(_) => Ok(len_done as usize),
        Err(e) => Err(e),
    }
}

/// An open device.
#[derive(Debug)]
pub struct MacDevice {
    pub speed: Option<Speed>,
    pub active_config: u8,
    /// Whether this process has the device for itself
    pub is_open_exclusive: bool,
    pub claimed_interfaces: usize,
}

/// How an operation that captures the device is to be done.
#[derive(Debug, Clone, Copy, PartialEq, Eq, Structural)]
pub enum Capture {
    /// Ask for authorization, and open the device again for it to take effect.
    Authorize,
    /// Use the device as it is open.
    Direct,
}

impl MacDevice {
    /// Open a device, once it was opened for exclusive access or not, its descriptor was read, its
    /// active configuration was told or not, and it was asked for it if not.
    pub fn from_device_info(
        speed: Option<Speed>,
        opened: IoReturn,
        has_descriptor: bool,
        guessed: Option<u8>,
        asked: Result<u8, Error>,
    ) -> (r: Result<MacDevice, Error>)
        ensures
            if has_descriptor {
                r matches Ok(d) && d.speed == speed && d.is_open_exclusive == (opened.kind
                    == IoReturnKind::Success) && d.claimed_interfaces == 0 && d.active_config
                    == match guessed {
                    Some(config) => config,
                    None => match asked {
                        Ok(config) => config,
                        Err(_) => 0,
                    },
                }
            } else {
                r matches Err(e) && e.is(
                    ErrorKind::Other,
                    None,
                    "could not read properties for device descriptor"@,
                )
            },
    {
        // Most methods don't require exclusive access, so different processes can open different
        // interfaces.
        let is_open_exclusive: bool = match opened.kind {
            IoReturnKind::Success => true,
            _ => false,
        };
        if !has_descriptor {
            return Err(
                Error::new(
                    ErrorKind::Other,
                    "could not read properties for device descriptor",
                ),
            );
        }
        let active_config: u8 = match guessed {
            Some(config) => config,
            None => match asked {
                Ok(config) => config,
                Err(_) => 0,
            },
        };
        Ok(MacDevice { speed, active_config, is_open_exclusive, claimed_interfaces: 0 })
    }

    /// The speed of the device.
    pub fn speed(&self) -> (r: Option<Speed>)
        ensures
            r == self.speed,
    {
        self.speed
    }

    /// The active configuration.
    pub fn active_configuration_value(&self) -> (r: u8)
        ensures
            r == self.active_config,
    {
        self.active_config
    }

    /// Make sure that the device is open for exclusive access and no interfaces are claimed. If it
    /// is not open yet, `open` is what opening it came to.
    pub fn require_open_exclusive(&mut self, open: IoReturn) -> (r: Result<(), Error>)
        ensures
            final(self).speed == old(self).speed,
            final(self).active_config == old(self).active_config,
            final(self).claimed_interfaces == old(self).claimed_interfaces,
            final(self).is_open_exclusive == (old(self).is_open_exclusive || open.kind
                == IoReturnKind::Success),
            if !final(self).is_open_exclusive {
                r matches Err(e) && iokit::is_iokit_error(e, open)
            } else if old(self).claimed_interfaces != 0 {
                r matches Err(e) && e.is(
                    ErrorKind::Other,
                    None,
                    "cannot perform this operation while interfaces are claimed"@,
                )
            } else {
                r is Ok
            },
    {
        if !self.is_open_exclusive {
            match check_iokit_return(open) {
                Ok(_) => {},
                Err(e) => return Err(e),
            }
            self.is_open_exclusive = true;
        }
        if self.claimed_interfaces != 0 {
            return Err(
                Error::new(
                    ErrorKind::Other,
                    "cannot perform this operation while interfaces are claimed",
                ),
            );
        }
        Ok(())
    }

    /// What setting a configuration came to.
    pub fn set_configuration(&mut self, configuration: u8, result: IoReturn) -> (r: Result<
        (),
        Error,
    >)
        ensures
            final(self).speed == old(self).speed,
            final(self).is_open_exclusive == old(self).is_open_exclusive,
            final(self).claimed_interfaces == old(self).claimed_interfaces,
            if result.kind == IoReturnKind::Success {
                r is Ok && final(self).active_config == configuration
            } else {
                r matches Err(e) && iokit::is_iokit_error(e, result) && final(self).active_config
                    == old(self).active_config
            },
    {
        match check_iokit_return(result) {
            Ok(_) => {
                self.active_config = configuration;
                Ok(())
            },
            Err(e) => Err(e),
        }
    }

    /// The control request that receives a number of bytes.
    pub fn control_in_blocking(&self, control: Control, len: usize, timeout_millis: u128) -> (r:
        DevRequest)
        requires
            len <= 0xffff,
        ensures
            r == dev_request(Direction::In, control, len as nat, timeout_millis),
    {
        control_blocking(Direction::In, control, len, timeout_millis)
    }

    /// The control request that sends data.
    pub fn control_out_blocking(&self, control: Control, data: &[u8], timeout_millis: u128) -> (r:
        DevRequest)
        requires
            data@.len() <= 0xffff,
        ensures
            r == dev_request(Direction::Out, control, data@.len(), timeout_millis),
    {
        control_blocking(Direction::Out, control, data.len(), timeout_millis)
    }

    /// How the device can be captured, by whether this program has the entitlement for it, and
    /// whether it is run by root.
    pub fn with_capture_authorization(entitled: bool, is_root: bool) -> (r: Result<Capture, Error>)
        ensures
            if entitled {
                r == Ok::<Capture, Error>(Capture::Authorize)
            } else if is_root {
                r == Ok::<Capture, Error>(Capture::Direct)
            } else {
                r matches Err(e) && e.is(
                    ErrorKind::PermissionDenied,
                    None,
                    "Operation not permitted (requires root or com.apple.vm.device-access entitlement)"@,
                )
            },
    {
        if entitled {
            return Ok(Capture::Authorize);
        }
        if !is_root {
            return Err(
                Error::new(
                    ErrorKind::PermissionDenied,
                    "Operation not permitted (requires root or com.apple.vm.device-access entitlement)",
                ),
            );
        }
        Ok(Capture::Direct)
    }

    /// Which of the interfaces of a device, whose numbers are given as far as they are known, is
    /// the one to claim: the first that has the number.
    pub fn find_interface(numbers: &[Option<i64>], interface_number: u8) -> (r: Result<
        usize,
        Error,
    >)
        ensures
            match r {
                Ok(i) => i < numbers@.len() && numbers@[i as int] == Some(interface_number as i64)
                    && forall|k: int| 0 <= k < i ==> numbers@[k] != Some(interface_number as i64),
                Err(e) => e.is(ErrorKind::NotFound, None, "interface not found"@)
                    && !numbers@.contains(Some(interface_number as i64)),
            },
    {
        let mut i: usize = 0;
        while i < numbers.len()
            invariant
                i <= numbers@.len(),
                forall|k: int| 0 <= k < i ==> numbers@[k] != Some(interface_number as i64),
            decreases numbers@.len() - i,
        {
            if let Some(number) = numbers[i] {
                if number == interface_number as i64 {
                    return Ok(i);
                }
            }
            i = i + 1;
        }
        Err(Error::new(ErrorKind::NotFound, "interface not found"))
    }

    /// Claim an interface, once it was opened and its endpoints were listed.
    pub fn claim_interface(
        &mut self,
        interface_number: u8,
        opened: IoReturn,
        endpoints: Result<Vec<EndpointInfo>, IoReturn>,
    ) -> (r: Result<MacInterface, Error>)
        requires
            endpoints matches Err(e) ==> e.kind != IoReturnKind::Success,
            old(self).claimed_interfaces < usize::MAX,
        ensures
            final(self).speed == old(self).speed,
            final(self).active_config == old(self).active_config,
            final(self).is_open_exclusive == old(self).is_open_exclusive,
            final(self).claimed_interfaces == old(self).claimed_interfaces + if r is Ok {
                1int
            } else {
                0
            },
            if opened.kind != IoReturnKind::Success {
                r matches Err(e) && iokit::is_iokit_error(e, opened)
            } else {
                match endpoints {
                    Err(rc) => r matches Err(e) && iokit::is_iokit_error(e, rc),
                    Ok(endpoints) => r matches Ok(i) && i.interface_number == interface_number
                        && i.endpoints == endpoints && i.alt_setting == 0,
                }
            },
    {
        match check_iokit_return(opened) {
            Ok(_) => {},
            Err(e) => return Err(e),
        }
        match endpoints {
            Ok(endpoints) => {
                self.claimed_interfaces = self.claimed_interfaces + 1;
                Ok(MacInterface { interface_number, endpoints, alt_setting: 0 })
            },
            Err(rc) => match check_iokit_return(rc) {
                Err(e) => Err(e),
                Ok(_) => vstd::pervasive::unreached(),
            },
        }
    }

    /// A claimed interface is given up.
    pub fn release_interface(&mut self)
        requires
            old(self).claimed_interfaces > 0,
        ensures
            final(self).claimed_interfaces == old(self).claimed_interfaces - 1,
            final(self).speed == old(self).speed,
            final(self).active_config == old(self).active_config,
            final(self).is_open_exclusive == old(self).is_open_exclusive,
    {
        self.claimed_interfaces = self.claimed_interfaces - 1;
    }
}

/// A claimed interface, with what IOKit says of its endpoints.
#[derive(Debug)]
pub struct MacInterface {
    pub interface_number: u8,
    pub endpoints: Vec<EndpointInfo>,
    pub alt_setting: u8,
}

/// The pipe of an endpoint. If the endpoint is not found, it is an invalid one, with which a
/// transfer will fail when it is submitted; it is the same for control transfers, which need none.
pub open spec fn pipe_of(endpoints: Seq<EndpointInfo>, endpoint: u8, ep_type: EndpointType) -> u8 {
    if ep_type == EndpointType::Control {
        0
    } else {
        match iokit_usb::endpoint_at(endpoints, endpoint) {
            Some(e) => e.pipe_ref,
            None => 0,
        }
    }
}

/// A transfer that is no control transfer goes through the pipe of the endpoint with the address. Pipe 0
/// is for control transfers, and for endpoints that there are not.
pub proof fn law_transfer_has_pipe_of_endpoint(
    endpoints: Seq<EndpointInfo>,
    endpoint: u8,
    ep_type: EndpointType,
)
    ensures
        ep_type == EndpointType::Control ==> pipe_of(endpoints, endpoint, ep_type) == 0,
        ep_type != EndpointType::Control ==> match iokit_usb::endpoint_at(endpoints, endpoint) {
            Some(e) => pipe_of(endpoints, endpoint, ep_type) == e.pipe_ref,
            None => pipe_of(endpoints, endpoint, ep_type) == 0,
        },
{
}

impl MacInterface {
    /// The pipe for a transfer.
    pub fn make_transfer(&self, endpoint: u8, ep_type: EndpointType) -> (r: u8)
        requires
            ep_type == EndpointType::Control ==> endpoint == 0,
        ensures
            r == pipe_of(self.endpoints@, endpoint, ep_type),
    {
        match ep_type {
            EndpointType::Control => 0,
            _ => match iokit_usb::find_endpoint(self.endpoints.as_slice(), endpoint) {
                Some(e) => e.pipe_ref,
                None => 0,
            },
        }
    }

    /// The control request that receives a number of bytes.
    pub fn control_in_blocking(
        &self,
        device: &MacDevice,
        control: Control,
        len: usize,
        timeout_millis: u128,
    ) -> (r: DevRequest)
        requires
            len <= 0xffff,
        ensures
            r == dev_request(Direction::In, control, len as nat, timeout_millis),
    {
        device.control_in_blocking(control, len, timeout_millis)
    }

    /// The control request that sends data.
    pub fn control_out_blocking(
        &self,
        device: &MacDevice,
        control: Control,
        data: &[u8],
        timeout_millis: u128,
    ) -> (r: DevRequest)
        requires
            data@.len() <= 0xffff,
        ensures
            r == dev_request(Direction::Out, control, data@.len(), timeout_millis),
    {
        device.control_out_blocking(control, data, timeout_millis)
    }

    /// What changing the alternate setting came to, once its endpoints were listed again.
    pub fn set_alt_setting(
        &mut self,
        alt_setting: u8,
        result: IoReturn,
        endpoints: Result<Vec<EndpointInfo>, IoReturn>,
    ) -> (r: Result<(), Error>)
        requires
            endpoints matches Err(e) ==> e.kind != IoReturnKind::Success,
        ensures
            final(self).interface_number == old(self).interface_number,
            if result.kind != IoReturnKind::Success {
                r matches Err(e) && iokit::is_iokit_error(e, result) && *final(self) == *old(self)
            } else {
                match endpoints {
                    Err(rc) => r matches Err(e) && iokit::is_iokit_error(e, rc) && *final(self)
                        == *old(self),
                    Ok(endpoints) => r is Ok && final(self).endpoints == endpoints && final(
                        self).alt_setting == alt_setting,
                }
            },
    {
        match check_iokit_return(result) {
            Ok(_) => {},
            Err(e) => return Err(e),
        }
        match endpoints {
            Ok(endpoints) => {
                self.endpoints = endpoints;
                self.alt_setting = alt_setting;
                Ok(())
            },
            Err(rc) => match check_iokit_return(rc) {
                Err(e) => Err(e),
                Ok(_) => vstd::pervasive::unreached(),
            },
        }
    }

    /// Get the alternate setting.
    pub fn get_alt_setting(&self) -> (r: u8)
        ensures
            r == self.alt_setting,
    {
        self.alt_setting
    }

    /// The pipe of an endpoint whose halt is to be cleared.
    pub fn clear_halt(&self, endpoint: u8) -> (r: Result<u8, Error>)
        ensures
            match iokit_usb::endpoint_at(self.endpoints@, endpoint) {
                Some(e) => r == Ok::<u8, Error>(e.pipe_ref),
                None => r matches Err(e) && e.is(ErrorKind::NotFound, None, "Endpoint not found"@),
            },
    {
        match iokit_usb::find_endpoint(self.endpoints.as_slice(), endpoint) {
            Some(e) => Ok(e.pipe_ref),
            None => Err(Error::new(ErrorKind::NotFound, "Endpoint not found")),
        }
    }
}

} // verus!
