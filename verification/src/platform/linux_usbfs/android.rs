//! Devices and permissions as Android has them.

use vstd::prelude::*;

use crate::enumeration::{
    self, DeviceInfo, DeviceInfoModel, InterfaceInfo, InterfaceInfoModel, PlatformInfo,
    PlatformModel,
};
use crate::error::{Error, ErrorKind};
use crate::text;

use super::enumeration::{by_number, insert_by_number};

verus! {

/// What the name of the action of a permission request ends with.
pub const ACTION_USB_PERMISSION: &'static str = "rust.nusb.USB_PERMISSION";

/// The flag of a pending intent that its extras can be filled in.
pub const FLAG_MUTABLE: i32 = 0x0200_0000;

/// What kind of error a call into Java came to.
#[derive(Clone, Copy, Debug, PartialEq, Eq, Structural)]
pub enum JavaError {
    /// A Java exception was thrown and caught.
    CaughtException,
    /// A Java exception was pending, and could be described or not.
    PendingException(bool),
    /// Something else went wrong.
    Other,
}

/// The error for a call into Java that was not expected to fail.
pub fn java_error(e: JavaError) -> (r: Error)
    ensures
        r.is(
            ErrorKind::Other,
            None,
            match e {
                JavaError::CaughtException => "unexpected Java error, please check logcat"@,
                JavaError::PendingException(true) => {
                    "unexpected pending Java error, please check logcat"@
                },
                JavaError::PendingException(false) => "unexpected pending Java error"@,
                JavaError::Other => "unexpected JNI error, please check logcat"@,
            },
        ),
{
    match e {
        JavaError::CaughtException => Error::new(
            ErrorKind::Other,
            "unexpected Java error, please check logcat",
        ),
        JavaError::PendingException(true) => Error::new(
            ErrorKind::Other,
            "unexpected pending Java error, please check logcat",
        ),
        JavaError::PendingException(false) => Error::new(
            ErrorKind::Other,
            "unexpected pending Java error",
        ),
        JavaError::Other => Error::new(
            ErrorKind::Other,
            "unexpected JNI error, please check logcat",
        ),
    }
}

/// Whether the system can be used, by its API level and whether it has the USB service.
pub fn check_usb_manager(api_level: i32, has_service: bool) -> (r: Result<(), Error>)
    ensures
        r is Ok <==> api_level >= 23 && has_service,
        r matches Err(e) ==> e.is(
            ErrorKind::Unsupported,
            None,
            if api_level < 23 {
                "nusb requires Android API level 23 (6.0) or newer versions"@
            } else {
                "USB system service not found"@
            },
        ),
{
    if api_level < 23 {
        return Err(
            Error::new(
                ErrorKind::Unsupported,
                "nusb requires Android API level 23 (6.0) or newer versions",
            ),
        );
    }
    if !has_service {
        return Err(Error::new(ErrorKind::Unsupported, "USB system service not found"));
    }
    Ok(())
}

/// An interface of a device, or one of its alternate settings, as Android has it.
#[derive(Debug)]
pub struct AndroidInterface {
    pub id: i32,
    pub class: i32,
    pub subclass: i32,
    pub protocol: i32,
    pub name: Option<String>,
}

/// A device as Android has it. The version is known from API level 28 on.
#[derive(Debug)]
pub struct AndroidDevice {
    pub device_id: i32,
    pub vendor_id: i32,
    pub product_id: i32,
    pub version: Option<String>,
    pub class: i32,
    pub subclass: i32,
    pub protocol: i32,
    pub manufacturer_name: Option<String>,
    pub product_name: Option<String>,
    pub serial_number: Option<String>,
    pub interfaces: Vec<AndroidInterface>,
}

/// The two numbers that a version begins with: `2.10` for instance.
pub open spec fn version_numbers(version: Seq<char>) -> Option<(u16, u16)> {
    let parts = text::parts(version, '.');
    if parts.len() >= 2 {
        match (
            text::unsigned_value(text::trimmed(parts[0]), 10, 0xffff),
            text::unsigned_value(text::trimmed(parts[1]), 10, 0xffff),
        ) {
            (Some(major), Some(minor)) => Some((major as u16, minor as u16)),
            _ => None,
        }
    } else {
        None
    }
}

/// A version in binary coded decimal: two digits before the point and two behind it.
pub open spec fn bcd(major: u16, minor: u16) -> u16 {
    ((major / 10) << 12) | ((major % 10) << 8) | ((minor / 10) << 4) | (minor % 10)
}

/// The device version, or `0xFFFF` if it is not known.
pub open spec fn device_version_of(version: Option<Seq<char>>) -> u16 {
    match version {
        Some(version) => match version_numbers(version) {
            Some((major, minor)) => bcd(major, minor),
            None => 0xffff,
        },
        None => 0xffff,
    }
}

/// Each pair of decimal digits of a version stands in the four hexadecimal digits of its code.
pub proof fn law_bcd_has_the_digits(major: u16, minor: u16)
    requires
        major < 100,
        minor < 100,
    ensures
        bcd(major, minor) == 4096 * (major / 10) + 256 * (major % 10) + 16 * (minor / 10) + minor
            % 10,
{
    let a = major / 10;
    let b = major % 10;
    let c = minor / 10;
    let d = minor % 10;
    assert((a << 12) | (b << 8) | (c << 4) | d == 4096 * a + 256 * b + 16 * c + d) by (bit_vector)
        requires
            a < 10,
            b < 10,
            c < 10,
            d < 10,
    ;
}

/// A version has two numbers, the first two between its dots, with or without space around them, and
/// each has its two digits in the code. Where it has not, the code is that of no version.
pub proof fn law_versions_are_coded(version: Seq<char>)
    ensures
        ({
            let parts = text::parts(version, '.');
            let major = text::unsigned_value(text::trimmed(parts[0]), 10, 0xffff);
            let minor = text::unsigned_value(text::trimmed(parts[1]), 10, 0xffff);
            &&& parts.len() < 2 || major is None || minor is None ==> device_version_of(Some(version))
                == 0xffff
            &&& parts.len() >= 2 && major is Some && minor is Some && major->0 < 100 && minor->0 < 100
                ==> device_version_of(Some(version)) == 4096 * (major->0 / 10) + 256 * (major->0 % 10)
                + 16 * (minor->0 / 10) + minor->0 % 10
            &&& parts.len() >= 2 ==> (major matches Some(x) ==> (minor matches Some(y)
                ==> device_version_of(Some(version)) == ((x as u16 / 10) << 12) | ((x as u16 % 10)
                << 8) | ((y as u16 / 10) << 4) | (y as u16 % 10)))
        }),
        device_version_of(None) == 0xffff,
{
    let parts = text::parts(version, '.');
    let major = text::unsigned_value(text::trimmed(parts[0]), 10, 0xffff);
    let minor = text::unsigned_value(text::trimmed(parts[1]), 10, 0xffff);
    if parts.len() >= 2 && major is Some && minor is Some && major->0 < 100 && minor->0 < 100 {
        law_bcd_has_the_digits(major->0 as u16, minor->0 as u16);
    }
}

fn read_device_version(version: &Option<String>) -> (r: u16)
    ensures
        r == device_version_of(enumeration::opt_text(*version)),
{
    let version = match version {
        Some(version) => version,
        None => return 0xffff,
    };
    let chars = text::chars_of(version.as_str());
    let parts = text::split(chars.as_slice(), '.');
    let ghost all = text::views(parts@);
    if parts.len() < 2 {
        return 0xffff;
    }
    assert(all[0] == parts@[0]@ && all[1] == parts@[1]@);
    match (
        text::parse_unsigned(text::trim(parts[0].as_slice()), 10, 0xffff),
        text::parse_unsigned(text::trim(parts[1].as_slice()), 10, 0xffff),
    ) {
        (Some(major), Some(minor)) => {
            let major: u16 = major as u16;
            let minor: u16 = minor as u16;
            ((major / 10) << 12) | ((major % 10) << 8) | ((minor / 10) << 4) | (minor % 10)
        },
        _ => 0xffff,
    }
}

/// What is known of an interface.
pub open spec fn interface_of(i: AndroidInterface) -> InterfaceInfoModel {
    InterfaceInfoModel {
        interface_number: i.id as u8,
        class: i.class as u8,
        subclass: i.subclass as u8,
        protocol: i.protocol as u8,
        interface_string: enumeration::opt_text(i.name),
    }
}

/// Whether an interface with this number is among those given.
pub open spec fn has_number(interfaces: Seq<InterfaceInfoModel>, number: u8) -> bool {
    exists|k: int|
        0 <= k < interfaces.len() && (#[trigger] interfaces[k]).interface_number == number
}

/// The interfaces, each by its first alternate setting.
pub open spec fn first_settings(interfaces: Seq<AndroidInterface>) -> Seq<InterfaceInfoModel>
    decreases interfaces.len(),
{
    if interfaces.len() == 0 {
        seq![]
    } else {
        let before = first_settings(interfaces.drop_last());
        let last = interface_of(interfaces.last());
        if has_number(before, last.interface_number) {
            before
        } else {
            before.push(last)
        }
    }
}

/// Of each interface the first alternate setting counts: one more setting changes nothing if one with its
/// number was there before, and is otherwise one more interface, with all that is said of it.
pub proof fn law_first_setting_counts(interfaces: Seq<AndroidInterface>, i: AndroidInterface)
    ensures
        first_settings(Seq::empty()).len() == 0,
        ({
            let before = first_settings(interfaces);
            let after = first_settings(interfaces.push(i));
            let is_known = exists|k: int|
                0 <= k < before.len() && (#[trigger] before[k]).interface_number == i.id as u8;
            &&& is_known ==> after == before
            &&& !is_known ==> {
                let last = after.last();
                &&& after.len() == before.len() + 1 && after.drop_last() == before
                &&& last.interface_number == i.id as u8
                &&& last.class == i.class as u8
                &&& last.subclass == i.subclass as u8
                &&& last.protocol == i.protocol as u8
                &&& i.name is None ==> last.interface_string is None
                &&& i.name matches Some(t) ==> last.interface_string == Some(t@)
            }
        }),
{
    assert(interfaces.push(i).drop_last() =~= interfaces);
    let before = first_settings(interfaces);
    assert(before.push(interface_of(i)).drop_last() =~= before);
}

/// What is known of a device. The interfaces are given, as they are put in order.
pub open spec fn device_of(
    dev: AndroidDevice,
    interfaces: Seq<InterfaceInfoModel>,
) -> DeviceInfoModel {
    DeviceInfoModel {
        platform: PlatformModel::Android { device_id: dev.device_id },
        bus_id: seq![],
        device_address: 0,
        port_chain: seq![],
        vendor_id: dev.vendor_id as u16,
        product_id: dev.product_id as u16,
        device_version: device_version_of(enumeration::opt_text(dev.version)),
        usb_version: 0,
        class: dev.class as u8,
        subclass: dev.subclass as u8,
        protocol: dev.protocol as u8,
        speed: None,
        manufacturer_string: enumeration::opt_text(dev.manufacturer_name),
        product_string: enumeration::opt_text(dev.product_name),
        serial_number: enumeration::opt_text(dev.serial_number),
        interfaces,
    }
}

/// What is known of a device is what Android says of it; the version of USB, the speed and where it is
/// connected are not known.
pub proof fn law_devices_are_as_android_has_them(
    dev: AndroidDevice,
    interfaces: Seq<InterfaceInfoModel>,
)
    ensures
        ({
            let d = device_of(dev, interfaces);
            &&& d.platform == (PlatformModel::Android { device_id: dev.device_id })
            &&& d.bus_id.len() == 0 && d.device_address == 0 && d.port_chain.len() == 0
            &&& d.usb_version == 0 && d.speed is None
            &&& d.vendor_id == dev.vendor_id as u16 && d.product_id == dev.product_id as u16
            &&& dev.version is None ==> d.device_version == 0xffff
            &&& dev.version matches Some(t) ==> d.device_version == device_version_of(Some(t@))
            &&& d.class == dev.class as u8 && d.subclass == dev.subclass as u8 && d.protocol
                == dev.protocol as u8
            &&& dev.manufacturer_name is None ==> d.manufacturer_string is None
            &&& dev.manufacturer_name matches Some(t) ==> d.manufacturer_string == Some(t@)
            &&& dev.product_name is None ==> d.product_string is None
            &&& dev.product_name matches Some(t) ==> d.product_string == Some(t@)
            &&& dev.serial_number is None ==> d.serial_number is None
            &&& dev.serial_number matches Some(t) ==> d.serial_number == Some(t@)
            &&& d.interfaces == interfaces
        }),
{
}

/// Whether an interface with this number is among those given.
fn find_number(interfaces: &Vec<InterfaceInfo>, number: u8) -> (r: bool)
    ensures
        r == has_number(enumeration::interface_infos(interfaces@), number),
{
    let ghost all = enumeration::interface_infos(interfaces@);
    let mut i: usize = 0;
    while i < interfaces.len()
        invariant
            i <= interfaces@.len(),
            all == enumeration::interface_infos(interfaces@),
            forall|k: int| 0 <= k < i ==> (#[trigger] all[k]).interface_number != number,
        decreases interfaces@.len() - i,
    {
        assert(all[i as int] == interfaces@[i as int]@);
        if interfaces[i].interface_number == number {
            return true;
        }
        i = i + 1;
    }
    false
}

/// Whether a number occurs does not depend on the order.
proof fn lemma_same_numbers(
    a: Seq<InterfaceInfoModel>,
    b: Seq<InterfaceInfoModel>,
    number: u8,
)
    requires
        a.to_multiset() == b.to_multiset(),
        has_number(a, number),
    ensures
        has_number(b, number),
{
    a.to_multiset_ensures();
    b.to_multiset_ensures();
    let k = choose|k: int| 0 <= k < a.len() && (#[trigger] a[k]).interface_number == number;
    assert(a.contains(a[k]));
    assert(b.to_multiset().count(a[k]) > 0);
    assert(b.contains(a[k]));
    let j = choose|j: int| 0 <= j < b.len() && b[j] == a[k];
    assert(b[j].interface_number == number);
}

/// Find out what a device is.
///
/// Of each interface the first alternate setting counts, and the interfaces are in the order of
/// their numbers.
pub fn build_device_info(dev: AndroidDevice) -> (r: DeviceInfo)
    ensures
        r@ == device_of(dev, r@.interfaces),
        by_number(r@.interfaces),
        r@.interfaces.to_multiset() == first_settings(dev.interfaces@).to_multiset(),
        forall|i: int, j: int|
            0 <= i < j < r@.interfaces.len() ==> (#[trigger] r@.interfaces[i]).interface_number <= (
            #[trigger] r@.interfaces[j]).interface_number,
        r@.platform == (PlatformModel::Android { device_id: dev.device_id }),
        r@.bus_id.len() == 0 && r@.device_address == 0 && r@.port_chain.len() == 0,
        r@.vendor_id == dev.vendor_id as u16 && r@.product_id == dev.product_id as u16,
        r@.device_version == device_version_of(
            match dev.version {
                Some(t) => Some(t@),
                None => None,
            },
        ),
        r@.usb_version == 0 && r@.speed is None,
        r@.class == dev.class as u8,
        r@.subclass == dev.subclass as u8,
        r@.protocol == dev.protocol as u8,
        dev.manufacturer_name is None ==> r@.manufacturer_string is None,
        dev.manufacturer_name matches Some(t) ==> r@.manufacturer_string == Some(t@),
        dev.product_name is None ==> r@.product_string is None,
        dev.product_name matches Some(t) ==> r@.product_string == Some(t@),
        dev.serial_number is None ==> r@.serial_number is None,
        dev.serial_number matches Some(t) ==> r@.serial_number == Some(t@),
{
    let mut interfaces: Vec<InterfaceInfo> = Vec::new();
    let ghost all = dev.interfaces@;
    let mut i: usize = 0;
    assert(all.take(0) =~= seq![]);
    assert(enumeration::interface_infos(interfaces@) =~= seq![]);
    while i < dev.interfaces.len()
        invariant
            i <= all.len(),
            all == dev.interfaces@,
            by_number(enumeration::interface_infos(interfaces@)),
            enumeration::interface_infos(interfaces@).to_multiset() == first_settings(
                all.take(i as int),
            ).to_multiset(),
        decreases all.len() - i,
    {
        let interface = &dev.interfaces[i];
        let number: u8 = interface.id as u8;
        let ghost have = enumeration::interface_infos(interfaces@);
        let ghost want = first_settings(all.take(i as int));
        proof {
            broadcast use vstd::seq_lib::group_to_multiset_ensures;

            assert(all.take(i + 1).drop_last() =~= all.take(i as int));
            assert(all.take(i + 1).last() == all[i as int]);
            if has_number(have, number) {
                lemma_same_numbers(have, want, number);
            }
            if has_number(want, number) {
                lemma_same_numbers(want, have, number);
            }
        }
        if !find_number(&interfaces, number) {
            let info = InterfaceInfo {
                interface_number: number,
                class: interface.class as u8,
                subclass: interface.subclass as u8,
                protocol: interface.protocol as u8,
                interface_string: interface.name.clone(),
            };
            insert_by_number(&mut interfaces, info);
        }
        i = i + 1;
    }
    assert(all.take(i as int) =~= all);
    let r = DeviceInfo {
        platform: PlatformInfo::Android { device_id: dev.device_id },
        bus_id: String::new(),
        device_address: 0,
        port_chain: Vec::new(),
        vendor_id: dev.vendor_id as u16,
        product_id: dev.product_id as u16,
        device_version: read_device_version(&dev.version),
        usb_version: 0,
        class: dev.class as u8,
        subclass: dev.subclass as u8,
        protocol: dev.protocol as u8,
        speed: None,
        manufacturer_string: dev.manufacturer_name,
        product_string: dev.product_name,
        serial_number: dev.serial_number,
        interfaces,
    };
    assert(r@.port_chain =~= seq![]);
    r
}

/// Whether a device is among those that are connected.
pub fn check_connection(device_id: i32, connected: &[i32]) -> (r: bool)
    ensures
        r == connected@.contains(device_id),
{
    let mut i: usize = 0;
    while i < connected.len()
        invariant
            i <= connected@.len(),
            forall|k: int| 0 <= k < i ==> connected@[k] != device_id,
        decreases connected@.len() - i,
    {
        if connected[i] == device_id {
            return true;
        }
        i = i + 1;
    }
    false
}

/// The name of the action of a permission request of an app.
pub fn action_usb_permission(package_name: &str) -> (r: String)
    ensures
        r@ == package_name@ + "."@ + ACTION_USB_PERMISSION@,
        r@ == package_name@ + "."@ + "rust.nusb.USB_PERMISSION"@,
{
    let mut action = String::from_str(package_name);
    action.append(".");
    action.append(ACTION_USB_PERMISSION);
    action
}

/// The flags of the pending intent of a permission request.
pub fn pending_intent_flags(api_level: i32) -> (r: i32)
    ensures
        r == if api_level < 31 {
            0
        } else {
            FLAG_MUTABLE
        },
        api_level < 31 ==> r == 0,
        api_level >= 31 ==> r == 33554432,
{
    if api_level < 31 {
        0
    } else {
        FLAG_MUTABLE
    }
}

/// Whether a result is that the device is disconnected.
pub open spec fn is_disconnected(r: Result<bool, Error>) -> bool {
    r matches Err(e) && e.is(ErrorKind::Disconnected, None, "device disconnected"@)
}

/// A device that is gone is reported as disconnected, with no code.
pub proof fn law_gone_device_is_disconnected(r: Result<bool, Error>)
    requires
        is_disconnected(r),
    ensures
        r matches Err(e) && e.kind == ErrorKind::Disconnected && e.code is None && e.message@
            == "device disconnected"@,
{
}

fn disconnected() -> (r: Result<bool, Error>)
    ensures
        is_disconnected(r),
{
    Err(Error::new(ErrorKind::Disconnected, "device disconnected"))
}

/// Whether a permission request is being shown. Android will only show one at a time, and it cannot
/// be taken back.
#[derive(Clone, Copy, Debug, PartialEq, Eq, Structural)]
pub struct PendingRequest {
    pub shown: bool,
}

/// A permission request for a device, and its result once it is known.
#[derive(Clone, Copy, Debug)]
pub struct PermissionRequest {
    pub device_id: i32,
    pub result: Option<Result<bool, Error>>,
}

/// What comes of asking for permission.
#[derive(Clone, Copy, Debug)]
pub enum RequestStep {
    /// The result is known already.
    Known(PermissionRequest),
    /// The request is to be shown to the user.
    Show(PermissionRequest),
}

/// What a message to the receiver of a permission request says.
#[derive(Clone, Copy, Debug)]
pub enum PermissionEvent {
    /// The user has answered a request for this device; it may not be possible to tell how.
    Answer(i32, Result<bool, ()>),
    /// Something else has happened, after which the device is still connected or not.
    Other(bool),
}

impl PermissionRequest {
    /// The request after it came to a result: the first one counts.
    pub open spec fn with_result(self, res: Result<bool, Error>) -> PermissionRequest {
        if self.result is None {
            PermissionRequest { device_id: self.device_id, result: Some(res) }
        } else {
            self
        }
    }

    /// Ask for permission, given whether the device is connected, whether there is permission, and
    /// whether another request is being shown.
    pub fn build(
        device_id: i32,
        is_connected: bool,
        has_permission: Result<bool, Error>,
        pending: PendingRequest,
    ) -> (r: Result<RequestStep, Error>)
        ensures
            if !is_connected {
                r matches Ok(RequestStep::Known(q)) && q.device_id == device_id
                    && q.result is Some && is_disconnected(q.result->0)
            } else {
                match has_permission {
                    Err(e) => r == Err::<RequestStep, Error>(e),
                    Ok(true) => r == Ok::<RequestStep, Error>(
                        RequestStep::Known(
                            PermissionRequest { device_id, result: Some(Ok(true)) },
                        ),
                    ),
                    Ok(false) => if pending.shown {
                        r matches Err(e) && e.is(
                            ErrorKind::Other,
                            None,
                            "another permission request is already pending"@,
                        )
                    } else {
                        r == Ok::<RequestStep, Error>(
                            RequestStep::Show(PermissionRequest { device_id, result: None }),
                        )
                    },
                }
            },
    {
        if !is_connected {
            return Ok(RequestStep::Known(Self::build_dummy(device_id, disconnected())));
        }
        match has_permission {
            Ok(true) => return Ok(RequestStep::Known(Self::build_dummy(device_id, Ok(true)))),
            Ok(false) => {},
            Err(e) => return Err(e),
        }
        if pending.shown {
            return Err(
                Error::new(ErrorKind::Other, "another permission request is already pending"),
            );
        }
        Ok(RequestStep::Show(PermissionRequest { device_id, result: None }))
    }

    /// The request after it was shown, or what came of it if it could not be.
    pub fn shown(self, result: Result<(), Error>, pending: &mut PendingRequest) -> (r: Result<
        PermissionRequest,
        Error,
    >)
        ensures
            match result {
                Ok(_) => r == Ok::<PermissionRequest, Error>(self) && final(pending).shown,
                Err(e) => r == Err::<PermissionRequest, Error>(e) && *final(pending) == *old(
                    pending),
            },
    {
        match result {
            Ok(_) => {
                pending.shown = true;
                Ok(self)
            },
            Err(e) => Err(e),
        }
    }

    /// A finished permission request with known result.
    pub fn build_dummy(device_id: i32, result: Result<bool, Error>) -> (r: PermissionRequest)
        ensures
            r == (PermissionRequest { device_id, result: Some(result) }),
    {
        PermissionRequest { device_id, result: Some(result) }
    }

    /// Set the result for once when it is received or otherwise determined; whether it was set, and
    /// whoever waits for it is to be notified.
    ///
    /// When it is set, the actual request is treated as completed, to make possible a new one. If
    /// it is already set, this does nothing.
    pub fn set_result(&mut self, res: Result<bool, Error>, pending: &mut PendingRequest) -> (r:
        bool)
        ensures
            *final(self) == old(self).with_result(res),
            final(self).device_id == old(self).device_id,
            final(self).result == if old(self).result is None {
                Some(res)
            } else {
                old(self).result
            },
            r == (old(self).result is None),
            final(pending).shown == (old(pending).shown && !r),
    {
        if self.result.is_none() {
            self.result = Some(res);
            pending.shown = false;
            true
        } else {
            false
        }
    }

    /// The result if it is received or otherwise determined, and whether it was set just now.
    pub fn check_result(
        &mut self,
        is_connected: bool,
        has_permission: Result<bool, Error>,
        pending: &mut PendingRequest,
    ) -> (r: (Option<Result<bool, Error>>, bool))
        ensures
            final(self).device_id == old(self).device_id,
            !is_connected ==> r.0 is Some && is_disconnected(r.0->0),
            !is_connected ==> (r.0 matches Some(Err(e)) && e.kind == ErrorKind::Disconnected
                && e.code is None && e.message@ == "device disconnected"@),
            is_connected && has_permission == Ok::<bool, Error>(true) ==> r.0 == Some(
                Ok::<bool, Error>(true),
            ),
            is_connected && has_permission != Ok::<bool, Error>(true) ==> r.0 == old(self).result,
            ({
                let determined = !is_connected || has_permission == Ok::<bool, Error>(true);
                &&& r.1 == (determined && old(self).result is None)
                &&& r.1 ==> final(self).result == r.0 && !final(pending).shown
                &&& !r.1 ==> *final(self) == *old(self) && *final(pending) == *old(pending)
            }),
    {
        if !is_connected {
            let res = disconnected();
            let set: bool = self.set_result(res, pending);
            return (Some(res), set);
        }
        if let Ok(true) = has_permission {
            let set: bool = self.set_result(Ok(true), pending);
            return (Some(Ok(true)), set);
        }
        (self.result, false)
    }
}

/// Handle a message to the receiver of a permission request for a device; whether a result was set
/// by it. If nobody waits for the request any more, an answer still completes it.
pub fn on_receive(
    request: Option<PermissionRequest>,
    device_id: i32,
    event: PermissionEvent,
    pending: &mut PendingRequest,
) -> (r: (Option<PermissionRequest>, bool))
    ensures
        r.0 is Some <==> request is Some,
        request is Some ==> r.0->0.device_id == request->0.device_id,
        ({
            // What the message says of the request: an answer, or that the device is gone.
            let concerned = match event {
                PermissionEvent::Answer(id, _) => id == device_id,
                PermissionEvent::Other(is_connected) => !is_connected,
            };
            match request {
                None => !r.1 && final(pending).shown == (old(pending).shown && !concerned),
                Some(q) => {
                    &&& r.1 == (concerned && q.result is None)
                    &&& !r.1 ==> r.0 == request && *final(pending) == *old(pending)
                    &&& r.1 ==> !final(pending).shown && match event {
                        PermissionEvent::Answer(_, Ok(granted)) => r.0->0.result == Some(
                            Ok::<bool, Error>(granted),
                        ),
                        PermissionEvent::Answer(_, Err(_)) => r.0->0.result matches Some(Err(e))
                            && e.is(
                            ErrorKind::Other,
                            None,
                            "failed to get EXTRA_PERMISSION_GRANTED"@,
                        ),
                        PermissionEvent::Other(_) => r.0->0.result matches Some(x)
                            && is_disconnected(x),
                    }
                },
            }
        }),
{
    let res: Result<bool, Error> = match event {
        PermissionEvent::Answer(id, granted) => {
            if id != device_id {
                return (request, false);
            }
            match granted {
                Ok(granted) => Ok(granted),
                Err(_) => Err(
                    Error::new(ErrorKind::Other, "failed to get EXTRA_PERMISSION_GRANTED"),
                ),
            }
        },
        PermissionEvent::Other(is_connected) => {
            if is_connected {
                return (request, false);
            }
            disconnected()
        },
    };
    match request {
        Some(q) => {
            let mut q = q;
            let set: bool = q.set_result(res, pending);
            (Some(q), set)
        },
        None => {
            pending.shown = false;
            (None, false)
        },
    }
}

/// The file descriptor of a device that is being opened, given the result of the permission
/// request, whether the system can be used, and the descriptor if the device could be opened.
pub fn open_device(
    permission: Result<bool, Error>,
    manager: Result<(), Error>,
    fd: Option<i32>,
) -> (r: Result<i32, Error>)
    ensures
        match permission {
            Err(e) => r == Err::<i32, Error>(e),
            Ok(false) => r matches Err(e) && e.is(
                ErrorKind::PermissionDenied,
                None,
                "USB device permission request refused by the user"@,
            ),
            Ok(true) => match manager {
                Err(e) => r == Err::<i32, Error>(e),
                Ok(_) => match fd {
                    Some(fd) => r == Ok::<i32, Error>(fd),
                    None => r matches Err(e) && e.is(
                        ErrorKind::NotFound,
                        None,
                        "`UsbManager.openDevice()` failed"@,
                    ),
                },
            },
        },
{
    match permission {
        Ok(true) => {},
        Ok(false) => return Err(
            Error::new(
                ErrorKind::PermissionDenied,
                "USB device permission request refused by the user",
            ),
        ),
        Err(e) => return Err(e),
    }
    match manager {
        Ok(_) => {},
        Err(e) => return Err(e),
    }
    match fd {
        Some(fd) => Ok(fd),
        None => Err(Error::new(ErrorKind::NotFound, "`UsbManager.openDevice()` failed")),
    }
}

/// What a message to the receiver of hotplug events is about.
#[derive(Clone, Copy, Debug, PartialEq, Eq, Structural)]
pub enum HotplugAction {
    Attached,
    Detached,
    Other,
}

/// Find out what a message is about, by the names that the system has for its actions.
pub fn hotplug_action(action: &str, attached: &str, detached: &str) -> (r: HotplugAction)
    ensures
        r == if text::trimmed(action@) == text::trimmed(attached@) {
            HotplugAction::Attached
        } else if text::trimmed(action@) == text::trimmed(detached@) {
            HotplugAction::Detached
        } else {
            HotplugAction::Other
        },
{
    let action = text::chars_of(action);
    let attached = text::chars_of(attached);
    let detached = text::chars_of(detached);
    let action = text::trim(action.as_slice());
    if text::same_chars(action, text::trim(attached.as_slice())) {
        HotplugAction::Attached
    } else if text::same_chars(action, text::trim(detached.as_slice())) {
        HotplugAction::Detached
    } else {
        HotplugAction::Other
    }
}

/// Once the result of a permission request is known it stays, whatever comes.
pub proof fn law_result_stays(
    request: PermissionRequest,
    first: Result<bool, Error>,
    second: Result<bool, Error>,
)
    ensures
        request.with_result(first).with_result(second) == request.with_result(first),
        request.with_result(first).device_id == request.device_id,
        request.result is None ==> request.with_result(first).result == Some(first),
        request.result is Some ==> request.with_result(first) == request,
{
}

} // verus!
