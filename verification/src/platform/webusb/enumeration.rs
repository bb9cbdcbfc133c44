//! Devices as a browser has them.

use vstd::prelude::*;

use crate::enumeration::{
    self, DeviceInfo, DeviceInfoModel, InterfaceInfo, InterfaceInfoModel, PlatformInfo,
    PlatformModel,
};

verus! {

/// The three numbers of a version.
#[derive(Debug, Clone, Copy, PartialEq, Eq, Structural)]
pub struct Version {
    pub major: u8,
    pub minor: u8,
    pub subminor: u8,
}

impl Version {
    /// The version in the encoding of a device descriptor.
    pub open spec fn encoded(self) -> u16 {
        ((self.major as u16) << 8) | ((self.minor as u16) << 4) | (self.subminor as u16)
    }

    /// The version in the encoding of a device descriptor.
    pub fn encode(&self) -> (r: u16)
        ensures
            r == self.encoded(),
            r == ((self.major as u16) << 8) | ((self.minor as u16) << 4) | (self.subminor as u16),
    {
        ((self.major as u16) << 8) | ((self.minor as u16) << 4) | (self.subminor as u16)
    }
}

/// Each number of a version has its own digits in the encoding: two for the first, and one each for
/// the others.
pub proof fn law_version_has_the_digits(v: Version)
    requires
        v.minor < 16,
        v.subminor < 16,
    ensures
        v.encoded() == 256 * v.major + 16 * v.minor + v.subminor,
{
    let a = v.major as u16;
    let b = v.minor as u16;
    let c = v.subminor as u16;
    assert((a << 8) | (b << 4) | c == 256 * a + 16 * b + c) by (bit_vector)
        requires
            a < 256,
            b < 16,
            c < 16,
    ;
}

/// An alternate setting of an interface.
#[derive(Debug)]
pub struct WebAlternate {
    pub class: u8,
    pub subclass: u8,
    pub protocol: u8,
    pub name: Option<String>,
}

/// An interface of the active configuration.
#[derive(Debug)]
pub struct WebInterface {
    pub number: u8,
    pub alternates: Vec<WebAlternate>,
}

/// A device.
#[derive(Debug)]
pub struct WebDevice {
    pub id: usize,
    pub vendor_id: u16,
    pub product_id: u16,
    pub device_version: Version,
    pub usb_version: Version,
    pub class: u8,
    pub subclass: u8,
    pub protocol: u8,
    pub manufacturer_name: Option<String>,
    pub product_name: Option<String>,
    pub serial_number: Option<String>,
    /// The interfaces, if the device is configured
    pub interfaces: Option<Vec<WebInterface>>,
}

/// What is known of the interfaces that have an alternate setting.
pub open spec fn interfaces_of(interfaces: Seq<WebInterface>) -> Seq<InterfaceInfoModel>
    decreases interfaces.len(),
{
    if interfaces.len() == 0 {
        seq![]
    } else {
        let before = interfaces_of(interfaces.drop_last());
        let last = interfaces.last();
        if last.alternates@.len() == 0 {
            before
        } else {
            let alt = last.alternates@[0];
            before.push(
                InterfaceInfoModel {
                    interface_number: last.number,
                    class: alt.class,
                    subclass: alt.subclass,
                    protocol: alt.protocol,
                    interface_string: enumeration::opt_text(alt.name),
                },
            )
        }
    }
}

/// The interfaces of a device are those that have an alternate setting, in their order, each by its first
/// one.
pub proof fn law_interfaces_have_first_setting(interfaces: Seq<WebInterface>, i: WebInterface)
    ensures
        interfaces_of(Seq::empty()).len() == 0,
        i.alternates@.len() == 0 ==> interfaces_of(interfaces.push(i)) == interfaces_of(interfaces),
        i.alternates@.len() > 0 ==> {
            let all = interfaces_of(interfaces.push(i));
            let last = all.last();
            let alt = i.alternates@[0];
            &&& all.len() == interfaces_of(interfaces).len() + 1
            &&& all.drop_last() == interfaces_of(interfaces)
            &&& last.interface_number == i.number
            &&& last.class == alt.class && last.subclass == alt.subclass && last.protocol
                == alt.protocol
            &&& alt.name is None ==> last.interface_string is None
            &&& alt.name matches Some(t) ==> last.interface_string == Some(t@)
        },
{
    assert(interfaces.push(i).drop_last() =~= interfaces);
    let before = interfaces_of(interfaces);
    assert(forall|m: InterfaceInfoModel| #[trigger] before.push(m).drop_last() =~= before);
}

/// What is known of a device.
pub open spec fn device_of(d: WebDevice) -> DeviceInfoModel {
    DeviceInfoModel {
        platform: PlatformModel::WebUsb { id: d.id },
        bus_id: seq![],
        device_address: 0,
        port_chain: seq![],
        vendor_id: d.vendor_id,
        product_id: d.product_id,
        device_version: d.device_version.encoded(),
        usb_version: d.usb_version.encoded(),
        class: d.class,
        subclass: d.subclass,
        protocol: d.protocol,
        speed: None,
        manufacturer_string: enumeration::opt_text(d.manufacturer_name),
        product_string: enumeration::opt_text(d.product_name),
        serial_number: enumeration::opt_text(d.serial_number),
        interfaces: match d.interfaces {
            Some(interfaces) => interfaces_of(interfaces@),
            None => seq![],
        },
    }
}

/// What is known of a device is what the browser says of it; the speed and where it is connected are not
/// known.
pub proof fn law_devices_are_as_browser_has_them(dev: WebDevice)
    ensures
        ({
            let d = device_of(dev);
            &&& d.platform == (PlatformModel::WebUsb { id: dev.id })
            &&& d.bus_id.len() == 0 && d.device_address == 0 && d.port_chain.len() == 0
            &&& d.speed is None
            &&& d.vendor_id == dev.vendor_id && d.product_id == dev.product_id
            &&& d.device_version == dev.device_version.encoded()
            &&& d.usb_version == dev.usb_version.encoded()
            &&& d.class == dev.class && d.subclass == dev.subclass && d.protocol == dev.protocol
            &&& dev.manufacturer_name is None ==> d.manufacturer_string is None
            &&& dev.manufacturer_name matches Some(t) ==> d.manufacturer_string == Some(t@)
            &&& dev.product_name is None ==> d.product_string is None
            &&& dev.product_name matches Some(t) ==> d.product_string == Some(t@)
            &&& dev.serial_number is None ==> d.serial_number is None
            &&& dev.serial_number matches Some(t) ==> d.serial_number == Some(t@)
            &&& dev.interfaces is None ==> d.interfaces.len() == 0
            &&& dev.interfaces matches Some(v) ==> d.interfaces == interfaces_of(v@)
        }),
{
}

fn read_interfaces(interfaces: &[WebInterface]) -> (r: Vec<InterfaceInfo>)
    ensures
        enumeration::interface_infos(r@) == interfaces_of(interfaces@),
{
    let mut out: Vec<InterfaceInfo> = Vec::new();
    let mut i: usize = 0;
    assert(interfaces@.take(0) =~= seq![]);
    assert(enumeration::interface_infos(out@) =~= seq![]);
    while i < interfaces.len()
        invariant
            i <= interfaces@.len(),
            enumeration::interface_infos(out@) == interfaces_of(interfaces@.take(i as int)),
        decreases interfaces@.len() - i,
    {
        let ghost before = enumeration::interface_infos(out@);
        assert(interfaces@.take(i + 1).drop_last() =~= interfaces@.take(i as int));
        assert(interfaces@.take(i + 1).last() == interfaces@[i as int]);
        let interface = &interfaces[i];
        if interface.alternates.len() > 0 {
            let alt = &interface.alternates[0];
            let info = InterfaceInfo {
                interface_number: interface.number,
                class: alt.class,
                subclass: alt.subclass,
                protocol: alt.protocol,
                interface_string: alt.name.clone(),
            };
            let ghost model = info@;
            out.push(info);
            assert(enumeration::interface_infos(out@) =~= before.push(model));
        }
        i = i + 1;
    }
    assert(interfaces@.take(i as int) =~= interfaces@);
    out
}

/// Find out what a device is.
pub fn device_to_info(d: WebDevice) -> (r: DeviceInfo)
    ensures
        r@ == device_of(d),
        r@.platform == (PlatformModel::WebUsb { id: d.id }),
        r@.bus_id.len() == 0 && r@.device_address == 0 && r@.port_chain.len() == 0,
        r@.vendor_id == d.vendor_id && r@.product_id == d.product_id,
        r@.device_version == d.device_version.encoded(),
        r@.usb_version == d.usb_version.encoded(),
        r@.class == d.class && r@.subclass == d.subclass && r@.protocol == d.protocol,
        r@.speed is None,
        d.manufacturer_name is None ==> r@.manufacturer_string is None,
        d.manufacturer_name matches Some(t) ==> r@.manufacturer_string == Some(t@),
        d.product_name is None ==> r@.product_string is None,
        d.product_name matches Some(t) ==> r@.product_string == Some(t@),
        d.serial_number is None ==> r@.serial_number is None,
        d.serial_number matches Some(t) ==> r@.serial_number == Some(t@),
        d.interfaces is None ==> r@.interfaces.len() == 0,
        d.interfaces matches Some(interfaces) ==> r@.interfaces == interfaces_of(interfaces@),
{
    let interfaces = match d.interfaces {
        Some(interfaces) => read_interfaces(interfaces.as_slice()),
        None => Vec::new(),
    };
    let r = DeviceInfo {
        platform: PlatformInfo::WebUsb { id: d.id },
        bus_id: String::new(),
        device_address: 0,
        port_chain: Vec::new(),
        vendor_id: d.vendor_id,
        product_id: d.product_id,
        device_version: d.device_version.encode(),
        usb_version: d.usb_version.encode(),
        class: d.class,
        subclass: d.subclass,
        protocol: d.protocol,
        speed: None,
        manufacturer_string: d.manufacturer_name,
        product_string: d.product_name,
        serial_number: d.serial_number,
        interfaces,
    };
    assert(r@ =~= device_of(d));
    r
}

/// What a device has to be to be asked for, as far as it matters.
#[derive(Debug, Clone)]
pub struct FilterRule {
    pub vendor_id: Option<u16>,
    pub product_id: Option<u16>,
    pub class: Option<u8>,
    pub subclass: Option<u8>,
    pub protocol: Option<u8>,
    pub serial_number: Option<String>,
}

/// Devices by rules, one of which has to hold.
#[derive(Debug, Clone)]
pub struct DeviceSelector {
    pub rules: Vec<FilterRule>,
}

impl DeviceSelector {
    /// Whether the user is to be asked for a device. A browser takes no rules to let every device
    /// pass, but here they let none pass, so there is nothing to ask for.
    pub fn asks_for_device(&self) -> (r: bool)
        ensures
            r == (self.rules@.len() > 0),
    {
        self.rules.len() > 0
    }
}

} // verus!
