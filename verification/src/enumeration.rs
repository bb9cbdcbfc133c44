//! Information about devices and buses that can be obtained without opening them.

use vstd::prelude::*;

use crate::string_map::StringMap;
use crate::text;

verus! {

/// The identifier of a device as its platform has it.
#[derive(Copy, Clone, PartialEq, Eq, Debug, Hash, Structural)]
pub enum PlatformDeviceId {
    /// Linux and illumos: bus number and device address
    Bus(u8, u8),
    /// macOS: registry entry ID
    RegistryEntry(u64),
    /// Windows: device instance
    DevInst(u32),
    /// Android: device ID
    Android(i32),
    /// WebUSB: number given to the device by this library
    WebUsb(usize),
}

/// Opaque device identifier.
#[derive(Copy, Clone, PartialEq, Eq, Debug, Hash, Structural)]
pub struct DeviceId(pub PlatformDeviceId);

/// Path of a device in sysfs
#[derive(Debug, Clone)]
pub struct SysfsPath(pub String);

/// Path of a device in the devfs of illumos, and those of its `ugen` nodes by file name
#[derive(Debug, Clone)]
pub struct DevfsPath {
    pub path: String,
    pub device_paths: StringMap<String>,
}

/// What is known of a device on one platform only.
#[derive(Debug, Clone)]
pub enum PlatformInfo {
    Linux { path: SysfsPath, busnum: u8 },
    Illumos { devfs: DevfsPath, busnum: u8 },
    MacOs { registry_id: u64, location_id: u32 },
    Windows {
        instance_id: Vec<u16>,
        location_paths: Vec<Vec<u16>>,
        parent_instance_id: Vec<u16>,
        port_number: u32,
        devinst: u32,
        driver: Option<String>,
    },
    Android { device_id: i32 },
    WebUsb { id: usize },
}

/// [`PlatformInfo`] with its texts as sequences.
#[verifier::ext_equal]
pub enum PlatformModel {
    Linux { path: Seq<char>, busnum: u8 },
    Illumos { path: Seq<char>, device_paths: Map<Seq<char>, Seq<char>>, busnum: u8 },
    MacOs { registry_id: u64, location_id: u32 },
    Windows {
        instance_id: Seq<u16>,
        location_paths: Seq<Seq<u16>>,
        parent_instance_id: Seq<u16>,
        port_number: u32,
        devinst: u32,
        driver: Option<Seq<char>>,
    },
    Android { device_id: i32 },
    WebUsb { id: usize },
}

/// The text of an optional string.
pub open spec fn opt_text(s: Option<String>) -> Option<Seq<char>> {
    match s {
        Some(s) => Some(s@),
        None => None,
    }
}

/// The text of an optional borrowed string.
pub open spec fn text_of(s: Option<&str>) -> Option<Seq<char>> {
    match s {
        Some(s) => Some(s@),
        None => None,
    }
}

/// A map of strings with its texts as sequences.
pub open spec fn text_map(m: Map<Seq<char>, String>) -> Map<Seq<char>, Seq<char>> {
    m.map_values(|s: String| s@)
}

impl View for PlatformInfo {
    type V = PlatformModel;

    open spec fn view(&self) -> PlatformModel {
        match *self {
            PlatformInfo::Linux { path, busnum } => PlatformModel::Linux { path: path.0@, busnum },
            PlatformInfo::Illumos { devfs, busnum } => PlatformModel::Illumos {
                path: devfs.path@,
                device_paths: text_map(devfs.device_paths@),
                busnum,
            },
            PlatformInfo::MacOs { registry_id, location_id } => PlatformModel::MacOs {
                registry_id,
                location_id,
            },
            PlatformInfo::Windows {
                instance_id,
                location_paths,
                parent_instance_id,
                port_number,
                devinst,
                driver,
            } => PlatformModel::Windows {
                instance_id: instance_id@,
                location_paths: location_paths@.map_values(|p: Vec<u16>| p@),
                parent_instance_id: parent_instance_id@,
                port_number,
                devinst,
                driver: opt_text(driver),
            },
            PlatformInfo::Android { device_id } => PlatformModel::Android { device_id },
            PlatformInfo::WebUsb { id } => PlatformModel::WebUsb { id },
        }
    }
}

/// Information about a device that can be obtained without opening it.
///
/// ### Platform-specific notes
///
/// * Some fields are platform-specific
///     * Linux: `sysfs_path`, `busnum`
///     * Windows: `instance_id`, `parent_instance_id`, `port_number`, `driver`
///     * macOS: `registry_id`, `location_id`
///     * Android: `port_chain`, `device_version`, `bus_id`, `device_address`, `speed` are unavailable
#[derive(Clone)]
pub struct DeviceInfo {
    pub platform: PlatformInfo,
    pub bus_id: String,
    pub device_address: u8,
    pub port_chain: Vec<u8>,
    pub vendor_id: u16,
    pub product_id: u16,
    pub device_version: u16,
    pub usb_version: u16,
    pub class: u8,
    pub subclass: u8,
    pub protocol: u8,
    pub speed: Option<Speed>,
    pub manufacturer_string: Option<String>,
    pub product_string: Option<String>,
    pub serial_number: Option<String>,
    pub interfaces: Vec<InterfaceInfo>,
}

/// [`DeviceInfo`] with its texts and lists as sequences.
#[verifier::ext_equal]
pub struct DeviceInfoModel {
    pub platform: PlatformModel,
    pub bus_id: Seq<char>,
    pub device_address: u8,
    pub port_chain: Seq<u8>,
    pub vendor_id: u16,
    pub product_id: u16,
    pub device_version: u16,
    pub usb_version: u16,
    pub class: u8,
    pub subclass: u8,
    pub protocol: u8,
    pub speed: Option<Speed>,
    pub manufacturer_string: Option<Seq<char>>,
    pub product_string: Option<Seq<char>>,
    pub serial_number: Option<Seq<char>>,
    pub interfaces: Seq<InterfaceInfoModel>,
}

impl View for DeviceInfo {
    type V = DeviceInfoModel;

    open spec fn view(&self) -> DeviceInfoModel {
        DeviceInfoModel {
            platform: self.platform@,
            bus_id: self.bus_id@,
            device_address: self.device_address,
            port_chain: self.port_chain@,
            vendor_id: self.vendor_id,
            product_id: self.product_id,
            device_version: self.device_version,
            usb_version: self.usb_version,
            class: self.class,
            subclass: self.subclass,
            protocol: self.protocol,
            speed: self.speed,
            manufacturer_string: opt_text(self.manufacturer_string),
            product_string: opt_text(self.product_string),
            serial_number: opt_text(self.serial_number),
            interfaces: interface_infos(self.interfaces@),
        }
    }
}

/// What is known of a device is what is stored of it, each part in its place.
pub proof fn law_device_shows_its_parts(d: DeviceInfo)
    ensures
        d@.platform == d.platform@,
        d@.bus_id == d.bus_id@,
        d@.device_address == d.device_address,
        d@.port_chain == d.port_chain@,
        d@.vendor_id == d.vendor_id,
        d@.product_id == d.product_id,
        d@.device_version == d.device_version,
        d@.usb_version == d.usb_version,
        d@.class == d.class,
        d@.subclass == d.subclass,
        d@.protocol == d.protocol,
        d@.speed == d.speed,
        d@.manufacturer_string is Some <==> d.manufacturer_string is Some,
        d.manufacturer_string matches Some(t) ==> d@.manufacturer_string == Some(t@),
        d@.product_string is Some <==> d.product_string is Some,
        d.product_string matches Some(t) ==> d@.product_string == Some(t@),
        d@.serial_number is Some <==> d.serial_number is Some,
        d.serial_number matches Some(t) ==> d@.serial_number == Some(t@),
        d@.interfaces.len() == d.interfaces@.len(),
        forall|i: int|
            0 <= i < d.interfaces@.len() ==> {
                let shown = #[trigger] d@.interfaces[i];
                let stored = d.interfaces@[i];
                &&& shown.interface_number == stored.interface_number
                &&& shown.class == stored.class
                &&& shown.subclass == stored.subclass
                &&& shown.protocol == stored.protocol
                &&& shown.interface_string is Some <==> stored.interface_string is Some
                &&& stored.interface_string matches Some(t) ==> shown.interface_string == Some(t@)
            },
        d.platform matches PlatformInfo::Linux { path, busnum } ==> d@.platform == (
        PlatformModel::Linux { path: path.0@, busnum }),
        d.platform matches PlatformInfo::MacOs { registry_id, location_id } ==> d@.platform == (
        PlatformModel::MacOs { registry_id, location_id }),
        d.platform matches PlatformInfo::Android { device_id } ==> d@.platform == (
        PlatformModel::Android { device_id }),
        d.platform matches PlatformInfo::WebUsb { id } ==> d@.platform == (PlatformModel::WebUsb {
            id,
        }),
        d.platform matches PlatformInfo::Illumos { devfs, busnum } ==> (
        d@.platform matches PlatformModel::Illumos { path, device_paths, busnum: number }
            && path == devfs.path@ && number == busnum && device_paths.dom()
            == devfs.device_paths@.dom() && forall|k: Seq<char>|
            devfs.device_paths@.dom().contains(k) ==> #[trigger] device_paths[k]
                == devfs.device_paths@[k]@),
        d.platform matches PlatformInfo::Windows {
            instance_id,
            location_paths,
            parent_instance_id,
            port_number,
            devinst,
            driver,
        } ==> (d@.platform matches PlatformModel::Windows {
            instance_id: i,
            location_paths: l,
            parent_instance_id: p,
            port_number: n,
            devinst: x,
            driver: t,
        } && i == instance_id@ && l == location_paths@.map_values(|s: Vec<u16>| s@) && p
            == parent_instance_id@ && n == port_number && x == devinst && (t is Some <==> driver
            is Some) && (driver matches Some(name) ==> t == Some(name@))),
{
    if let PlatformInfo::Illumos { devfs, busnum } = d.platform {
        assert(text_map(devfs.device_paths@).dom() =~= devfs.device_paths@.dom());
    }
}

/// A device is identified by its bus and address on Linux and illumos, and elsewhere by what the system
/// has for it.
pub proof fn law_devices_are_identified(info: DeviceInfoModel)
    ensures
        info.platform matches PlatformModel::Linux { busnum, .. } ==> DeviceInfo::id_of(info).0
            == PlatformDeviceId::Bus(busnum, info.device_address),
        info.platform matches PlatformModel::Illumos { busnum, .. } ==> DeviceInfo::id_of(info).0
            == PlatformDeviceId::Bus(busnum, info.device_address),
        info.platform matches PlatformModel::MacOs { registry_id, .. } ==> DeviceInfo::id_of(info).0
            == PlatformDeviceId::RegistryEntry(registry_id),
        info.platform matches PlatformModel::Windows { devinst, .. } ==> DeviceInfo::id_of(info).0
            == PlatformDeviceId::DevInst(devinst),
        info.platform matches PlatformModel::Android { device_id } ==> DeviceInfo::id_of(info).0
            == PlatformDeviceId::Android(device_id),
        info.platform matches PlatformModel::WebUsb { id } ==> DeviceInfo::id_of(info).0
            == PlatformDeviceId::WebUsb(id),
{
}

impl DeviceInfo {
    /// The identifier that the platform has for the device.
    pub open spec fn id_of(info: DeviceInfoModel) -> DeviceId {
        match info.platform {
            PlatformModel::Linux { busnum, .. } => DeviceId(
                PlatformDeviceId::Bus(busnum, info.device_address),
            ),
            PlatformModel::Illumos { busnum, .. } => DeviceId(
                PlatformDeviceId::Bus(busnum, info.device_address),
            ),
            PlatformModel::MacOs { registry_id, .. } => DeviceId(
                PlatformDeviceId::RegistryEntry(registry_id),
            ),
            PlatformModel::Windows { devinst, .. } => DeviceId(PlatformDeviceId::DevInst(devinst)),
            PlatformModel::Android { device_id } => DeviceId(PlatformDeviceId::Android(device_id)),
            PlatformModel::WebUsb { id } => DeviceId(PlatformDeviceId::WebUsb(id)),
        }
    }

    /// Opaque identifier for the device.
    pub fn id(&self) -> (r: DeviceId)
        ensures
            r == Self::id_of(self@),
            match self.platform {
                PlatformInfo::Linux { busnum, .. } => r.0 == PlatformDeviceId::Bus(
                    busnum,
                    self.device_address,
                ),
                PlatformInfo::Illumos { busnum, .. } => r.0 == PlatformDeviceId::Bus(
                    busnum,
                    self.device_address,
                ),
                PlatformInfo::MacOs { registry_id, .. } => r.0 == PlatformDeviceId::RegistryEntry(
                    registry_id,
                ),
                PlatformInfo::Windows { devinst, .. } => r.0 == PlatformDeviceId::DevInst(devinst),
                PlatformInfo::Android { device_id } => r.0 == PlatformDeviceId::Android(device_id),
                PlatformInfo::WebUsb { id } => r.0 == PlatformDeviceId::WebUsb(id),
            },
    {
        match &self.platform {
            PlatformInfo::Linux { busnum, .. } => DeviceId(
                PlatformDeviceId::Bus(*busnum, self.device_address),
            ),
            PlatformInfo::Illumos { busnum, .. } => DeviceId(
                PlatformDeviceId::Bus(*busnum, self.device_address),
            ),
            PlatformInfo::MacOs { registry_id, .. } => DeviceId(
                PlatformDeviceId::RegistryEntry(*registry_id),
            ),
            PlatformInfo::Windows { devinst, .. } => DeviceId(PlatformDeviceId::DevInst(*devinst)),
            PlatformInfo::Android { device_id } => DeviceId(PlatformDeviceId::Android(*device_id)),
            PlatformInfo::WebUsb { id } => DeviceId(PlatformDeviceId::WebUsb(*id)),
        }
    }

    /// *(Linux-only)* Sysfs path for the device.
    pub fn sysfs_path(&self) -> (r: &str)
        requires
            self.platform is Linux,
        ensures
            self@.platform matches PlatformModel::Linux { path, .. } && r@ == path,
    {
        match &self.platform {
            PlatformInfo::Linux { path, .. } => path.0.as_str(),
            _ => vstd::pervasive::unreached(),
        }
    }

    /// *(Linux-only)* Bus number.
    ///
    /// On Linux, the `bus_id` is an integer and this provides the value as `u8`.
    pub fn busnum(&self) -> (r: u8)
        requires
            self.platform is Linux,
        ensures
            self@.platform matches PlatformModel::Linux { busnum, .. } && r == busnum,
    {
        match &self.platform {
            PlatformInfo::Linux { busnum, .. } => *busnum,
            _ => vstd::pervasive::unreached(),
        }
    }

    /// *(Windows-only)* Instance ID path of this device
    pub fn instance_id(&self) -> (r: &[u16])
        requires
            self.platform is Windows,
        ensures
            self@.platform matches PlatformModel::Windows { instance_id, .. } && r@ == instance_id,
    {
        match &self.platform {
            PlatformInfo::Windows { instance_id, .. } => instance_id.as_slice(),
            _ => vstd::pervasive::unreached(),
        }
    }

    /// *(Windows-only)* Location paths property
    pub fn location_paths(&self) -> (r: &[Vec<u16>])
        requires
            self.platform is Windows,
        ensures
            self@.platform matches PlatformModel::Windows { location_paths, .. } && r@.map_values(|p: Vec<u16>| p@) == location_paths,
    {
        match &self.platform {
            PlatformInfo::Windows { location_paths, .. } => location_paths.as_slice(),
            _ => vstd::pervasive::unreached(),
        }
    }

    /// *(Windows-only)* Instance ID path of the parent hub
    pub fn parent_instance_id(&self) -> (r: &[u16])
        requires
            self.platform is Windows,
        ensures
            self@.platform matches PlatformModel::Windows { parent_instance_id, .. } && r@ == parent_instance_id,
    {
        match &self.platform {
            PlatformInfo::Windows { parent_instance_id, .. } => parent_instance_id.as_slice(),
            _ => vstd::pervasive::unreached(),
        }
    }

    /// *(Windows-only)* Port number
    pub fn port_number(&self) -> (r: u32)
        requires
            self.platform is Windows,
        ensures
            self@.platform matches PlatformModel::Windows { port_number, .. } && r == port_number,
    {
        match &self.platform {
            PlatformInfo::Windows { port_number, .. } => *port_number,
            _ => vstd::pervasive::unreached(),
        }
    }

    /// *(Not available on Android)* Path of port numbers identifying the port where the device is
    /// connected.
    ///
    /// Together with the bus ID, it identifies a physical port. The path is expected to remain
    /// stable across device insertions or reboots.
    ///
    /// Since USB SuperSpeed is a separate topology from USB 2.0 speeds, a physical port may be
    /// identified differently depending on speed.
    pub fn port_chain(&self) -> (r: &[u8])
        requires
            self.platform !is Android,
        ensures
            r@ == self@.port_chain,
    {
        self.port_chain.as_slice()
    }

    /// *(Windows-only)* Driver associated with the device as a whole
    pub fn driver(&self) -> (r: Option<&str>)
        requires
            self.platform is Windows,
        ensures
            self@.platform matches PlatformModel::Windows { driver, .. } && text_of(r) == driver,
    {
        match &self.platform {
            PlatformInfo::Windows { driver, .. } => text::as_deref(driver),
            _ => vstd::pervasive::unreached(),
        }
    }

    /// *(macOS-only)* IOKit Location ID
    pub fn location_id(&self) -> (r: u32)
        requires
            self.platform is MacOs,
        ensures
            self@.platform matches PlatformModel::MacOs { location_id, .. } && r == location_id,
    {
        match &self.platform {
            PlatformInfo::MacOs { location_id, .. } => *location_id,
            _ => vstd::pervasive::unreached(),
        }
    }

    /// *(macOS-only)* IOKit Registry Entry ID
    pub fn registry_entry_id(&self) -> (r: u64)
        requires
            self.platform is MacOs,
        ensures
            self@.platform matches PlatformModel::MacOs { registry_id, .. } && r == registry_id,
    {
        match &self.platform {
            PlatformInfo::MacOs { registry_id, .. } => *registry_id,
            _ => vstd::pervasive::unreached(),
        }
    }

    /// *(Not available on Android)* Identifier for the bus / host controller where the device is
    /// connected.
    pub fn bus_id(&self) -> (r: &str)
        requires
            self.platform !is Android,
        ensures
            r@ == self@.bus_id,
    {
        self.bus_id.as_str()
    }

    /// *(Not available on Android)* Number identifying the device within the bus.
    pub fn device_address(&self) -> (r: u8)
        requires
            self.platform !is Android,
        ensures
            r == self@.device_address,
    {
        self.device_address
    }

    /// The 16-bit number identifying the device's vendor, from the `idVendor` device descriptor
    /// field.
    pub fn vendor_id(&self) -> (r: u16)
        ensures
            r == self@.vendor_id,
    {
        self.vendor_id
    }

    /// The 16-bit number identifying the product, from the `idProduct` device descriptor field.
    pub fn product_id(&self) -> (r: u16)
        ensures
            r == self@.product_id,
    {
        self.product_id
    }

    /// *(Not available on Android)* The device version, normally encoded as BCD, from the
    /// `bcdDevice` device descriptor field.
    pub fn device_version(&self) -> (r: u16)
        requires
            self.platform !is Android,
        ensures
            r == self@.device_version,
    {
        self.device_version
    }

    /// Encoded version of the USB specification, from the `bcdUSB` device descriptor field.
    pub fn usb_version(&self) -> (r: u16)
        ensures
            r == self@.usb_version,
    {
        self.usb_version
    }

    /// Code identifying the standard device class, from the `bDeviceClass` device descriptor field.
    pub fn class(&self) -> (r: u8)
        ensures
            r == self@.class,
    {
        self.class
    }

    /// Standard subclass, from the `bDeviceSubClass` device descriptor field.
    pub fn subclass(&self) -> (r: u8)
        ensures
            r == self@.subclass,
    {
        self.subclass
    }

    /// Standard protocol, from the `bDeviceProtocol` device descriptor field.
    pub fn protocol(&self) -> (r: u8)
        ensures
            r == self@.protocol,
    {
        self.protocol
    }

    /// *(Not available on Android)* Connection speed.
    pub fn speed(&self) -> (r: Option<Speed>)
        requires
            self.platform !is Android,
        ensures
            r == self@.speed,
    {
        self.speed
    }

    /// Manufacturer string, if available without device IO.
    pub fn manufacturer_string(&self) -> (r: Option<&str>)
        ensures
            text_of(r) == self@.manufacturer_string,
    {
        text::as_deref(&self.manufacturer_string)
    }

    /// Product string, if available without device IO.
    pub fn product_string(&self) -> (r: Option<&str>)
        ensures
            text_of(r) == self@.product_string,
    {
        text::as_deref(&self.product_string)
    }

    /// Serial number string, if available without device IO.
    pub fn serial_number(&self) -> (r: Option<&str>)
        ensures
            text_of(r) == self@.serial_number,
    {
        text::as_deref(&self.serial_number)
    }

    /// The device's interfaces.
    ///
    /// This returns summary information about the interfaces in the device's active configuration
    /// for the purposes of matching devices prior to opening them.
    pub fn interfaces(&self) -> (r: &[InterfaceInfo])
        ensures
            interface_infos(r@) == self@.interfaces,
    {
        self.interfaces.as_slice()
    }
}

/// Summary information about a device's interface, available before opening a device.
#[derive(Clone)]
pub struct InterfaceInfo {
    pub interface_number: u8,
    pub class: u8,
    pub subclass: u8,
    pub protocol: u8,
    pub interface_string: Option<String>,
}

/// [`InterfaceInfo`] with its text as a sequence.
#[verifier::ext_equal]
pub struct InterfaceInfoModel {
    pub interface_number: u8,
    pub class: u8,
    pub subclass: u8,
    pub protocol: u8,
    pub interface_string: Option<Seq<char>>,
}

impl View for InterfaceInfo {
    type V = InterfaceInfoModel;

    open spec fn view(&self) -> InterfaceInfoModel {
        InterfaceInfoModel {
            interface_number: self.interface_number,
            class: self.class,
            subclass: self.subclass,
            protocol: self.protocol,
            interface_string: opt_text(self.interface_string),
        }
    }
}

impl InterfaceInfo {
    /// Identifier for the interface from the `bInterfaceNumber` descriptor field.
    pub fn interface_number(&self) -> (r: u8)
        ensures
            r == self@.interface_number,
    {
        self.interface_number
    }

    /// Code identifying the standard interface class, from the `bInterfaceClass` interface
    /// descriptor field.
    pub fn class(&self) -> (r: u8)
        ensures
            r == self@.class,
    {
        self.class
    }

    /// Standard subclass, from the `bInterfaceSubClass` interface descriptor field.
    pub fn subclass(&self) -> (r: u8)
        ensures
            r == self@.subclass,
    {
        self.subclass
    }

    /// Standard protocol, from the `bInterfaceProtocol` interface descriptor field.
    pub fn protocol(&self) -> (r: u8)
        ensures
            r == self@.protocol,
    {
        self.protocol
    }

    /// Interface string descriptor value as cached by the OS.
    pub fn interface_string(&self) -> (r: Option<&str>)
        ensures
            text_of(r) == self@.interface_string,
    {
        text::as_deref(&self.interface_string)
    }
}

/// What is known of each of several interfaces.
pub open spec fn interface_infos(v: Seq<InterfaceInfo>) -> Seq<InterfaceInfoModel> {
    v.map_values(|i: InterfaceInfo| i@)
}

/// USB connection speed
#[derive(Copy, Clone, Eq, PartialOrd, Ord, PartialEq, Hash, Debug, Structural)]
pub enum Speed {
    /// Low speed (1.5 Mbit)
    Low,
    /// Full speed (12 Mbit)
    Full,
    /// High speed (480 Mbit)
    High,
    /// Super speed (5000 Mbit)
    Super,
    /// Super speed (10000 Mbit)
    SuperPlus,
}

impl Speed {
    /// The speed that a word stands for: its name, or its rate in Mbit.
    pub open spec fn of_text(s: Seq<char>) -> Option<Speed> {
        if s == "low"@ || s == "1.5"@ {
            Some(Speed::Low)
        } else if s == "full"@ || s == "12"@ {
            Some(Speed::Full)
        } else if s == "high"@ || s == "480"@ {
            Some(Speed::High)
        } else if s == "super"@ || s == "5000"@ {
            Some(Speed::Super)
        } else if s == "super+"@ || s == "10000"@ {
            Some(Speed::SuperPlus)
        } else {
            None
        }
    }

    /// Read a speed.
    pub fn from_str(s: &str) -> (r: Option<Speed>)
        ensures
            r == Speed::of_text(s@),
    {
        let s = text::chars_of(s);
        let s = s.as_slice();
        if text::is_word(s, "low") || text::is_word(s, "1.5") {
            Some(Speed::Low)
        } else if text::is_word(s, "full") || text::is_word(s, "12") {
            Some(Speed::Full)
        } else if text::is_word(s, "high") || text::is_word(s, "480") {
            Some(Speed::High)
        } else if text::is_word(s, "super") || text::is_word(s, "5000") {
            Some(Speed::Super)
        } else if text::is_word(s, "super+") || text::is_word(s, "10000") {
            Some(Speed::SuperPlus)
        } else {
            None
        }
    }
}

/// A speed is read from its name, or from its number of megabits per second, and from nothing else.
pub proof fn law_speeds_have_names(s: Seq<char>)
    ensures
        Speed::of_text(s) == Some(Speed::Low) <==> s == seq!['l', 'o', 'w'] || s == seq![
            '1',
            '.',
            '5',
        ],
        Speed::of_text(s) == Some(Speed::Full) <==> s == seq!['f', 'u', 'l', 'l'] || s == seq![
            '1',
            '2',
        ],
        Speed::of_text(s) == Some(Speed::High) <==> s == seq!['h', 'i', 'g', 'h'] || s == seq![
            '4',
            '8',
            '0',
        ],
        Speed::of_text(s) == Some(Speed::Super) <==> s == seq!['s', 'u', 'p', 'e', 'r'] || s
            == seq!['5', '0', '0', '0'],
        Speed::of_text(s) == Some(Speed::SuperPlus) <==> s == seq!['s', 'u', 'p', 'e', 'r', '+']
            || s == seq!['1', '0', '0', '0', '0'],
{
    reveal_strlit("low");
    reveal_strlit("1.5");
    reveal_strlit("full");
    reveal_strlit("12");
    reveal_strlit("high");
    reveal_strlit("480");
    reveal_strlit("super");
    reveal_strlit("5000");
    reveal_strlit("super+");
    reveal_strlit("10000");
    assert("low"@ =~= seq!['l', 'o', 'w'] && "1.5"@ =~= seq!['1', '.', '5']);
    assert("full"@ =~= seq!['f', 'u', 'l', 'l'] && "12"@ =~= seq!['1', '2']);
    assert("high"@ =~= seq!['h', 'i', 'g', 'h'] && "480"@ =~= seq!['4', '8', '0']);
    assert("super"@ =~= seq!['s', 'u', 'p', 'e', 'r'] && "5000"@ =~= seq!['5', '0', '0', '0']);
    assert("super+"@ =~= seq!['s', 'u', 'p', 'e', 'r', '+']);
    assert("10000"@ =~= seq!['1', '0', '0', '0', '0']);
    assert("low"@[0] == 'l' && "1.5"@[1] == '.' && "full"@[0] == 'f' && "12"@.len() == 2);
    assert("high"@[0] == 'h' && "480"@[0] == '4' && "super"@[0] == 's' && "5000"@[0] == '5');
    assert("super+"@.len() == 6 && "10000"@[0] == '1' && "10000"@.len() == 5);
}

/// USB host controller type
#[derive(Copy, Clone, Eq, PartialOrd, Ord, PartialEq, Hash, Debug, Structural)]
pub enum UsbControllerType {
    /// xHCI controller (USB 3.0+)
    XHCI,
    /// EHCI controller (USB 2.0)
    EHCI,
    /// OHCI controller (USB 1.1)
    OHCI,
    /// UHCI controller (USB 1.x) (proprietary interface created by Intel)
    UHCI,
    /// VHCI controller (virtual internal USB)
    VHCI,
}

/// Whether the letters `hci`, in either case, stand at index `i`.
pub open spec fn hci_at(s: Seq<char>, i: int) -> bool {
    &&& 0 <= i <= s.len() - 3
    &&& text::lower(s[i]) == 'h'
    &&& text::lower(s[i + 1]) == 'c'
    &&& text::lower(s[i + 2]) == 'i'
}

/// The first place from `i` on where the letters `hci` stand, in either case.
pub open spec fn first_hci(s: Seq<char>, i: int) -> Option<int>
    decreases s.len() - i,
{
    if i > s.len() - 3 {
        None
    } else if hci_at(s, i) {
        Some(i)
    } else {
        first_hci(s, i + 1)
    }
}

impl UsbControllerType {
    /// The controller type that a letter stands for, in either case.
    pub open spec fn of_letter(c: char) -> Option<UsbControllerType> {
        if text::lower(c) == 'x' {
            Some(UsbControllerType::XHCI)
        } else if text::lower(c) == 'e' {
            Some(UsbControllerType::EHCI)
        } else if text::lower(c) == 'o' {
            Some(UsbControllerType::OHCI)
        } else if text::lower(c) == 'v' {
            Some(UsbControllerType::VHCI)
        } else if text::lower(c) == 'u' {
            Some(UsbControllerType::UHCI)
        } else {
            None
        }
    }

    /// The controller type in the name of a driver: the letter before the first `hci`.
    pub open spec fn of_text(s: Seq<char>) -> Option<UsbControllerType> {
        match first_hci(s, 0) {
            Some(i) => if i > 0 {
                UsbControllerType::of_letter(s[i - 1])
            } else {
                None
            },
            None => None,
        }
    }

    /// Find the controller type in the name of a driver.
    pub fn from_str(s: &str) -> (r: Option<UsbControllerType>)
        ensures
            r == UsbControllerType::of_text(s@),
    {
        let chars = text::chars_of(s);
        let mut i: usize = 0;
        while chars.len() >= 3 && i <= chars.len() - 3
            invariant
                chars@ == s@,
                first_hci(s@, 0) == first_hci(s@, i as int),
                i <= s@.len(),
            decreases s@.len() - i,
        {
            if text::to_lower(chars[i]) == 'h' && text::to_lower(chars[i + 1]) == 'c'
                && text::to_lower(chars[i + 2]) == 'i' {
                if i == 0 {
                    return None;
                }
                return match text::to_lower(chars[i - 1]) {
                    'x' => Some(UsbControllerType::XHCI),
                    'e' => Some(UsbControllerType::EHCI),
                    'o' => Some(UsbControllerType::OHCI),
                    'v' => Some(UsbControllerType::VHCI),
                    'u' => Some(UsbControllerType::UHCI),
                    _ => None,
                };
            }
            i = i + 1;
        }
        None
    }
}

/// The type of a controller is told by the letter before the first `hci` in the name of its driver,
/// in either case. A name without one tells nothing.
pub proof fn law_letter_before_hci_tells(s: Seq<char>, i: int)
    requires
        0 <= i <= s.len() - 3,
        s[i] == 'h' || s[i] == 'H',
        s[i + 1] == 'c' || s[i + 1] == 'C',
        s[i + 2] == 'i' || s[i + 2] == 'I',
        forall|j: int|
            0 <= j < i ==> !((#[trigger] s[j] == 'h' || s[j] == 'H') && (s[j + 1] == 'c' || s[j + 1]
                == 'C') && (s[j + 2] == 'i' || s[j + 2] == 'I')),
    ensures
        i == 0 ==> UsbControllerType::of_text(s) is None,
        i > 0 ==> {
            let c = s[i - 1];
            let r = UsbControllerType::of_text(s);
            &&& r == Some(UsbControllerType::XHCI) <==> c == 'x' || c == 'X'
            &&& r == Some(UsbControllerType::EHCI) <==> c == 'e' || c == 'E'
            &&& r == Some(UsbControllerType::OHCI) <==> c == 'o' || c == 'O'
            &&& r == Some(UsbControllerType::UHCI) <==> c == 'u' || c == 'U'
            &&& r == Some(UsbControllerType::VHCI) <==> c == 'v' || c == 'V'
        },
{
    lemma_first_hci(s, 0, i);
}

/// A name in which `hci` does not occur, in either case, tells no type of controller.
pub proof fn law_no_hci_tells_nothing(s: Seq<char>)
    requires
        forall|j: int|
            0 <= j <= s.len() - 3 ==> !((#[trigger] s[j] == 'h' || s[j] == 'H') && (s[j + 1] == 'c'
                || s[j + 1] == 'C') && (s[j + 2] == 'i' || s[j + 2] == 'I')),
    ensures
        UsbControllerType::of_text(s) is None,
{
    lemma_no_hci(s, 0);
}

proof fn lemma_first_hci(s: Seq<char>, from: int, i: int)
    requires
        0 <= from <= i <= s.len() - 3,
        hci_at(s, i),
        forall|j: int|
            0 <= j < i ==> !((#[trigger] s[j] == 'h' || s[j] == 'H') && (s[j + 1] == 'c' || s[j + 1]
                == 'C') && (s[j + 2] == 'i' || s[j + 2] == 'I')),
    ensures
        first_hci(s, from) == Some(i),
    decreases i - from,
{
    if from < i {
        let a = s[from];
        assert(!hci_at(s, from));
        lemma_first_hci(s, from + 1, i);
    }
}

proof fn lemma_no_hci(s: Seq<char>, from: int)
    requires
        0 <= from,
        forall|j: int|
            0 <= j <= s.len() - 3 ==> !((#[trigger] s[j] == 'h' || s[j] == 'H') && (s[j + 1] == 'c'
                || s[j + 1] == 'C') && (s[j + 2] == 'i' || s[j + 2] == 'I')),
    ensures
        first_hci(s, from) is None,
    decreases s.len() - from,
{
    if from <= s.len() - 3 {
        let a = s[from];
        assert(!hci_at(s, from));
        lemma_no_hci(s, from + 1);
    }
}

/// What is known of a bus on one platform only.
pub enum PlatformBusInfo {
    /// The path in sysfs, the phony root hub device, and the bus number
    Linux { path: SysfsPath, root_hub: DeviceInfo, busnum: u8 },
    Illumos,
    MacOs {
        registry_id: u64,
        location_id: u32,
        provider_class_name: String,
        class_name: String,
        name: Option<String>,
    },
    Windows {
        instance_id: Vec<u16>,
        location_paths: Vec<Vec<u16>>,
        devinst: u32,
        root_hub_description: String,
        parent_instance_id: Vec<u16>,
    },
}

/// [`PlatformBusInfo`] with its texts as sequences.
#[verifier::ext_equal]
pub enum PlatformBusModel {
    Linux { path: Seq<char>, root_hub: DeviceInfoModel, busnum: u8 },
    Illumos,
    MacOs {
        registry_id: u64,
        location_id: u32,
        provider_class_name: Seq<char>,
        class_name: Seq<char>,
        name: Option<Seq<char>>,
    },
    Windows {
        instance_id: Seq<u16>,
        location_paths: Seq<Seq<u16>>,
        devinst: u32,
        root_hub_description: Seq<char>,
        parent_instance_id: Seq<u16>,
    },
}

impl View for PlatformBusInfo {
    type V = PlatformBusModel;

    open spec fn view(&self) -> PlatformBusModel {
        match *self {
            PlatformBusInfo::Linux { path, root_hub, busnum } => PlatformBusModel::Linux {
                path: path.0@,
                root_hub: root_hub@,
                busnum,
            },
            PlatformBusInfo::Illumos => PlatformBusModel::Illumos,
            PlatformBusInfo::MacOs {
                registry_id,
                location_id,
                provider_class_name,
                class_name,
                name,
            } => PlatformBusModel::MacOs {
                registry_id,
                location_id,
                provider_class_name: provider_class_name@,
                class_name: class_name@,
                name: opt_text(name),
            },
            PlatformBusInfo::Windows {
                instance_id,
                location_paths,
                devinst,
                root_hub_description,
                parent_instance_id,
            } => PlatformBusModel::Windows {
                instance_id: instance_id@,
                location_paths: location_paths@.map_values(|p: Vec<u16>| p@),
                devinst,
                root_hub_description: root_hub_description@,
                parent_instance_id: parent_instance_id@,
            },
        }
    }
}

/// Information about a system USB bus.
///
/// Platform-specific fields:
/// * Linux: `path`, `busnum`, `root_hub`
/// * Windows: `instance_id`, `parent_instance_id`, `location_paths`, `devinst`, `root_hub_description`
/// * macOS: `registry_id`, `location_id`, `name`, `provider_class_name`, `class_name`
pub struct BusInfo {
    pub platform: PlatformBusInfo,
    pub driver: Option<String>,
    /// System ID for the bus
    pub bus_id: String,
    /// Detected USB controller type
    pub controller_type: Option<UsbControllerType>,
}

/// [`BusInfo`] with its texts as sequences.
#[verifier::ext_equal]
pub struct BusInfoModel {
    pub platform: PlatformBusModel,
    pub driver: Option<Seq<char>>,
    pub bus_id: Seq<char>,
    pub controller_type: Option<UsbControllerType>,
}

impl View for BusInfo {
    type V = BusInfoModel;

    open spec fn view(&self) -> BusInfoModel {
        BusInfoModel {
            platform: self.platform@,
            driver: opt_text(self.driver),
            bus_id: self.bus_id@,
            controller_type: self.controller_type,
        }
    }
}

/// What is known of a bus is what is stored of it, each part in its place, and the name that the
/// system has for it is that of its root hub.
pub proof fn law_bus_shows_its_parts(b: BusInfo)
    ensures
        b@.driver is Some <==> b.driver is Some,
        b.driver matches Some(t) ==> b@.driver == Some(t@),
        b@.bus_id == b.bus_id@,
        b@.controller_type == b.controller_type,
        b.platform matches PlatformBusInfo::Linux { path, root_hub, busnum } ==> {
            &&& b@.platform == (PlatformBusModel::Linux {
                path: path.0@,
                root_hub: root_hub@,
                busnum,
            })
            &&& b@.system_name() == root_hub@.product_string
        },
        b.platform is Illumos ==> b@.platform is Illumos && b@.system_name() is None,
        b.platform matches PlatformBusInfo::MacOs {
            registry_id,
            location_id,
            provider_class_name,
            class_name,
            name,
        } ==> (b@.platform matches PlatformBusModel::MacOs {
            registry_id: r,
            location_id: l,
            provider_class_name: p,
            class_name: c,
            name: n,
        } && r == registry_id && l == location_id && p == provider_class_name@ && c == class_name@
            && (n is Some <==> name is Some) && (name matches Some(t) ==> n == Some(t@))
            && b@.system_name() == n),
        b@.platform matches PlatformBusModel::Windows { root_hub_description, .. }
            ==> b@.system_name() == Some(root_hub_description),
        b.platform matches PlatformBusInfo::Windows {
            instance_id,
            location_paths,
            devinst,
            root_hub_description,
            parent_instance_id,
        } ==> (b@.platform matches PlatformBusModel::Windows {
            instance_id: i,
            location_paths: l,
            devinst: x,
            root_hub_description: t,
            parent_instance_id: p,
        } && i == instance_id@ && l == location_paths@.map_values(|s: Vec<u16>| s@) && x == devinst
            && t == root_hub_description@ && p == parent_instance_id@),
{
}

impl BusInfoModel {
    /// System name of the bus
    pub open spec fn system_name(self) -> Option<Seq<char>> {
        match self.platform {
            PlatformBusModel::Linux { root_hub, .. } => root_hub.product_string,
            PlatformBusModel::Illumos => None,
            PlatformBusModel::MacOs { name, .. } => name,
            PlatformBusModel::Windows { root_hub_description, .. } => Some(root_hub_description),
        }
    }
}

impl BusInfo {
    /// *(Linux-only)* Sysfs path for the bus.
    pub fn sysfs_path(&self) -> (r: &str)
        requires
            self.platform is Linux,
        ensures
            self@.platform matches PlatformBusModel::Linux { path, .. } && r@ == path,
    {
        match &self.platform {
            PlatformBusInfo::Linux { path, .. } => path.0.as_str(),
            _ => vstd::pervasive::unreached(),
        }
    }

    /// *(Linux-only)* Bus number.
    ///
    /// On Linux, the `bus_id` is an integer and this provides the value as `u8`.
    pub fn busnum(&self) -> (r: u8)
        requires
            self.platform is Linux,
        ensures
            self@.platform matches PlatformBusModel::Linux { busnum, .. } && r == busnum,
    {
        match &self.platform {
            PlatformBusInfo::Linux { busnum, .. } => *busnum,
            _ => vstd::pervasive::unreached(),
        }
    }

    /// *(Linux-only)* The root hub [`DeviceInfo`] representing the bus.
    pub fn root_hub(&self) -> (r: &DeviceInfo)
        requires
            self.platform is Linux,
        ensures
            self@.platform matches PlatformBusModel::Linux { root_hub, .. } && r@ == root_hub,
    {
        match &self.platform {
            PlatformBusInfo::Linux { root_hub, .. } => root_hub,
            _ => vstd::pervasive::unreached(),
        }
    }

    /// *(Windows-only)* Instance ID path of this device
    pub fn instance_id(&self) -> (r: &[u16])
        requires
            self.platform is Windows,
        ensures
            self@.platform matches PlatformBusModel::Windows { instance_id, .. } && r@ == instance_id,
    {
        match &self.platform {
            PlatformBusInfo::Windows { instance_id, .. } => instance_id.as_slice(),
            _ => vstd::pervasive::unreached(),
        }
    }

    /// *(Windows-only)* Instance ID path of the parent device
    pub fn parent_instance_id(&self) -> (r: &[u16])
        requires
            self.platform is Windows,
        ensures
            self@.platform matches PlatformBusModel::Windows { parent_instance_id, .. } && r@ == parent_instance_id,
    {
        match &self.platform {
            PlatformBusInfo::Windows { parent_instance_id, .. } => parent_instance_id.as_slice(),
            _ => vstd::pervasive::unreached(),
        }
    }

    /// *(Windows-only)* Location paths property
    pub fn location_paths(&self) -> (r: &[Vec<u16>])
        requires
            self.platform is Windows,
        ensures
            self@.platform matches PlatformBusModel::Windows { location_paths, .. } && r@.map_values(|p: Vec<u16>| p@) == location_paths,
    {
        match &self.platform {
            PlatformBusInfo::Windows { location_paths, .. } => location_paths.as_slice(),
            _ => vstd::pervasive::unreached(),
        }
    }

    /// *(Windows-only)* Device Instance ID
    pub fn devinst(&self) -> (r: u32)
        requires
            self.platform is Windows,
        ensures
            self@.platform matches PlatformBusModel::Windows { devinst, .. } && r == devinst,
    {
        match &self.platform {
            PlatformBusInfo::Windows { devinst, .. } => *devinst,
            _ => vstd::pervasive::unreached(),
        }
    }

    /// *(macOS-only)* IOKit Location ID
    pub fn location_id(&self) -> (r: u32)
        requires
            self.platform is MacOs,
        ensures
            self@.platform matches PlatformBusModel::MacOs { location_id, .. } && r == location_id,
    {
        match &self.platform {
            PlatformBusInfo::MacOs { location_id, .. } => *location_id,
            _ => vstd::pervasive::unreached(),
        }
    }

    /// *(macOS-only)* IOKit Registry Entry ID
    pub fn registry_entry_id(&self) -> (r: u64)
        requires
            self.platform is MacOs,
        ensures
            self@.platform matches PlatformBusModel::MacOs { registry_id, .. } && r == registry_id,
    {
        match &self.platform {
            PlatformBusInfo::MacOs { registry_id, .. } => *registry_id,
            _ => vstd::pervasive::unreached(),
        }
    }

    /// *(macOS-only)* IOKit provider class name
    pub fn provider_class_name(&self) -> (r: &str)
        requires
            self.platform is MacOs,
        ensures
            self@.platform matches PlatformBusModel::MacOs { provider_class_name, .. } && r@ == provider_class_name,
    {
        match &self.platform {
            PlatformBusInfo::MacOs { provider_class_name, .. } => provider_class_name.as_str(),
            _ => vstd::pervasive::unreached(),
        }
    }

    /// *(macOS-only)* IOKit class name
    pub fn class_name(&self) -> (r: &str)
        requires
            self.platform is MacOs,
        ensures
            self@.platform matches PlatformBusModel::MacOs { class_name, .. } && r@ == class_name,
    {
        match &self.platform {
            PlatformBusInfo::MacOs { class_name, .. } => class_name.as_str(),
            _ => vstd::pervasive::unreached(),
        }
    }

    /// *(macOS-only)* Name of the bus
    pub fn name(&self) -> (r: Option<&str>)
        requires
            self.platform is MacOs,
        ensures
            self@.platform matches PlatformBusModel::MacOs { name, .. } && text_of(r) == name,
    {
        match &self.platform {
            PlatformBusInfo::MacOs { name, .. } => text::as_deref(name),
            _ => vstd::pervasive::unreached(),
        }
    }

    /// Driver associated with the bus
    pub fn driver(&self) -> (r: Option<&str>)
        ensures
            text_of(r) == self@.driver,
    {
        text::as_deref(&self.driver)
    }

    /// Identifier for the bus
    pub fn bus_id(&self) -> (r: &str)
        ensures
            r@ == self@.bus_id,
    {
        self.bus_id.as_str()
    }

    /// Detected USB controller type
    ///
    /// None means the controller type could not be determined.
    pub fn controller_type(&self) -> (r: Option<UsbControllerType>)
        ensures
            r == self@.controller_type,
    {
        self.controller_type
    }

    /// System name of the bus
    ///
    /// ### Platform-specific notes
    ///
    /// * Linux: The root hub product string.
    /// * macOS: The `IONameMatched` key of the IOService entry.
    /// * Windows: Description field of the root hub device. How the bus will appear in Device
    ///   Manager.
    pub fn system_name(&self) -> (r: Option<&str>)
        ensures
            text_of(r) == self@.system_name(),
    {
        match &self.platform {
            PlatformBusInfo::Linux { root_hub, .. } => root_hub.product_string(),
            PlatformBusInfo::Illumos => None,
            PlatformBusInfo::MacOs { name, .. } => text::as_deref(name),
            PlatformBusInfo::Windows { root_hub_description, .. } => Some(
                root_hub_description.as_str(),
            ),
        }
    }
}

/// What is known of each of several buses.
pub open spec fn bus_infos(v: Seq<BusInfo>) -> Seq<BusInfoModel> {
    v.map_values(|b: BusInfo| b@)
}

/// The controller type in the name of a driver, if there is one.
pub open spec fn controller_type_of(driver: Option<Seq<char>>) -> Option<UsbControllerType> {
    match driver {
        Some(name) => UsbControllerType::of_text(name),
        None => None,
    }
}

/// A bus whose driver is not known tells no type of controller, and any other that in the name of it.
pub proof fn law_driver_tells_controller(name: Seq<char>)
    ensures
        controller_type_of(None) is None,
        controller_type_of(Some(name)) == UsbControllerType::of_text(name),
{
}

/// A text that is there is the same whether it is owned or borrowed, and one that is not there is none.
pub proof fn law_texts_are_there_or_not(owned: String, borrowed: &str)
    ensures
        opt_text(None) is None,
        opt_text(Some(owned)) == Some(owned@),
        text_of(None) is None,
        text_of(Some(borrowed)) == Some(borrowed@),
{
}

/// Find the controller type in the name of a driver, if there is one.
pub(crate) fn find_controller_type(driver: &Option<String>) -> (r: Option<UsbControllerType>)
    ensures
        r == controller_type_of(opt_text(*driver)),
{
    match driver {
        Some(name) => UsbControllerType::from_str(name.as_str()),
        None => None,
    }
}

} // verus!
