//! What the debug output of devices, interfaces, buses and descriptors shows.
//!
//! Some numbers are shown in hexadecimal, and which fields there are differs by platform.

use vstd::prelude::*;

use crate::descriptors::{self, Configuration, Endpoint, InterfaceAltSetting};
use crate::enumeration::{
    self, BusInfo, BusInfoModel, DeviceInfo, DeviceInfoModel, InterfaceInfo, InterfaceInfoModel,
    PlatformBusInfo, PlatformBusModel, PlatformInfo, PlatformModel, Speed, UsbControllerType,
};
use crate::text;
use crate::transfer::{Direction, EndpointType};

verus! {

/// The value of a field of the debug output.
pub enum FieldValue {
    Unsigned(u32),
    Signed(i32),
    /// A number that is written in hexadecimal already
    Hex(String),
    Text(String),
    OptionalText(Option<String>),
    Bytes(Vec<u8>),
    /// Text in the encoding of Windows
    WideText(Vec<u16>),
    WideTexts(Vec<Vec<u16>>),
    OptionalSpeed(Option<Speed>),
    OptionalControllerType(Option<UsbControllerType>),
    OptionalIndex(Option<u8>),
    Direction(Direction),
    TransferType(EndpointType),
    /// All interfaces of the device
    Interfaces,
    /// All alternate settings of the configuration
    AltSettings,
    /// All endpoints of the alternate setting
    Endpoints,
}

/// [`FieldValue`] with its texts and lists as sequences.
#[verifier::ext_equal]
pub enum FieldValueModel {
    Unsigned(u32),
    Signed(i32),
    Hex(Seq<char>),
    Text(Seq<char>),
    OptionalText(Option<Seq<char>>),
    Bytes(Seq<u8>),
    WideText(Seq<u16>),
    WideTexts(Seq<Seq<u16>>),
    OptionalSpeed(Option<Speed>),
    OptionalControllerType(Option<UsbControllerType>),
    OptionalIndex(Option<u8>),
    Direction(Direction),
    TransferType(EndpointType),
    Interfaces,
    AltSettings,
    Endpoints,
}

impl View for FieldValue {
    type V = FieldValueModel;

    open spec fn view(&self) -> FieldValueModel {
        match *self {
            FieldValue::Unsigned(n) => FieldValueModel::Unsigned(n),
            FieldValue::Signed(n) => FieldValueModel::Signed(n),
            FieldValue::Hex(s) => FieldValueModel::Hex(s@),
            FieldValue::Text(s) => FieldValueModel::Text(s@),
            FieldValue::OptionalText(s) => FieldValueModel::OptionalText(enumeration::opt_text(s)),
            FieldValue::Bytes(b) => FieldValueModel::Bytes(b@),
            FieldValue::WideText(s) => FieldValueModel::WideText(s@),
            FieldValue::WideTexts(v) => FieldValueModel::WideTexts(
                v@.map_values(|s: Vec<u16>| s@),
            ),
            FieldValue::OptionalSpeed(s) => FieldValueModel::OptionalSpeed(s),
            FieldValue::OptionalControllerType(t) => FieldValueModel::OptionalControllerType(t),
            FieldValue::OptionalIndex(i) => FieldValueModel::OptionalIndex(i),
            FieldValue::Direction(d) => FieldValueModel::Direction(d),
            FieldValue::TransferType(t) => FieldValueModel::TransferType(t),
            FieldValue::Interfaces => FieldValueModel::Interfaces,
            FieldValue::AltSettings => FieldValueModel::AltSettings,
            FieldValue::Endpoints => FieldValueModel::Endpoints,
        }
    }
}

/// A field of the debug output.
pub struct Field {
    pub name: &'static str,
    pub value: FieldValue,
}

/// A field by its name and value.
pub type FieldModel = (Seq<char>, FieldValueModel);

/// Fields by their names and values.
pub open spec fn field_models(fields: Seq<Field>) -> Seq<FieldModel> {
    fields.map_values(|f: Field| (f.name@, f.value@))
}

/// A number as it is shown in hexadecimal, with at least `width` digits.
pub open spec fn hex(n: nat, width: nat) -> FieldValueModel {
    FieldValueModel::Hex("0x"@ + text::zero_padded(text::digits_of(n, 16), width))
}

/// A number is shown as `0x` and its hexadecimal digits, with zeros in front of them up to the width.
pub proof fn law_numbers_are_shown_in_hex(n: nat, width: nat)
    ensures
        hex(n, width) == FieldValueModel::Hex(
            seq!['0', 'x'] + text::zero_padded(text::digits_of(n, 16), width),
        ),
{
    reveal_strlit("0x");
    assert("0x"@ =~= seq!['0', 'x']);
}

/// A value that is shown is the one that was given.
pub proof fn law_values_are_shown(v: FieldValue)
    ensures
        v matches FieldValue::Unsigned(x) ==> v@ == FieldValueModel::Unsigned(x),
        v matches FieldValue::Signed(x) ==> v@ == FieldValueModel::Signed(x),
        v matches FieldValue::Hex(x) ==> v@ == FieldValueModel::Hex(x@),
        v matches FieldValue::Text(x) ==> v@ == FieldValueModel::Text(x@),
        v matches FieldValue::OptionalText(Some(x)) ==> v@ == FieldValueModel::OptionalText(
            Some(x@),
        ),
        v matches FieldValue::OptionalText(None) ==> v@ == FieldValueModel::OptionalText(None),
        v matches FieldValue::Bytes(x) ==> v@ == FieldValueModel::Bytes(x@),
        v matches FieldValue::WideText(x) ==> v@ == FieldValueModel::WideText(x@),
        v matches FieldValue::WideTexts(x) ==> v@ == FieldValueModel::WideTexts(
            x@.map_values(|s: Vec<u16>| s@),
        ),
        v matches FieldValue::OptionalSpeed(x) ==> v@ == FieldValueModel::OptionalSpeed(x),
        v matches FieldValue::OptionalControllerType(x) ==> v@
            == FieldValueModel::OptionalControllerType(x),
        v matches FieldValue::OptionalIndex(x) ==> v@ == FieldValueModel::OptionalIndex(x),
        v matches FieldValue::Direction(x) ==> v@ == FieldValueModel::Direction(x),
        v matches FieldValue::TransferType(x) ==> v@ == FieldValueModel::TransferType(x),
        v is Interfaces <==> v@ is Interfaces,
        v is AltSettings <==> v@ is AltSettings,
        v is Endpoints <==> v@ is Endpoints,
{
}

fn write_hex(n: u64, width: usize) -> (r: FieldValue)
    ensures
        r@ == hex(n as nat, width as nat),
{
    let mut s = String::from_str("0x");
    let digits = text::write_padded(n, 16, width);
    s.append(digits.as_str());
    FieldValue::Hex(s)
}

fn push(fields: &mut Vec<Field>, name: &'static str, value: FieldValue)
    ensures
        field_models(final(fields)@) == field_models(old(fields)@).push((name@, value@)),
{
    fields.push(Field { name, value });
    assert(field_models(fields@) =~= field_models(old(fields)@).push((name@, value@)));
}

fn optional(s: Option<&str>) -> (r: FieldValue)
    ensures
        r@ == FieldValueModel::OptionalText(enumeration::text_of(s)),
{
    match s {
        Some(s) => FieldValue::OptionalText(Some(String::from_str(s))),
        None => FieldValue::OptionalText(None),
    }
}

fn copy_wide(s: &[u16]) -> (r: Vec<u16>)
    ensures
        r@ == s@,
{
    vstd::slice::slice_to_vec(s)
}

fn copy_wides(v: &[Vec<u16>]) -> (r: FieldValue)
    ensures
        r@ == FieldValueModel::WideTexts(v@.map_values(|s: Vec<u16>| s@)),
{
    let mut out: Vec<Vec<u16>> = Vec::new();
    let mut i: usize = 0;
    while i < v.len()
        invariant
            i <= v@.len(),
            out@.len() == i,
            forall|k: int| 0 <= k < i ==> (#[trigger] out@[k])@ == v@[k]@,
        decreases v@.len() - i,
    {
        out.push(copy_wide(v[i].as_slice()));
        i = i + 1;
    }
    assert(out@.map_values(|s: Vec<u16>| s@) =~= v@.map_values(|s: Vec<u16>| s@));
    FieldValue::WideTexts(out)
}

/// The fields that say where a device is connected.
pub open spec fn place_fields(d: DeviceInfoModel) -> Seq<FieldModel> {
    match d.platform {
        PlatformModel::Android { device_id } => seq![
            ("device_id"@, FieldValueModel::Signed(device_id)),
        ],
        PlatformModel::WebUsb { .. } | PlatformModel::Illumos { .. } => seq![],
        _ => seq![
            ("bus_id"@, FieldValueModel::Text(d.bus_id)),
            ("device_address"@, FieldValueModel::Unsigned(d.device_address as u32)),
            ("port_chain"@, FieldValueModel::Bytes(d.port_chain)),
        ],
    }
}

/// The field with the version of a device, where it is shown.
pub open spec fn version_fields(d: DeviceInfoModel) -> Seq<FieldModel> {
    match d.platform {
        PlatformModel::Android { .. } | PlatformModel::WebUsb { .. } | PlatformModel::Illumos {
            ..
        } => seq![],
        _ => seq![("device_version"@, hex(d.device_version as nat, 4))],
    }
}

/// The fields that a device has on its platform only.
pub open spec fn platform_fields(d: DeviceInfoModel) -> Seq<FieldModel> {
    match d.platform {
        PlatformModel::Linux { path, .. } => seq![("sysfs_path"@, FieldValueModel::Text(path))],
        PlatformModel::Windows {
            instance_id,
            location_paths,
            parent_instance_id,
            port_number,
            driver,
            ..
        } => seq![
            ("instance_id"@, FieldValueModel::WideText(instance_id)),
            ("parent_instance_id"@, FieldValueModel::WideText(parent_instance_id)),
            ("location_paths"@, FieldValueModel::WideTexts(location_paths)),
            ("port_number"@, FieldValueModel::Unsigned(port_number)),
            ("driver"@, FieldValueModel::OptionalText(driver)),
        ],
        PlatformModel::MacOs { registry_id, location_id } => seq![
            ("location_id"@, hex(location_id as nat, 8)),
            ("registry_entry_id"@, hex(registry_id as nat, 8)),
        ],
        _ => seq![],
    }
}

/// All that is shown of a device.
pub open spec fn device_fields(d: DeviceInfoModel) -> Seq<FieldModel> {
    place_fields(d) + seq![
        ("vendor_id"@, hex(d.vendor_id as nat, 4)),
        ("product_id"@, hex(d.product_id as nat, 4)),
    ] + version_fields(d) + seq![
        ("usb_version"@, hex(d.usb_version as nat, 4)),
        ("class"@, hex(d.class as nat, 2)),
        ("subclass"@, hex(d.subclass as nat, 2)),
        ("protocol"@, hex(d.protocol as nat, 2)),
        ("speed"@, FieldValueModel::OptionalSpeed(d.speed)),
        ("manufacturer_string"@, FieldValueModel::OptionalText(d.manufacturer_string)),
        ("product_string"@, FieldValueModel::OptionalText(d.product_string)),
        ("serial_number"@, FieldValueModel::OptionalText(d.serial_number)),
    ] + platform_fields(d) + seq![("interfaces"@, FieldValueModel::Interfaces)]
}

/// Of a device the identifiers, versions, classes, speed and strings are shown under their names, between
/// where it is connected, if the platform tells, and what the platform has of it beyond that; the
/// interfaces come last.
pub proof fn law_device_fields_are_named(d: DeviceInfoModel)
    ensures
        ({
            let all = device_fields(d);
            let common = seq![
                ("usb_version"@, hex(d.usb_version as nat, 4)),
                ("class"@, hex(d.class as nat, 2)),
                ("subclass"@, hex(d.subclass as nat, 2)),
                ("protocol"@, hex(d.protocol as nat, 2)),
                ("speed"@, FieldValueModel::OptionalSpeed(d.speed)),
                ("manufacturer_string"@, FieldValueModel::OptionalText(d.manufacturer_string)),
                ("product_string"@, FieldValueModel::OptionalText(d.product_string)),
                ("serial_number"@, FieldValueModel::OptionalText(d.serial_number)),
            ];
            let ids = seq![
                ("vendor_id"@, hex(d.vendor_id as nat, 4)),
                ("product_id"@, hex(d.product_id as nat, 4)),
            ];
            let version = seq![("device_version"@, hex(d.device_version as nat, 4))];
            let place = seq![
                ("bus_id"@, FieldValueModel::Text(d.bus_id)),
                ("device_address"@, FieldValueModel::Unsigned(d.device_address as u32)),
                ("port_chain"@, FieldValueModel::Bytes(d.port_chain)),
            ];
            let last = seq![("interfaces"@, FieldValueModel::Interfaces)];
            match d.platform {
                PlatformModel::Linux { path, busnum } => all == place + ids + version + common + seq![
                    ("sysfs_path"@, FieldValueModel::Text(path)),
                ] + last,
                PlatformModel::MacOs { registry_id, location_id } => all == place + ids + version
                    + common + seq![
                    ("location_id"@, hex(location_id as nat, 8)),
                    ("registry_entry_id"@, hex(registry_id as nat, 8)),
                ] + last,
                PlatformModel::Windows {
                    instance_id,
                    location_paths,
                    parent_instance_id,
                    port_number,
                    devinst,
                    driver,
                } => all == place + ids + version + common + seq![
                    ("instance_id"@, FieldValueModel::WideText(instance_id)),
                    ("parent_instance_id"@, FieldValueModel::WideText(parent_instance_id)),
                    ("location_paths"@, FieldValueModel::WideTexts(location_paths)),
                    ("port_number"@, FieldValueModel::Unsigned(port_number)),
                    ("driver"@, FieldValueModel::OptionalText(driver)),
                ] + last,
                PlatformModel::Android { device_id } => all == seq![
                    ("device_id"@, FieldValueModel::Signed(device_id)),
                ] + ids + common + last,
                _ => all == ids + common + last,
            }
        }),
{
    let all = device_fields(d);
    let common = seq![
        ("usb_version"@, hex(d.usb_version as nat, 4)),
        ("class"@, hex(d.class as nat, 2)),
        ("subclass"@, hex(d.subclass as nat, 2)),
        ("protocol"@, hex(d.protocol as nat, 2)),
        ("speed"@, FieldValueModel::OptionalSpeed(d.speed)),
        ("manufacturer_string"@, FieldValueModel::OptionalText(d.manufacturer_string)),
        ("product_string"@, FieldValueModel::OptionalText(d.product_string)),
        ("serial_number"@, FieldValueModel::OptionalText(d.serial_number)),
    ];
    let ids = seq![
        ("vendor_id"@, hex(d.vendor_id as nat, 4)),
        ("product_id"@, hex(d.product_id as nat, 4)),
    ];
    let last = seq![("interfaces"@, FieldValueModel::Interfaces)];
    let none = Seq::<FieldModel>::empty();
    assert(none + ids =~= ids);
    assert(ids + none =~= ids);
    assert(place_fields(d) + ids + none =~= place_fields(d) + ids);
    assert(place_fields(d) + ids + common + none =~= place_fields(d) + ids + common);
    assert(ids + common + none =~= ids + common);
}

impl DeviceInfo {
    /// The fields that the debug output shows, in their order.
    pub fn debug_fields(&self) -> (r: Vec<Field>)
        ensures
            field_models(r@) == device_fields(self@),
            r@.len() == device_fields(self@).len(),
            forall|i: int|
                0 <= i < r@.len() ==> (#[trigger] r@[i]).name@ == device_fields(self@)[i].0 && r@[i].value@
                    == device_fields(self@)[i].1,
    {
        let mut s: Vec<Field> = Vec::new();
        assert(field_models(s@) =~= seq![]);
        match &self.platform {
            PlatformInfo::Android { device_id } => {
                push(&mut s, "device_id", FieldValue::Signed(*device_id));
            },
            PlatformInfo::WebUsb { .. } | PlatformInfo::Illumos { .. } => {},
            _ => {
                push(&mut s, "bus_id", FieldValue::Text(String::from_str(self.bus_id.as_str())));
                push(&mut s, "device_address", FieldValue::Unsigned(self.device_address as u32));
                push(
                    &mut s,
                    "port_chain",
                    FieldValue::Bytes(vstd::slice::slice_to_vec(self.port_chain.as_slice())),
                );
            },
        }
        assert(field_models(s@) =~= place_fields(self@));
        push(&mut s, "vendor_id", write_hex(self.vendor_id as u64, 4));
        push(&mut s, "product_id", write_hex(self.product_id as u64, 4));
        match &self.platform {
            PlatformInfo::Android { .. } | PlatformInfo::WebUsb { .. } | PlatformInfo::Illumos {
                ..
            } => {},
            _ => {
                push(&mut s, "device_version", write_hex(self.device_version as u64, 4));
            },
        }
        let ghost head = field_models(s@);
        assert(head =~= place_fields(self@) + seq![
            ("vendor_id"@, hex(self.vendor_id as nat, 4)),
            ("product_id"@, hex(self.product_id as nat, 4)),
        ] + version_fields(self@));
        push(&mut s, "usb_version", write_hex(self.usb_version as u64, 4));
        push(&mut s, "class", write_hex(self.class as u64, 2));
        push(&mut s, "subclass", write_hex(self.subclass as u64, 2));
        push(&mut s, "protocol", write_hex(self.protocol as u64, 2));
        push(&mut s, "speed", FieldValue::OptionalSpeed(self.speed));
        push(&mut s, "manufacturer_string", optional(self.manufacturer_string()));
        push(&mut s, "product_string", optional(self.product_string()));
        push(&mut s, "serial_number", optional(self.serial_number()));
        let ghost middle = field_models(s@);
        assert(middle =~= head + seq![
            ("usb_version"@, hex(self.usb_version as nat, 4)),
            ("class"@, hex(self.class as nat, 2)),
            ("subclass"@, hex(self.subclass as nat, 2)),
            ("protocol"@, hex(self.protocol as nat, 2)),
            ("speed"@, FieldValueModel::OptionalSpeed(self.speed)),
            ("manufacturer_string"@, FieldValueModel::OptionalText(self@.manufacturer_string)),
            ("product_string"@, FieldValueModel::OptionalText(self@.product_string)),
            ("serial_number"@, FieldValueModel::OptionalText(self@.serial_number)),
        ]);
        match &self.platform {
            PlatformInfo::Linux { path, .. } => {
                push(&mut s, "sysfs_path", FieldValue::Text(String::from_str(path.0.as_str())));
            },
            PlatformInfo::Windows {
                instance_id,
                location_paths,
                parent_instance_id,
                port_number,
                driver,
                ..
            } => {
                push(
                    &mut s,
                    "instance_id",
                    FieldValue::WideText(copy_wide(instance_id.as_slice())),
                );
                push(
                    &mut s,
                    "parent_instance_id",
                    FieldValue::WideText(copy_wide(parent_instance_id.as_slice())),
                );
                push(&mut s, "location_paths", copy_wides(location_paths.as_slice()));
                push(&mut s, "port_number", FieldValue::Unsigned(*port_number));
                push(&mut s, "driver", optional(text::as_deref(driver)));
            },
            PlatformInfo::MacOs { registry_id, location_id } => {
                push(&mut s, "location_id", write_hex(*location_id as u64, 8));
                push(&mut s, "registry_entry_id", write_hex(*registry_id, 8));
            },
            _ => {},
        }
        assert(field_models(s@) =~= middle + platform_fields(self@));
        push(&mut s, "interfaces", FieldValue::Interfaces);
        assert(field_models(s@) =~= device_fields(self@));
        s
    }
}

/// All that is shown of an interface.
pub open spec fn interface_fields(i: InterfaceInfoModel) -> Seq<FieldModel> {
    seq![
        ("interface_number"@, FieldValueModel::Unsigned(i.interface_number as u32)),
        ("class"@, hex(i.class as nat, 2)),
        ("subclass"@, hex(i.subclass as nat, 2)),
        ("protocol"@, hex(i.protocol as nat, 2)),
        ("interface_string"@, FieldValueModel::OptionalText(i.interface_string)),
    ]
}

/// Of an interface the number, the classes and the string are shown under their names.
pub proof fn law_interface_fields_are_named(i: InterfaceInfoModel)
    ensures
        interface_fields(i) == seq![
            ("interface_number"@, FieldValueModel::Unsigned(i.interface_number as u32)),
            ("class"@, hex(i.class as nat, 2)),
            ("subclass"@, hex(i.subclass as nat, 2)),
            ("protocol"@, hex(i.protocol as nat, 2)),
            ("interface_string"@, FieldValueModel::OptionalText(i.interface_string)),
        ],
{
}

impl InterfaceInfo {
    /// The fields that the debug output shows, in their order.
    pub fn debug_fields(&self) -> (r: Vec<Field>)
        ensures
            field_models(r@) == interface_fields(self@),
            r@.len() == interface_fields(self@).len(),
            forall|i: int|
                0 <= i < r@.len() ==> (#[trigger] r@[i]).name@ == interface_fields(self@)[i].0 && r@[i].value@
                    == interface_fields(self@)[i].1,
    {
        let mut s: Vec<Field> = Vec::new();
        push(&mut s, "interface_number", FieldValue::Unsigned(self.interface_number as u32));
        push(&mut s, "class", write_hex(self.class as u64, 2));
        push(&mut s, "subclass", write_hex(self.subclass as u64, 2));
        push(&mut s, "protocol", write_hex(self.protocol as u64, 2));
        push(&mut s, "interface_string", optional(self.interface_string()));
        assert(field_models(s@) =~= interface_fields(self@));
        s
    }
}

/// The fields that a bus has on its platform only.
pub open spec fn platform_bus_fields(b: BusInfoModel) -> Seq<FieldModel> {
    match b.platform {
        PlatformBusModel::Linux { path, busnum, .. } => seq![
            ("sysfs_path"@, FieldValueModel::Text(path)),
            ("busnum"@, FieldValueModel::Unsigned(busnum as u32)),
        ],
        PlatformBusModel::Illumos => seq![],
        PlatformBusModel::Windows { instance_id, parent_instance_id, location_paths, .. } => seq![
            ("instance_id"@, FieldValueModel::WideText(instance_id)),
            ("parent_instance_id"@, FieldValueModel::WideText(parent_instance_id)),
            ("location_paths"@, FieldValueModel::WideTexts(location_paths)),
        ],
        PlatformBusModel::MacOs {
            registry_id,
            location_id,
            provider_class_name,
            class_name,
            ..
        } => seq![
            ("location_id"@, hex(location_id as nat, 8)),
            ("registry_entry_id"@, hex(registry_id as nat, 8)),
            ("class_name"@, FieldValueModel::Text(class_name)),
            ("provider_class_name"@, FieldValueModel::Text(provider_class_name)),
        ],
    }
}

/// All that is shown of a bus.
pub open spec fn bus_fields(b: BusInfoModel) -> Seq<FieldModel> {
    platform_bus_fields(b) + seq![
        ("bus_id"@, FieldValueModel::Text(b.bus_id)),
        ("system_name"@, FieldValueModel::OptionalText(b.system_name())),
        ("controller_type"@, FieldValueModel::OptionalControllerType(b.controller_type)),
        ("driver"@, FieldValueModel::OptionalText(b.driver)),
    ]
}

/// Of a bus the ID, the name, the kind of controller and the driver are shown under their names, behind
/// what the platform has of it beyond that.
pub proof fn law_bus_fields_are_named(b: BusInfoModel)
    ensures
        ({
            let all = bus_fields(b);
            let common = seq![
                ("bus_id"@, FieldValueModel::Text(b.bus_id)),
                ("system_name"@, FieldValueModel::OptionalText(b.system_name())),
                ("controller_type"@, FieldValueModel::OptionalControllerType(b.controller_type)),
                ("driver"@, FieldValueModel::OptionalText(b.driver)),
            ];
            &&& b.platform matches PlatformBusModel::Linux { path, busnum, .. } ==> all == seq![
                ("sysfs_path"@, FieldValueModel::Text(path)),
                ("busnum"@, FieldValueModel::Unsigned(busnum as u32)),
            ] + common
            &&& b.platform matches PlatformBusModel::Illumos ==> all == common
            &&& b.platform matches PlatformBusModel::Windows {
                instance_id,
                parent_instance_id,
                location_paths,
                ..
            } ==> all == seq![
                ("instance_id"@, FieldValueModel::WideText(instance_id)),
                ("parent_instance_id"@, FieldValueModel::WideText(parent_instance_id)),
                ("location_paths"@, FieldValueModel::WideTexts(location_paths)),
            ] + common
            &&& b.platform matches PlatformBusModel::MacOs {
                registry_id,
                location_id,
                provider_class_name,
                class_name,
                ..
            } ==> all == seq![
                ("location_id"@, hex(location_id as nat, 8)),
                ("registry_entry_id"@, hex(registry_id as nat, 8)),
                ("class_name"@, FieldValueModel::Text(class_name)),
                ("provider_class_name"@, FieldValueModel::Text(provider_class_name)),
            ] + common
        }),
{
    let common = seq![
        ("bus_id"@, FieldValueModel::Text(b.bus_id)),
        ("system_name"@, FieldValueModel::OptionalText(b.system_name())),
        ("controller_type"@, FieldValueModel::OptionalControllerType(b.controller_type)),
        ("driver"@, FieldValueModel::OptionalText(b.driver)),
    ];
    assert(Seq::<FieldModel>::empty() + common =~= common);
}

impl BusInfo {
    /// The fields that the debug output shows, in their order.
    pub fn debug_fields(&self) -> (r: Vec<Field>)
        ensures
            field_models(r@) == bus_fields(self@),
            r@.len() == bus_fields(self@).len(),
            forall|i: int|
                0 <= i < r@.len() ==> (#[trigger] r@[i]).name@ == bus_fields(self@)[i].0 && r@[i].value@
                    == bus_fields(self@)[i].1,
    {
        let mut s: Vec<Field> = Vec::new();
        assert(field_models(s@) =~= seq![]);
        match &self.platform {
            PlatformBusInfo::Linux { path, busnum, .. } => {
                push(&mut s, "sysfs_path", FieldValue::Text(String::from_str(path.0.as_str())));
                push(&mut s, "busnum", FieldValue::Unsigned(*busnum as u32));
            },
            PlatformBusInfo::Illumos => {},
            PlatformBusInfo::Windows { instance_id, parent_instance_id, location_paths, .. } => {
                push(
                    &mut s,
                    "instance_id",
                    FieldValue::WideText(copy_wide(instance_id.as_slice())),
                );
                push(
                    &mut s,
                    "parent_instance_id",
                    FieldValue::WideText(copy_wide(parent_instance_id.as_slice())),
                );
                push(&mut s, "location_paths", copy_wides(location_paths.as_slice()));
            },
            PlatformBusInfo::MacOs {
                registry_id,
                location_id,
                provider_class_name,
                class_name,
                ..
            } => {
                push(&mut s, "location_id", write_hex(*location_id as u64, 8));
                push(&mut s, "registry_entry_id", write_hex(*registry_id, 8));
                push(
                    &mut s,
                    "class_name",
                    FieldValue::Text(String::from_str(class_name.as_str())),
                );
                push(
                    &mut s,
                    "provider_class_name",
                    FieldValue::Text(String::from_str(provider_class_name.as_str())),
                );
            },
        }
        let ghost head = field_models(s@);
        assert(head =~= platform_bus_fields(self@));
        push(&mut s, "bus_id", FieldValue::Text(String::from_str(self.bus_id.as_str())));
        push(&mut s, "system_name", optional(self.system_name()));
        push(
            &mut s,
            "controller_type",
            FieldValue::OptionalControllerType(self.controller_type),
        );
        push(&mut s, "driver", optional(self.driver()));
        assert(field_models(s@) =~= bus_fields(self@));
        s
    }
}

/// All that is shown of a configuration.
pub open spec fn configuration_fields(c: Seq<u8>) -> Seq<FieldModel> {
    seq![
        ("configuration_value"@, FieldValueModel::Unsigned(c[5] as u32)),
        ("num_interfaces"@, FieldValueModel::Unsigned(c[4] as u32)),
        ("attributes"@, FieldValueModel::Unsigned(c[7] as u32)),
        ("max_power"@, FieldValueModel::Unsigned(c[8] as u32)),
        ("string_index"@, FieldValueModel::OptionalIndex(descriptors::nonzero(c[6]))),
        ("interface_alt_settings"@, FieldValueModel::AltSettings),
    ]
}

/// What is shown of a configuration, an alternate setting and an endpoint is what is at the places of
/// the fields in their descriptors.
pub proof fn law_descriptor_fields_are_named(b: Seq<u8>)
    ensures
        configuration_fields(b) == seq![
            ("configuration_value"@, FieldValueModel::Unsigned(b[5] as u32)),
            ("num_interfaces"@, FieldValueModel::Unsigned(b[4] as u32)),
            ("attributes"@, FieldValueModel::Unsigned(b[7] as u32)),
            ("max_power"@, FieldValueModel::Unsigned(b[8] as u32)),
            (
                "string_index"@,
                FieldValueModel::OptionalIndex(
                    if b[6] == 0 {
                        None
                    } else {
                        Some(b[6])
                    },
                ),
            ),
            ("interface_alt_settings"@, FieldValueModel::AltSettings),
        ],
        alt_setting_fields(b) == seq![
            ("interface_number"@, FieldValueModel::Unsigned(b[2] as u32)),
            ("alternate_setting"@, FieldValueModel::Unsigned(b[3] as u32)),
            ("num_endpoints"@, FieldValueModel::Unsigned(b[4] as u32)),
            ("class"@, FieldValueModel::Unsigned(b[5] as u32)),
            ("subclass"@, FieldValueModel::Unsigned(b[6] as u32)),
            ("protocol"@, FieldValueModel::Unsigned(b[7] as u32)),
            (
                "string_index"@,
                FieldValueModel::OptionalIndex(
                    if b[8] == 0 {
                        None
                    } else {
                        Some(b[8])
                    },
                ),
            ),
            ("endpoints"@, FieldValueModel::Endpoints),
        ],
        endpoint_fields(b) == seq![
            ("address"@, hex(b[2] as nat, 2)),
            (
                "direction"@,
                FieldValueModel::Direction(
                    if b[2] >= 128 {
                        Direction::In
                    } else {
                        Direction::Out
                    },
                ),
            ),
            (
                "transfer_type"@,
                FieldValueModel::TransferType(
                    if b[3] % 4 == 0 {
                        EndpointType::Control
                    } else if b[3] % 4 == 1 {
                        EndpointType::Isochronous
                    } else if b[3] % 4 == 2 {
                        EndpointType::Bulk
                    } else {
                        EndpointType::Interrupt
                    },
                ),
            ),
            ("max_packet_size"@, FieldValueModel::Unsigned(((b[4] + 256 * b[5]) % 2048) as u32)),
            (
                "packets_per_microframe"@,
                FieldValueModel::Unsigned(((b[4] + 256 * b[5]) / 2048 % 4 + 1) as u32),
            ),
            ("interval"@, FieldValueModel::Unsigned(b[6] as u32)),
        ],
{
}

impl<'a> Configuration<'a> {
    /// The fields that the debug output shows, in their order.
    pub fn debug_fields(&self) -> (r: Vec<Field>)
        ensures
            field_models(r@) == configuration_fields(self@),
            r@.len() == configuration_fields(self@).len(),
            forall|i: int|
                0 <= i < r@.len() ==> (#[trigger] r@[i]).name@ == configuration_fields(self@)[i].0 && r@[i].value@
                    == configuration_fields(self@)[i].1,
    {
        let mut s: Vec<Field> = Vec::new();
        push(
            &mut s,
            "configuration_value",
            FieldValue::Unsigned(self.configuration_value() as u32),
        );
        push(&mut s, "num_interfaces", FieldValue::Unsigned(self.num_interfaces() as u32));
        push(&mut s, "attributes", FieldValue::Unsigned(self.attributes() as u32));
        push(&mut s, "max_power", FieldValue::Unsigned(self.max_power() as u32));
        push(&mut s, "string_index", FieldValue::OptionalIndex(self.string_index()));
        push(&mut s, "interface_alt_settings", FieldValue::AltSettings);
        assert(field_models(s@) =~= configuration_fields(self@));
        s
    }
}

/// All that is shown of an alternate setting.
pub open spec fn alt_setting_fields(a: Seq<u8>) -> Seq<FieldModel> {
    seq![
        ("interface_number"@, FieldValueModel::Unsigned(a[2] as u32)),
        ("alternate_setting"@, FieldValueModel::Unsigned(a[3] as u32)),
        ("num_endpoints"@, FieldValueModel::Unsigned(a[4] as u32)),
        ("class"@, FieldValueModel::Unsigned(a[5] as u32)),
        ("subclass"@, FieldValueModel::Unsigned(a[6] as u32)),
        ("protocol"@, FieldValueModel::Unsigned(a[7] as u32)),
        ("string_index"@, FieldValueModel::OptionalIndex(descriptors::nonzero(a[8]))),
        ("endpoints"@, FieldValueModel::Endpoints),
    ]
}

impl<'a> InterfaceAltSetting<'a> {
    /// The fields that the debug output shows, in their order.
    pub fn debug_fields(&self) -> (r: Vec<Field>)
        ensures
            field_models(r@) == alt_setting_fields(self@),
            r@.len() == alt_setting_fields(self@).len(),
            forall|i: int|
                0 <= i < r@.len() ==> (#[trigger] r@[i]).name@ == alt_setting_fields(self@)[i].0 && r@[i].value@
                    == alt_setting_fields(self@)[i].1,
    {
        let mut s: Vec<Field> = Vec::new();
        push(&mut s, "interface_number", FieldValue::Unsigned(self.interface_number() as u32));
        push(&mut s, "alternate_setting", FieldValue::Unsigned(self.alternate_setting() as u32));
        push(&mut s, "num_endpoints", FieldValue::Unsigned(self.num_endpoints() as u32));
        push(&mut s, "class", FieldValue::Unsigned(self.class() as u32));
        push(&mut s, "subclass", FieldValue::Unsigned(self.subclass() as u32));
        push(&mut s, "protocol", FieldValue::Unsigned(self.protocol() as u32));
        push(&mut s, "string_index", FieldValue::OptionalIndex(self.string_index()));
        push(&mut s, "endpoints", FieldValue::Endpoints);
        assert(field_models(s@) =~= alt_setting_fields(self@));
        s
    }
}

/// All that is shown of an endpoint.
pub open spec fn endpoint_fields(e: Seq<u8>) -> Seq<FieldModel> {
    let size = descriptors::le16(e[4], e[5]);
    seq![
        ("address"@, hex(e[2] as nat, 2)),
        ("direction"@, FieldValueModel::Direction(Direction::of_address(e[2]))),
        ("transfer_type"@, FieldValueModel::TransferType(EndpointType::of_attributes(e[3]))),
        ("max_packet_size"@, FieldValueModel::Unsigned((size % 2048) as u32)),
        ("packets_per_microframe"@, FieldValueModel::Unsigned(((size / 2048) % 4 + 1) as u32)),
        ("interval"@, FieldValueModel::Unsigned(e[6] as u32)),
    ]
}

impl<'a> Endpoint<'a> {
    /// The fields that the debug output shows, in their order.
    pub fn debug_fields(&self) -> (r: Vec<Field>)
        ensures
            field_models(r@) == endpoint_fields(self@),
            r@.len() == endpoint_fields(self@).len(),
            forall|i: int|
                0 <= i < r@.len() ==> (#[trigger] r@[i]).name@ == endpoint_fields(self@)[i].0 && r@[i].value@
                    == endpoint_fields(self@)[i].1,
    {
        let mut s: Vec<Field> = Vec::new();
        push(&mut s, "address", write_hex(self.address() as u64, 2));
        push(&mut s, "direction", FieldValue::Direction(self.direction()));
        push(&mut s, "transfer_type", FieldValue::TransferType(self.transfer_type()));
        push(&mut s, "max_packet_size", FieldValue::Unsigned(self.max_packet_size() as u32));
        push(
            &mut s,
            "packets_per_microframe",
            FieldValue::Unsigned(self.packets_per_microframe() as u32),
        );
        push(&mut s, "interval", FieldValue::Unsigned(self.interval() as u32));
        assert(field_models(s@) =~= endpoint_fields(self@));
        s
    }
}

} // verus!
