//! Devices and buses in the IOKit registry.

use vstd::prelude::*;

use crate::enumeration::{
    self, DeviceInfo, DeviceInfoModel, InterfaceInfo, InterfaceInfoModel, PlatformInfo,
    PlatformModel, Speed,
};
use crate::error::{Error, ErrorKind};
use crate::text;

verus! {

/// A kind of host controller.
#[derive(Debug, Clone, Copy, PartialEq, Eq, Structural)]
pub enum AppleUSBController {
    /// xHCI controller (USB 3.0+)
    XHCI,
    /// EHCI controller (USB 2.0)
    EHCI,
    /// OHCI controller (USB 1.1)
    OHCI,
    /// VHCI controller (T2 chip)
    VHCI,
}

/// The properties of a service that is an interface, as far as it has them.
#[derive(Debug)]
pub struct InterfaceProps {
    /// `bInterfaceNumber`
    pub number: Option<i64>,
    /// `bInterfaceClass`
    pub class: Option<i64>,
    /// `bInterfaceSubClass`
    pub subclass: Option<i64>,
    /// `bInterfaceProtocol`
    pub protocol: Option<i64>,
    /// `kUSBString`
    pub usb_string: Option<String>,
    /// `USB Interface Name`
    pub name: Option<String>,
}

/// The properties of a service that is a device, as far as it has them.
#[derive(Debug)]
pub struct DeviceProps {
    pub registry_id: Option<u64>,
    /// `locationID`
    pub location_id: Option<i64>,
    /// `USB Address`
    pub address: Option<i64>,
    /// `idVendor`
    pub vendor_id: Option<i64>,
    /// `idProduct`
    pub product_id: Option<i64>,
    /// `bcdDevice`
    pub device_version: Option<i64>,
    /// `bDeviceClass`
    pub class: Option<i64>,
    /// `bDeviceSubClass`
    pub subclass: Option<i64>,
    /// `bDeviceProtocol`
    pub protocol: Option<i64>,
    /// `bMaxPacketSize0`
    pub max_packet_size_0: Option<i64>,
    /// `Device Speed`
    pub speed: Option<i64>,
    /// `USB Vendor Name`
    pub vendor_name: Option<String>,
    /// `USB Product Name`
    pub product_name: Option<String>,
    /// `USB Serial Number`
    pub serial_number: Option<String>,
    /// The services below the device, if they could be listed
    pub children: Option<Vec<InterfaceProps>>,
}

/// The speed that IOKit has a number for.
pub open spec fn speed_of(speed: i64) -> Option<Speed> {
    if speed == 0 {
        Some(Speed::Low)
    } else if speed == 1 {
        Some(Speed::Full)
    } else if speed == 2 {
        Some(Speed::High)
    } else if speed == 3 {
        Some(Speed::Super)
    } else if speed == 4 || speed == 5 {
        Some(Speed::SuperPlus)
    } else {
        None
    }
}

/// The speeds have the numbers that IOKit has for them, the greatest one two.
pub proof fn law_speeds_have_numbers(speed: i64)
    ensures
        speed_of(speed) == Some(Speed::Low) <==> speed == 0,
        speed_of(speed) == Some(Speed::Full) <==> speed == 1,
        speed_of(speed) == Some(Speed::High) <==> speed == 2,
        speed_of(speed) == Some(Speed::Super) <==> speed == 3,
        speed_of(speed) == Some(Speed::SuperPlus) <==> speed == 4 || speed == 5,
        speed_of(speed) is None <==> speed < 0 || speed > 5,
{
}

/// The speed that IOKit has a number for.
pub fn map_speed(speed: i64) -> (r: Option<Speed>)
    ensures
        r == speed_of(speed),
        r == Some(Speed::Low) <==> speed == 0,
        r == Some(Speed::Full) <==> speed == 1,
        r == Some(Speed::High) <==> speed == 2,
        r == Some(Speed::Super) <==> speed == 3,
        r == Some(Speed::SuperPlus) <==> speed == 4 || speed == 5,
        r is None <==> speed < 0 || speed > 5,
{
    match speed {
        0 => Some(Speed::Low),
        1 => Some(Speed::Full),
        2 => Some(Speed::High),
        3 => Some(Speed::Super),
        4 | 5 => Some(Speed::SuperPlus),
        _ => None,
    }
}

/// The ports that are left, the first in the four highest of 24 bits, up to the last one that is
/// not zero.
pub open spec fn ports(rest: nat, left: nat) -> Seq<u8>
    decreases left,
{
    if rest == 0 || left == 0 {
        seq![]
    } else {
        seq![(rest / 0x100000) as u8] + ports((rest % 0x100000) * 16, (left - 1) as nat)
    }
}

/// The path of port numbers in a location ID: each of the six low hexadecimal digits is one.
pub open spec fn location_ports(id: u32) -> Seq<u8> {
    ports((id % 0x1000000) as nat, 6)
}

/// The path of port numbers in a location ID.
pub fn parse_location_id(id: u32) -> (r: Vec<u8>)
    ensures
        r@ == location_ports(id),
{
    let mut chain: Vec<u8> = Vec::new();
    let mut rest: u32 = id % 0x1000000;
    let mut left: u32 = 6;
    while rest != 0 && left > 0
        invariant
            rest < 0x1000000,
            left <= 6,
            chain@ + ports(rest as nat, left as nat) == location_ports(id),
        decreases left,
    {
        let port: u8 = (rest / 0x100000) as u8;
        proof {
            assert(chain@.push(port) + ports(((rest % 0x100000) * 16) as nat, (left - 1) as nat)
                =~= chain@ + ports(rest as nat, left as nat));
        }
        chain.push(port);
        rest = (rest % 0x100000) * 16;
        left = left - 1;
    }
    assert(chain@ + seq![] =~= chain@);
    chain
}

/// The 24 bits that a path of port numbers stands for.
pub open spec fn path_bits(chain: Seq<u8>) -> nat
    decreases chain.len(),
{
    if chain.len() == 0 {
        0
    } else {
        chain[0] as nat * 0x100000 + path_bits(chain.skip(1)) / 16
    }
}

/// Sixteen as often as `n` says.
pub open spec fn pow16(n: nat) -> nat
    decreases n,
{
    if n == 0 {
        1
    } else {
        16 * pow16((n - 1) as nat)
    }
}

proof fn lemma_path_bits(rest: nat, left: nat)
    requires
        rest < 0x1000000,
        left <= 6,
        rest % pow16((6 - left) as nat) == 0,
    ensures
        path_bits(ports(rest, left)) == rest,
    decreases left,
{
    reveal_with_fuel(pow16, 7);
    assert(pow16(0) == 1 && pow16(1) == 16 && pow16(2) == 0x100 && pow16(3) == 0x1000 && pow16(4)
        == 0x10000 && pow16(5) == 0x100000 && pow16(6) == 0x1000000);
    if rest != 0 && left != 0 {
        let next = (rest % 0x100000) * 16;
        if left == 6 {
            assert(next % 0x10 == 0);
        } else if left == 5 {
            assert(rest % 0x10 == 0);
            assert(next % 0x100 == 0);
        } else if left == 4 {
            assert(rest % 0x100 == 0);
            assert(next % 0x1000 == 0);
        } else if left == 3 {
            assert(rest % 0x1000 == 0);
            assert(next % 0x10000 == 0);
        } else if left == 2 {
            assert(rest % 0x10000 == 0);
            assert(next % 0x100000 == 0);
        } else {
            assert(left == 1 && rest % 0x100000 == 0);
        }
        lemma_path_bits(next, (left - 1) as nat);
        let chain = ports(rest, left);
        assert(chain.skip(1) =~= ports(next, (left - 1) as nat));
        assert(chain[0] == (rest / 0x100000) as u8);
        assert(rest / 0x100000 < 16);
    } else if left == 0 {
        assert(rest % 0x1000000 == 0);
    }
}

/// The path of port numbers has all that the low 24 bits of a location ID say.
pub proof fn law_ports_say_all(id: u32)
    ensures
        path_bits(location_ports(id)) == id % 0x1000000,
        location_ports(id).len() <= 6,
{
    lemma_path_bits((id % 0x1000000) as nat, 6);
    lemma_ports_len((id % 0x1000000) as nat, 6);
}

proof fn lemma_ports_len(rest: nat, left: nat)
    ensures
        ports(rest, left).len() <= left,
    decreases left,
{
    if rest != 0 && left != 0 {
        lemma_ports_len((rest % 0x100000) * 16, (left - 1) as nat);
    }
}

/// Each port is one hexadecimal digit of the location ID, the first being the highest of the six low ones,
/// and the last port is the last digit that is not zero.
pub proof fn law_ports_are_digits(id: u32)
    ensures
        ({
            let chain = location_ports(id);
            let digits = seq![
                id / 0x100000 % 16,
                id / 0x10000 % 16,
                id / 0x1000 % 16,
                id / 0x100 % 16,
                id / 0x10 % 16,
                id % 16,
            ];
            &&& chain.len() <= 6
            &&& forall|k: int| 0 <= k < chain.len() ==> #[trigger] chain[k] == digits[k]
            &&& forall|k: int| chain.len() <= k < 6 ==> #[trigger] digits[k] == 0
            &&& chain.len() > 0 ==> chain[chain.len() - 1] != 0
        }),
{
    let a: u32 = id / 0x100000 % 16;
    let b: u32 = id / 0x10000 % 16;
    let c: u32 = id / 0x1000 % 16;
    let d: u32 = id / 0x100 % 16;
    let e: u32 = id / 0x10 % 16;
    let f: u32 = id % 16;
    assert(id % 0x1000000 == 0x100000 * (id / 0x100000 % 16) + 0x10000 * (id / 0x10000 % 16)
        + 0x1000 * (id / 0x1000 % 16) + 0x100 * (id / 0x100 % 16) + 0x10 * (id / 0x10 % 16) + id
        % 16) by (bit_vector);
    lemma_six_ports(a as u8, b as u8, c as u8, d as u8, e as u8, f as u8);
    lemma_trimmed(seq![a as u8, b as u8, c as u8, d as u8, e as u8, f as u8]);
}

/// A path of ports up to the last one that is not zero.
spec fn trimmed(s: Seq<u8>) -> Seq<u8>
    decreases s.len(),
{
    if s.len() > 0 && s.last() == 0 {
        trimmed(s.drop_last())
    } else {
        s
    }
}

proof fn lemma_trimmed(s: Seq<u8>)
    ensures
        trimmed(s).len() <= s.len(),
        forall|k: int| 0 <= k < trimmed(s).len() ==> #[trigger] trimmed(s)[k] == s[k],
        forall|k: int| trimmed(s).len() <= k < s.len() ==> #[trigger] s[k] == 0,
        trimmed(s).len() > 0 ==> trimmed(s)[trimmed(s).len() - 1] != 0,
    decreases s.len(),
{
    if s.len() > 0 && s.last() == 0 {
        let before = s.drop_last();
        lemma_trimmed(before);
        assert forall|k: int| trimmed(s).len() <= k < s.len() implies #[trigger] s[k] == 0 by {
            if k < before.len() {
                assert(before[k] == 0);
            }
        }
    }
}

proof fn lemma_trimmed_in_front(x: u8, s: Seq<u8>)
    ensures
        trimmed(seq![x] + s) == if x == 0 && trimmed(s).len() == 0 {
            seq![]
        } else {
            seq![x] + trimmed(s)
        },
    decreases s.len(),
{
    let all = seq![x] + s;
    if s.len() == 0 {
        assert(all =~= seq![x]);
        assert(all.drop_last() =~= Seq::<u8>::empty());
        assert(s =~= Seq::<u8>::empty());
        assert(trimmed(Seq::<u8>::empty()) == Seq::<u8>::empty());
        assert(all =~= seq![x] + trimmed(s));
    } else {
        assert(all.last() == s.last());
        assert(all.drop_last() =~= seq![x] + s.drop_last());
        lemma_trimmed_in_front(x, s.drop_last());
    }
}

/// The first port and the rest.
proof fn lemma_ports_step(first: u8, rest: nat, left: nat, digits: Seq<u8>)
    requires
        first < 16,
        rest < 0x100000,
        left > 1 || (left == 1 && rest == 0),
        ports(16 * rest, (left - 1) as nat) == trimmed(digits),
    ensures
        ports(0x100000 * first as nat + rest, left) == trimmed(seq![first] + digits),
{
    let all = 0x100000 * first as nat + rest;
    assert(all / 0x100000 == first);
    assert(all % 0x100000 == rest);
    lemma_trimmed_in_front(first, digits);
}

proof fn lemma_three_ports(d: u8, e: u8, f: u8)
    requires
        d < 16 && e < 16 && f < 16,
    ensures
        ports((0x100000 * d + 0x10000 * e + 0x1000 * f) as nat, 3) == trimmed(seq![d, e, f]),
{
    assert(trimmed(seq![]) =~= seq![]);
    lemma_ports_step(f, 0, 1, seq![]);
    assert(seq![f] + seq![] =~= seq![f]);
    lemma_ports_step(e, (0x10000 * f) as nat, 2, seq![f]);
    assert(seq![e] + seq![f] =~= seq![e, f]);
    lemma_ports_step(d, (0x10000 * e + 0x1000 * f) as nat, 3, seq![e, f]);
    assert(seq![d] + seq![e, f] =~= seq![d, e, f]);
}

proof fn lemma_six_ports(a: u8, b: u8, c: u8, d: u8, e: u8, f: u8)
    requires
        a < 16 && b < 16 && c < 16 && d < 16 && e < 16 && f < 16,
    ensures
        ports(
            (0x100000 * a + 0x10000 * b + 0x1000 * c + 0x100 * d + 0x10 * e + f) as nat,
            6,
        ) == trimmed(seq![a, b, c, d, e, f]),
{
    lemma_three_ports(d, e, f);
    let def = seq![d, e, f];
    lemma_ports_step(c, (0x10000 * d + 0x1000 * e + 0x100 * f) as nat, 4, def);
    assert(seq![c] + def =~= seq![c, d, e, f]);
    lemma_ports_step(
        b,
        (0x10000 * c + 0x1000 * d + 0x100 * e + 0x10 * f) as nat,
        5,
        seq![c, d, e, f],
    );
    assert(seq![b] + seq![c, d, e, f] =~= seq![b, c, d, e, f]);
    lemma_ports_step(
        a,
        (0x10000 * b + 0x1000 * c + 0x100 * d + 0x10 * e + f) as nat,
        6,
        seq![b, c, d, e, f],
    );
    assert(seq![a] + seq![b, c, d, e, f] =~= seq![a, b, c, d, e, f]);
}

/// A hexadecimal digit in lower case.
pub open spec fn low_hex(v: nat) -> char {
    if v < 10 {
        ('0' as nat + v) as char
    } else {
        ('a' as nat + v - 10) as char
    }
}

/// The bus in a location ID: its two highest hexadecimal digits.
pub open spec fn bus_id(location_id: u32) -> Seq<char> {
    seq![
        low_hex((location_id / 0x10000000) as nat),
        low_hex(((location_id / 0x1000000) % 16) as nat),
    ]
}

fn write_low_hex(v: u32) -> (r: char)
    requires
        v < 16,
    ensures
        r == low_hex(v as nat),
{
    if v < 10 {
        (48 + v as u8) as char
    } else {
        (87 + v as u8) as char
    }
}

fn write_bus_id(location_id: u32) -> (r: String)
    ensures
        r@ == bus_id(location_id),
{
    let mut s = String::new();
    s.push(write_low_hex(location_id / 0x10000000));
    s.push(write_low_hex((location_id / 0x1000000) % 16));
    assert(s@ =~= bus_id(location_id));
    s
}

/// The ID of a bus is the two highest hexadecimal digits of the location ID, in lower case.
pub proof fn law_bus_is_two_digits(location_id: u32)
    ensures
        ({
            let id = bus_id(location_id);
            let high = location_id / 0x10000000;
            let low = location_id / 0x1000000 % 16;
            &&& id.len() == 2
            &&& high < 10 ==> id[0] as int == 48 + high
            &&& high >= 10 ==> id[0] as int == 87 + high
            &&& low < 10 ==> id[1] as int == 48 + low
            &&& low >= 10 ==> id[1] as int == 87 + low
        }),
{
}

/// The string of an interface, or its name if it has none.
pub open spec fn interface_string(p: InterfaceProps) -> Option<Seq<char>> {
    match p.usb_string {
        Some(s) => Some(s@),
        None => enumeration::opt_text(p.name),
    }
}

/// What is known of an interface, if it has all properties that are needed.
pub open spec fn interface_of(p: InterfaceProps) -> Option<InterfaceInfoModel> {
    match (p.number, p.class, p.subclass, p.protocol) {
        (Some(number), Some(class), Some(subclass), Some(protocol)) => Some(
            InterfaceInfoModel {
                interface_number: number as u8,
                class: class as u8,
                subclass: subclass as u8,
                protocol: protocol as u8,
                interface_string: interface_string(p),
            },
        ),
        _ => None,
    }
}

/// What is known of the interfaces that have all properties that are needed.
pub open spec fn interfaces_of(children: Seq<InterfaceProps>) -> Seq<InterfaceInfoModel>
    decreases children.len(),
{
    if children.len() == 0 {
        seq![]
    } else {
        let before = interfaces_of(children.drop_last());
        match interface_of(children.last()) {
            Some(i) => before.push(i),
            None => before,
        }
    }
}

/// What is known of a device, if it has all properties that are needed.
pub open spec fn device_of(p: DeviceProps) -> Option<DeviceInfoModel> {
    if p.registry_id is Some && p.location_id is Some && p.address is Some && p.vendor_id is Some
        && p.product_id is Some && p.device_version is Some && p.class is Some && p.subclass is Some
        && p.protocol is Some && p.max_packet_size_0 is Some {
        let location_id = p.location_id->0 as u32;
        Some(
            DeviceInfoModel {
                platform: PlatformModel::MacOs { registry_id: p.registry_id->0, location_id },
                bus_id: bus_id(location_id),
                device_address: p.address->0 as u8,
                port_chain: location_ports(location_id),
                vendor_id: p.vendor_id->0 as u16,
                product_id: p.product_id->0 as u16,
                device_version: p.device_version->0 as u16,
                usb_version: 0,
                class: p.class->0 as u8,
                subclass: p.subclass->0 as u8,
                protocol: p.protocol->0 as u8,
                speed: match p.speed {
                    Some(speed) => speed_of(speed),
                    None => None,
                },
                manufacturer_string: enumeration::opt_text(p.vendor_name),
                product_string: enumeration::opt_text(p.product_name),
                serial_number: enumeration::opt_text(p.serial_number),
                interfaces: match p.children {
                    Some(children) => interfaces_of(children@),
                    None => seq![],
                },
            },
        )
    } else {
        None
    }
}

/// What is known of a device is what its properties say, and a device is known just if it has all that
/// are needed.
pub proof fn law_devices_have_their_properties(p: DeviceProps)
    ensures
        device_of(p) is Some <==> p.registry_id is Some && p.location_id is Some && p.address is Some
            && p.vendor_id is Some && p.product_id is Some && p.device_version is Some
            && p.class is Some && p.subclass is Some && p.protocol is Some
            && p.max_packet_size_0 is Some,
        device_of(p) matches Some(d) ==> {
            let location_id = p.location_id->0 as u32;
            &&& d.platform == (PlatformModel::MacOs { registry_id: p.registry_id->0, location_id })
            &&& d.bus_id == bus_id(location_id)
            &&& d.port_chain == location_ports(location_id)
            &&& d.device_address == p.address->0 as u8
            &&& d.vendor_id == p.vendor_id->0 as u16
            &&& d.product_id == p.product_id->0 as u16
            &&& d.device_version == p.device_version->0 as u16
            &&& d.usb_version == 0
            &&& d.class == p.class->0 as u8
            &&& d.subclass == p.subclass->0 as u8
            &&& d.protocol == p.protocol->0 as u8
            &&& p.speed is None ==> d.speed is None
            &&& p.speed matches Some(speed) ==> d.speed == speed_of(speed)
            &&& p.vendor_name is None ==> d.manufacturer_string is None
            &&& p.vendor_name matches Some(t) ==> d.manufacturer_string == Some(t@)
            &&& p.product_name is None ==> d.product_string is None
            &&& p.product_name matches Some(t) ==> d.product_string == Some(t@)
            &&& p.serial_number is None ==> d.serial_number is None
            &&& p.serial_number matches Some(t) ==> d.serial_number == Some(t@)
            &&& p.children is None ==> d.interfaces.len() == 0
            &&& p.children matches Some(children) ==> d.interfaces == interfaces_of(children@)
        },
{
}

/// The interfaces of a device are the services below it that have a number, a class, a subclass and a
/// protocol, in their order, each with its string, or else its name.
pub proof fn law_interfaces_have_their_properties(
    children: Seq<InterfaceProps>,
    p: InterfaceProps,
)
    ensures
        interfaces_of(Seq::empty()).len() == 0,
        p.number is None || p.class is None || p.subclass is None || p.protocol is None
            ==> interfaces_of(children.push(p)) == interfaces_of(children),
        p.number is Some && p.class is Some && p.subclass is Some && p.protocol is Some ==> {
            let all = interfaces_of(children.push(p));
            let last = all.last();
            &&& all.len() == interfaces_of(children).len() + 1
            &&& all.drop_last() == interfaces_of(children)
            &&& last.interface_number == p.number->0 as u8
            &&& last.class == p.class->0 as u8
            &&& last.subclass == p.subclass->0 as u8
            &&& last.protocol == p.protocol->0 as u8
            &&& p.usb_string matches Some(t) ==> last.interface_string == Some(t@)
            &&& p.usb_string is None ==> (p.name matches Some(t) ==> last.interface_string == Some(
                t@,
            ))
            &&& p.usb_string is None && p.name is None ==> last.interface_string is None
        },
{
    assert(children.push(p).drop_last() =~= children);
    let before = interfaces_of(children);
    assert(forall|i: InterfaceInfoModel| #[trigger] before.push(i).drop_last() =~= before);
}

fn probe_interface(p: &InterfaceProps) -> (r: Option<InterfaceInfo>)
    ensures
        match interface_of(*p) {
            Some(i) => r matches Some(info) && info@ == i,
            None => r is None,
        },
{
    match (p.number, p.class, p.subclass, p.protocol) {
        (Some(number), Some(class), Some(subclass), Some(protocol)) => {
            let interface_string = match &p.usb_string {
                Some(s) => Some(s.clone()),
                None => p.name.clone(),
            };
            Some(
                InterfaceInfo {
                    interface_number: number as u8,
                    class: class as u8,
                    subclass: subclass as u8,
                    protocol: protocol as u8,
                    interface_string,
                },
            )
        },
        _ => None,
    }
}

fn probe_interfaces(children: &[InterfaceProps]) -> (r: Vec<InterfaceInfo>)
    ensures
        enumeration::interface_infos(r@) == interfaces_of(children@),
{
    let mut interfaces: Vec<InterfaceInfo> = Vec::new();
    let mut i: usize = 0;
    assert(children@.take(0) =~= seq![]);
    assert(enumeration::interface_infos(interfaces@) =~= seq![]);
    while i < children.len()
        invariant
            i <= children@.len(),
            enumeration::interface_infos(interfaces@) == interfaces_of(children@.take(i as int)),
        decreases children@.len() - i,
    {
        let ghost before = enumeration::interface_infos(interfaces@);
        assert(children@.take(i + 1).drop_last() =~= children@.take(i as int));
        if let Some(info) = probe_interface(&children[i]) {
            interfaces.push(info);
            assert(enumeration::interface_infos(interfaces@) =~= before.push(info@));
        }
        i = i + 1;
    }
    assert(children@.take(i as int) =~= children@);
    interfaces
}

/// Find out what a device is, by its properties in the registry.
pub fn probe_device(p: DeviceProps) -> (r: Option<DeviceInfo>)
    ensures
        match device_of(p) {
            Some(d) => r matches Some(info) && info@ == d,
            None => r is None,
        },
{
    if p.max_packet_size_0.is_none() {
        return None;
    }
    let registry_id: u64 = p.registry_id?;
    let location_id: u32 = p.location_id? as u32;
    let interfaces = match p.children {
        Some(children) => probe_interfaces(children.as_slice()),
        None => Vec::new(),
    };
    let info = DeviceInfo {
        platform: PlatformInfo::MacOs { registry_id, location_id },
        bus_id: write_bus_id(location_id),
        device_address: p.address? as u8,
        port_chain: parse_location_id(location_id),
        vendor_id: p.vendor_id? as u16,
        product_id: p.product_id? as u16,
        device_version: p.device_version? as u16,
        usb_version: 0,
        class: p.class? as u8,
        subclass: p.subclass? as u8,
        protocol: p.protocol? as u8,
        speed: match p.speed {
            Some(speed) => map_speed(speed),
            None => None,
        },
        manufacturer_string: p.vendor_name,
        product_string: p.product_name,
        serial_number: p.serial_number,
        interfaces,
    };
    assert(info@ =~= device_of(p)->0);
    Some(info)
}

/// The properties of a service that is a host controller, as far as it has them.
#[derive(Debug)]
pub struct RootHubProps {
    pub registry_id: Option<u64>,
    /// `locationID`
    pub location_id: Option<i64>,
    /// `IOPCIPrimaryMatch`
    pub pci_match: Option<String>,
    /// `IOProviderClass`
    pub provider_class: Option<String>,
    /// `IOClass`
    pub class: Option<String>,
    /// `name`
    pub name: Option<String>,
}

/// The number that hexadecimal digits in ASCII are, or zero if they are none.
pub open spec fn hex16(bytes: Seq<u8>) -> u16 {
    match text::unsigned_value(bytes.map_values(|b: u8| b as char), 16, 0xffff) {
        Some(v) => v as u16,
        None => 0,
    }
}

/// The vendor and product ID of the first PCI device in a match such as `0x15e98086 0x15ec8086`,
/// of which the bytes are given.
pub open spec fn pci_ids(bytes: Seq<u8>) -> (u16, u16) {
    if vstd::utf8::is_char_boundary(bytes, 2) && vstd::utf8::is_char_boundary(bytes, 6)
        && vstd::utf8::is_char_boundary(bytes, 10) {
        (hex16(bytes.subrange(6, 10)), hex16(bytes.subrange(2, 6)))
    } else {
        (0, 0)
    }
}

fn read_hex16(bytes: &[u8]) -> (r: u16)
    ensures
        r == hex16(bytes@),
{
    let mut chars: Vec<char> = Vec::new();
    let mut i: usize = 0;
    while i < bytes.len()
        invariant
            i <= bytes@.len(),
            chars@ == bytes@.take(i as int).map_values(|b: u8| b as char),
        decreases bytes@.len() - i,
    {
        chars.push(bytes[i] as char);
        i = i + 1;
        assert(chars@ =~= bytes@.take(i as int).map_values(|b: u8| b as char));
    }
    assert(bytes@.take(i as int) =~= bytes@);
    match text::parse_unsigned(chars.as_slice(), 16, 0xffff) {
        Some(v) => v as u16,
        None => 0,
    }
}

fn read_pci_ids(pci: &str) -> (r: (u16, u16))
    ensures
        r == pci_ids(vstd::utf8::encode_utf8(pci@)),
{
    if pci.is_char_boundary(2) && pci.is_char_boundary(6) && pci.is_char_boundary(10) {
        proof {
            vstd::utf8::encode_utf8_valid_utf8(pci@);
        }
        let bytes = pci.as_bytes();
        let pid: u16 = read_hex16(vstd::slice::slice_subrange(bytes, 2, 6));
        let vid: u16 = read_hex16(vstd::slice::slice_subrange(bytes, 6, 10));
        (vid, pid)
    } else {
        (0, 0)
    }
}

/// The version of USB that a host controller has, in binary coded decimal, and its protocol.
pub open spec fn controller_version(c: AppleUSBController) -> (u16, u8) {
    match c {
        AppleUSBController::XHCI => (0x300, 0x03),
        AppleUSBController::EHCI => (0x200, 0x01),
        AppleUSBController::OHCI => (0x110, 0x00),
        AppleUSBController::VHCI => (0x000, 0x00),
    }
}

/// What is known of a root hub, if it has all properties that are needed.
pub open spec fn root_hub_of(p: RootHubProps, c: AppleUSBController) -> Option<DeviceInfoModel> {
    match (p.registry_id, p.location_id) {
        (Some(registry_id), Some(location)) => {
            let location_id = location as u32;
            let (vendor_id, product_id) = match p.pci_match {
                Some(pci) => pci_ids(vstd::utf8::encode_utf8(pci@)),
                None => (0u16, 0u16),
            };
            Some(
                DeviceInfoModel {
                    platform: PlatformModel::MacOs { registry_id, location_id },
                    bus_id: bus_id(location_id),
                    device_address: 0,
                    port_chain: location_ports(location_id),
                    vendor_id,
                    product_id,
                    device_version: controller_version(c).0,
                    usb_version: 0,
                    class: 0x09,
                    subclass: 0x00,
                    protocol: controller_version(c).1,
                    speed: None,
                    manufacturer_string: enumeration::opt_text(p.provider_class),
                    product_string: enumeration::opt_text(p.class),
                    serial_number: enumeration::opt_text(p.name),
                    interfaces: seq![],
                },
            )
        },
        _ => None,
    }
}

/// What is known of a root hub is what the properties of its host controller say: it is a hub at address
/// 0, of the version that the kind of controller has.
pub proof fn law_root_hubs_have_their_properties(p: RootHubProps, c: AppleUSBController)
    ensures
        root_hub_of(p, c) is Some <==> p.registry_id is Some && p.location_id is Some,
        root_hub_of(p, c) matches Some(d) ==> {
            let location_id = p.location_id->0 as u32;
            &&& d.platform == (PlatformModel::MacOs { registry_id: p.registry_id->0, location_id })
            &&& d.bus_id == bus_id(location_id)
            &&& d.port_chain == location_ports(location_id)
            &&& d.device_address == 0 && d.usb_version == 0
            &&& d.class == 9 && d.subclass == 0
            &&& p.pci_match is None ==> d.vendor_id == 0 && d.product_id == 0
            &&& p.pci_match matches Some(pci) ==> (d.vendor_id, d.product_id) == pci_ids(
                vstd::utf8::encode_utf8(pci@),
            )
            &&& c == AppleUSBController::XHCI ==> d.device_version == 0x300 && d.protocol == 3
            &&& c == AppleUSBController::EHCI ==> d.device_version == 0x200 && d.protocol == 1
            &&& c == AppleUSBController::OHCI ==> d.device_version == 0x110 && d.protocol == 0
            &&& c == AppleUSBController::VHCI ==> d.device_version == 0 && d.protocol == 0
            &&& d.speed is None && d.interfaces.len() == 0
            &&& p.provider_class is None ==> d.manufacturer_string is None
            &&& p.provider_class matches Some(t) ==> d.manufacturer_string == Some(t@)
            &&& p.class is None ==> d.product_string is None
            &&& p.class matches Some(t) ==> d.product_string == Some(t@)
            &&& p.name is None ==> d.serial_number is None
            &&& p.name matches Some(t) ==> d.serial_number == Some(t@)
        },
{
}

/// The value of a hexadecimal digit in ASCII, if it is one.
pub open spec fn nibble(b: u8) -> Option<nat> {
    if 48 <= b <= 57 {
        Some((b - 48) as nat)
    } else if 97 <= b <= 102 {
        Some((b - 87) as nat)
    } else if 65 <= b <= 70 {
        Some((b - 55) as nat)
    } else {
        None
    }
}

/// In a match for a PCI device such as `0x15e98086`, the four digits behind the `0x` are the product ID
/// and the next four the vendor ID.
pub proof fn law_pci_match_has_ids(bytes: Seq<u8>)
    requires
        bytes.len() >= 10,
        vstd::utf8::is_char_boundary(bytes, 2),
        vstd::utf8::is_char_boundary(bytes, 6),
        vstd::utf8::is_char_boundary(bytes, 10),
        forall|i: int|
            2 <= i < 10 ==> 48 <= #[trigger] bytes[i] <= 57 || 97 <= bytes[i] <= 102 || 65 <= bytes[i]
                <= 70,
    ensures
        ({
            let d = |i: int|
                if bytes[i] <= 57 {
                    bytes[i] - 48
                } else if bytes[i] <= 70 {
                    bytes[i] - 55
                } else {
                    bytes[i] - 87
                };
            &&& pci_ids(bytes).0 == 4096 * d(6) + 256 * d(7) + 16 * d(8) + d(9)
            &&& pci_ids(bytes).1 == 4096 * d(2) + 256 * d(3) + 16 * d(4) + d(5)
        }),
{
    lemma_hex16(bytes.subrange(6, 10));
    lemma_hex16(bytes.subrange(2, 6));
}

/// A match that is cut off or has no hexadecimal digits at their places gives 0 for what they would be.
pub proof fn law_bad_pci_match_is_zero(bytes: Seq<u8>)
    ensures
        ({
            let number = |from: int|
                match text::unsigned_value(
                    bytes.subrange(from, from + 4).map_values(|b: u8| b as char),
                    16,
                    0xffff,
                ) {
                    Some(v) => v as u16,
                    None => 0u16,
                };
            if vstd::utf8::is_char_boundary(bytes, 2) && vstd::utf8::is_char_boundary(bytes, 6)
                && vstd::utf8::is_char_boundary(bytes, 10) {
                pci_ids(bytes) == (number(6), number(2))
            } else {
                pci_ids(bytes) == (0u16, 0u16)
            }
        }),
{
}

proof fn lemma_hex16(b: Seq<u8>)
    requires
        b.len() == 4,
        forall|i: int| 0 <= i < 4 ==> nibble(#[trigger] b[i]) is Some,
    ensures
        hex16(b) == 4096 * nibble(b[0])->0 + 256 * nibble(b[1])->0 + 16 * nibble(b[2])->0 + nibble(
            b[3],
        )->0,
{
    let c = b.map_values(|x: u8| x as char);
    let d0 = nibble(b[0])->0;
    let d1 = nibble(b[1])->0;
    let d2 = nibble(b[2])->0;
    let d3 = nibble(b[3])->0;
    text::law_one_digit_is_a_number(c[0], d0, 16, 0xffff);
    let s1 = seq![c[0]];
    text::law_digits_have_places(s1, d0, c[1], d1, 16, 0xffff);
    let s2 = s1.push(c[1]);
    text::law_digits_have_places(s2, 16 * d0 + d1, c[2], d2, 16, 0xffff);
    let s3 = s2.push(c[2]);
    text::law_digits_have_places(s3, 16 * (16 * d0 + d1) + d2, c[3], d3, 16, 0xffff);
    assert(s3.push(c[3]) =~= c);
}

/// Find out what a root hub is, by the properties of its host controller in the registry.
pub fn probe_root_hub(p: RootHubProps, host_controller: AppleUSBController) -> (r: Option<
    DeviceInfo,
>)
    ensures
        match root_hub_of(p, host_controller) {
            Some(d) => r matches Some(info) && info@ == d,
            None => r is None,
        },
{
    let registry_id: u64 = p.registry_id?;
    let location_id: u32 = p.location_id? as u32;
    let (vid, pid): (u16, u16) = match &p.pci_match {
        Some(pci) => read_pci_ids(pci.as_str()),
        None => (0, 0),
    };
    let (device_version, protocol): (u16, u8) = match host_controller {
        AppleUSBController::XHCI => (0x300, 0x03),
        AppleUSBController::EHCI => (0x200, 0x01),
        AppleUSBController::OHCI => (0x110, 0x00),
        AppleUSBController::VHCI => (0x000, 0x00),
    };
    let info = DeviceInfo {
        platform: PlatformInfo::MacOs { registry_id, location_id },
        bus_id: write_bus_id(location_id),
        device_address: 0,
        port_chain: parse_location_id(location_id),
        vendor_id: vid,
        product_id: pid,
        device_version,
        usb_version: 0,
        class: 0x09,
        subclass: 0x00,
        protocol,
        speed: None,
        manufacturer_string: p.provider_class,
        product_string: p.class,
        serial_number: p.name,
        interfaces: Vec::new(),
    };
    assert(info@ =~= root_hub_of(p, host_controller)->0);
    Some(info)
}

/// Which of several services has a registry ID: the first one.
pub fn service_by_registry_id(services: &[Option<u64>], registry_id: u64) -> (r: Result<
    usize,
    Error,
>)
    ensures
        match r {
            Ok(i) => i < services@.len() && services@[i as int] == Some(registry_id) && forall|
                k: int,
            |
                0 <= k < i ==> services@[k] != Some(registry_id),
            Err(e) => e.is(ErrorKind::NotFound, None, "not found by registry id"@)
                && !services@.contains(Some(registry_id)),
        },
{
    let mut i: usize = 0;
    while i < services.len()
        invariant
            i <= services@.len(),
            forall|k: int| 0 <= k < i ==> services@[k] != Some(registry_id),
        decreases services@.len() - i,
    {
        if let Some(id) = services[i] {
            if id == registry_id {
                return Ok(i);
            }
        }
        i = i + 1;
    }
    Err(Error::new(ErrorKind::NotFound, "not found by registry id"))
}

} // verus!
