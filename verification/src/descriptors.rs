//! Utilities for parsing USB descriptors.
//!
//! Descriptors are blocks of data that describe the functionality of a USB device.

use std::ops::Deref;

use vstd::prelude::*;

use crate::text;
use crate::transfer::{Direction, EndpointType};

pub mod language_id;

verus! {

/// `bLength` of a device descriptor
pub const DESCRIPTOR_LEN_DEVICE: u8 = 18;

/// `bDescriptorType` of a device descriptor
pub const DESCRIPTOR_TYPE_DEVICE: u8 = 0x01;

/// `bDescriptorType` of a configuration descriptor
pub const DESCRIPTOR_TYPE_CONFIGURATION: u8 = 0x02;

/// Least `bLength` of a configuration descriptor
pub const DESCRIPTOR_LEN_CONFIGURATION: u8 = 9;

/// `bDescriptorType` of an interface descriptor
pub const DESCRIPTOR_TYPE_INTERFACE: u8 = 0x04;

/// Least `bLength` of an interface descriptor
pub const DESCRIPTOR_LEN_INTERFACE: u8 = 9;

/// `bDescriptorType` of an endpoint descriptor
pub const DESCRIPTOR_TYPE_ENDPOINT: u8 = 0x05;

/// Least `bLength` of an endpoint descriptor
pub const DESCRIPTOR_LEN_ENDPOINT: u8 = 7;

/// `bDescriptorType` of a string descriptor
pub const DESCRIPTOR_TYPE_STRING: u8 = 0x03;

/// The little-endian 16-bit number with these two bytes.
pub open spec fn le16(low: u8, high: u8) -> u16 {
    (low + 256 * high) as u16
}

/// Read the little-endian 16-bit number at `pos`.
pub(crate) fn read_le16(buf: &[u8], pos: usize) -> (r: u16)
    requires
        pos + 2 <= buf@.len(),
    ensures
        r == le16(buf@[pos as int], buf@[pos + 1]),
{
    buf[pos] as u16 + 256 * (buf[pos + 1] as u16)
}

/// Whether `s` begins with a descriptor that leads on to the bytes behind it: there is a header,
/// and `bLength` covers the header and stays inside `s`.
pub open spec fn starts_with_descriptor(s: Seq<u8>) -> bool {
    s.len() >= 2 && 2 <= s[0] <= s.len()
}

/// The first descriptor of `s`.
pub open spec fn first_descriptor(s: Seq<u8>) -> Seq<u8> {
    s.take(s[0] as int)
}

/// What follows the first descriptor of `s`.
pub open spec fn after_descriptor(s: Seq<u8>) -> Seq<u8> {
    s.skip(s[0] as int)
}

/// The descriptors that `s` is a chain of, up to where the chain breaks off.
pub open spec fn descriptor_chain(s: Seq<u8>) -> Seq<Seq<u8>>
    decreases s.len(),
{
    if starts_with_descriptor(s) {
        seq![first_descriptor(s)] + descriptor_chain(after_descriptor(s))
    } else {
        seq![]
    }
}

/// The number of bytes at the start of `s` that are descriptors of a type other than `ty`.
pub open spec fn run_of_other_types(s: Seq<u8>, ty: u8) -> int
    decreases s.len(),
{
    if starts_with_descriptor(s) && s[1] != ty {
        s[0] + run_of_other_types(after_descriptor(s), ty)
    } else {
        0
    }
}

/// Whether a descriptor opens a group: it has the type asked for and the length that type needs.
pub open spec fn opens_group(d: Seq<u8>, ty: u8, min_len: u8) -> bool {
    d[1] == ty && d[0] >= min_len
}

/// The length of the group that opens `s`: its first descriptor and those behind it, up to the
/// next one of type `ty`.
pub open spec fn group_len(s: Seq<u8>, ty: u8) -> int {
    s[0] + run_of_other_types(after_descriptor(s), ty)
}

/// The groups of descriptors in `s`, each opened by a descriptor of type `ty`.
pub open spec fn descriptor_groups(s: Seq<u8>, ty: u8, min_len: u8) -> Seq<Seq<u8>>
    decreases s.len(),
    via descriptor_groups_decreases
{
    if !starts_with_descriptor(s) {
        seq![]
    } else if opens_group(s, ty, min_len) {
        seq![s.take(group_len(s, ty))] + descriptor_groups(s.skip(group_len(s, ty)), ty, min_len)
    } else {
        descriptor_groups(after_descriptor(s), ty, min_len)
    }
}

#[via_fn]
proof fn descriptor_groups_decreases(s: Seq<u8>, ty: u8, min_len: u8) {
    if starts_with_descriptor(s) {
        lemma_run_of_other_types(after_descriptor(s), ty);
    }
}

pub proof fn lemma_run_of_other_types(s: Seq<u8>, ty: u8)
    ensures
        0 <= run_of_other_types(s, ty) <= s.len(),
    decreases s.len(),
{
    if starts_with_descriptor(s) && s[1] != ty {
        lemma_run_of_other_types(after_descriptor(s), ty);
    }
}

/// A raw USB descriptor.
///
/// Wraps a byte slice to provide access to the bytes of a descriptor by implementing `Deref` to
/// `[u8]`, while also exposing the descriptor length and type.
#[derive(Clone, Copy, Debug, PartialEq, Eq)]
pub struct Descriptor<'a>(&'a [u8]);

impl<'a> View for Descriptor<'a> {
    type V = Seq<u8>;

    closed spec fn view(&self) -> Seq<u8> {
        self.0@
    }
}

impl<'a> Descriptor<'a> {
    #[verifier::type_invariant]
    spec fn has_header(self) -> bool {
        self.0@.len() >= 2
    }

    /// Create a `Descriptor` from a buffer.
    ///
    /// Returns `None` if
    ///   * the slice length is not at least 2.
    ///   * the `bLength` field (first byte) is greater than the slice length.
    pub fn new(buf: &'a [u8]) -> (r: Option<Descriptor<'a>>)
        ensures
            r is Some <==> buf@.len() >= 2 && buf@[0] <= buf@.len(),
            r matches Some(d) ==> d@ == buf@,
    {
        if buf.len() >= 2 && buf.len() >= buf[0] as usize {
            Some(Descriptor(buf))
        } else {
            None
        }
    }

    /// Get the length field of the descriptor.
    pub fn descriptor_len(&self) -> (r: usize)
        ensures
            r == self@[0],
    {
        proof {
            use_type_invariant(self);
        }
        self.0[0] as usize
    }

    /// Get the type field of the descriptor.
    pub fn descriptor_type(&self) -> (r: u8)
        ensures
            r == self@[1],
    {
        proof {
            use_type_invariant(self);
        }
        self.0[1]
    }
}

impl<'a> Deref for Descriptor<'a> {
    type Target = [u8];

    fn deref(&self) -> (r: &[u8])
        ensures
            r@ == self@,
    {
        self.0
    }
}

/// A sequence of USB descriptors, taken one at a time.
#[derive(Clone, Copy)]
pub struct Descriptors<'a>(&'a [u8]);

impl<'a> View for Descriptors<'a> {
    type V = Seq<u8>;

    /// The bytes of the remaining descriptors.
    closed spec fn view(&self) -> Seq<u8> {
        self.0@
    }
}

impl<'a> Descriptors<'a> {
    /// Get the concatenated bytes of the remaining descriptors.
    pub fn as_bytes(&self) -> (r: &'a [u8])
        ensures
            r@ == self@,
    {
        self.0
    }

    fn split_first(&self) -> (r: Option<(&'a [u8], &'a [u8])>)
        ensures
            r is Some <==> starts_with_descriptor(self@),
            r matches Some((cur, next)) ==> cur@ == first_descriptor(self@) && next@
                == after_descriptor(self@),
    {
        if self.0.len() < 2 {
            return None;
        }
        if self.0[0] < 2 {
            return None;
        }
        if self.0[0] as usize > self.0.len() {
            return None;
        }
        Some(self.0.split_at(self.0[0] as usize))
    }

    /// Take the next descriptor off the sequence.
    ///
    /// There is none where the rest has no header, or one whose `bLength` is less than 2 or
    /// greater than what is left; the sequence then stays as it is.
    pub fn next(&mut self) -> (r: Option<Descriptor<'a>>)
        ensures
            r is Some <==> starts_with_descriptor(old(self)@),
            r is Some <==> old(self)@.len() >= 2 && 2 <= old(self)@[0] <= old(self)@.len(),
            r matches Some(d) ==> d@ == first_descriptor(old(self)@) && final(self)@
                == after_descriptor(old(self)@),
            r matches Some(d) ==> d@ == old(self)@.take(old(self)@[0] as int) && final(self)@
                == old(self)@.skip(old(self)@[0] as int),
            r is None ==> *final(self) == *old(self),
    {
        if let Some((cur, next)) = self.split_first() {
            self.0 = next;
            Some(Descriptor(cur))
        } else {
            None
        }
    }

    /// The groups that begin with a descriptor of type `descriptor_type` and run up to the next
    /// one. One that is shorter than `min_len` begins no group, and is passed over with what
    /// follows it.
    fn split_by_type(self, descriptor_type: u8, min_len: u8) -> (r: Vec<&'a [u8]>)
        ensures
            r@.map_values(|g: &'a [u8]| g@) == descriptor_groups(self@, descriptor_type, min_len),
    {
        let mut rest = self;
        let mut groups: Vec<&'a [u8]> = Vec::new();
        let ghost all = descriptor_groups(self@, descriptor_type, min_len);
        proof {
            assert(groups@.map_values(|g: &'a [u8]| g@) =~= seq![]);
        }
        loop
            invariant
                all == groups@.map_values(|g: &'a [u8]| g@) + descriptor_groups(
                    rest@,
                    descriptor_type,
                    min_len,
                ),
            ensures
                !starts_with_descriptor(rest@),
            decreases rest@.len(),
        {
            let next = match rest.split_first() {
                Some((_, next)) => next,
                None => break,
            };
            let s = rest.0;
            if s[1] != descriptor_type || s[0] < min_len {
                rest = Descriptors(next);
                continue;
            }
            let mut end: usize = s[0] as usize;
            while s.len() - end >= 2 && s[end] >= 2 && s[end + 1] != descriptor_type && s.len() - end
                >= s[end] as usize
                invariant
                    s@ == rest@,
                    0 < end <= s@.len(),
                    end + run_of_other_types(s@.skip(end as int), descriptor_type) == group_len(
                        s@,
                        descriptor_type,
                    ),
                decreases s@.len() - end,
            {
                proof {
                    let t = s@.skip(end as int);
                    assert(after_descriptor(t) =~= s@.skip(end + t[0]));
                }
                end = end + s[end] as usize;
            }
            assert(!(starts_with_descriptor(s@.skip(end as int)) && s@.skip(end as int)[1]
                != descriptor_type));
            let (group, next) = s.split_at(end);
            proof {
                assert(groups@.push(group).map_values(|g: &'a [u8]| g@) =~= groups@.map_values(
                    |g: &'a [u8]| g@,
                ).push(group@));
                assert(group@ =~= s@.take(group_len(s@, descriptor_type)));
                assert(next@ =~= s@.skip(group_len(s@, descriptor_type)));
            }
            groups.push(group);
            rest = Descriptors(next);
        }
        groups
    }
}

/// Whether `s` begins with a configuration descriptor whose `wTotalLength` covers that descriptor
/// and stays inside `s`.
pub open spec fn starts_with_config(s: Seq<u8>) -> bool {
    &&& s.len() >= DESCRIPTOR_LEN_CONFIGURATION
    &&& s[0] >= DESCRIPTOR_LEN_CONFIGURATION
    &&& s[1] == DESCRIPTOR_TYPE_CONFIGURATION
    &&& s[0] <= config_total_len(s) <= s.len()
}

/// The `wTotalLength` field of the configuration descriptor at the start of `s`.
pub open spec fn config_total_len(s: Seq<u8>) -> u16 {
    le16(s[2], s[3])
}

/// The total length of the configuration at the start of `buf`, if there is a valid one.
pub fn validate_config_descriptor(buf: &[u8]) -> (r: Option<usize>)
    ensures
        r is Some <==> starts_with_config(buf@),
        r is Some <==> buf@.len() >= 9 && buf@[0] >= 9 && buf@[1] == 2 && buf@[0] <= buf@[2] + 256
            * buf@[3] <= buf@.len(),
        r matches Some(total_len) ==> total_len == config_total_len(buf@) && total_len == buf@[2]
            + 256 * buf@[3],
{
    if buf.len() < DESCRIPTOR_LEN_CONFIGURATION as usize {
        return None;
    }
    if buf[0] < DESCRIPTOR_LEN_CONFIGURATION {
        return None;
    }
    if buf[1] != DESCRIPTOR_TYPE_CONFIGURATION {
        return None;
    }
    let total_len: usize = read_le16(buf, 2) as usize;
    if total_len < buf[0] as usize || total_len > buf.len() {
        return None;
    }
    Some(total_len)
}

/// Whether `s` begins with a device descriptor.
pub open spec fn starts_with_device(s: Seq<u8>) -> bool {
    s.len() >= DESCRIPTOR_LEN_DEVICE && s[0] >= DESCRIPTOR_LEN_DEVICE && s[1]
        == DESCRIPTOR_TYPE_DEVICE
}

/// Information about a USB device.
#[derive(Clone, Copy)]
pub struct DeviceDescriptor<'a>(&'a [u8]);

impl<'a> View for DeviceDescriptor<'a> {
    type V = Seq<u8>;

    closed spec fn view(&self) -> Seq<u8> {
        self.0@
    }
}

impl<'a> DeviceDescriptor<'a> {
    #[verifier::type_invariant]
    spec fn has_fields(self) -> bool {
        self.0@.len() >= DESCRIPTOR_LEN_DEVICE
    }

    /// Create a `DeviceDescriptor` from a buffer that begins with one.
    pub fn new(buf: &'a [u8]) -> (r: Option<DeviceDescriptor<'a>>)
        ensures
            r is Some <==> starts_with_device(buf@),
            r is Some <==> buf@.len() >= 18 && buf@[0] >= 18 && buf@[1] == 1,
            r matches Some(d) ==> d@ == buf@,
    {
        if buf.len() >= DESCRIPTOR_LEN_DEVICE as usize && buf[0] >= DESCRIPTOR_LEN_DEVICE && buf[1]
            == DESCRIPTOR_TYPE_DEVICE {
            Some(DeviceDescriptor(buf))
        } else {
            None
        }
    }

    /// `bcdUSB` descriptor field: USB version number in binary coded decimal.
    pub fn usb_version(&self) -> (r: u16)
        ensures
            r == le16(self@[2], self@[3]),
            r == self@[2] + 256 * self@[3],
    {
        proof {
            use_type_invariant(self);
        }
        read_le16(self.0, 2)
    }

    /// `bDeviceClass` descriptor field: Code identifying the standard device class.
    pub fn class(&self) -> (r: u8)
        ensures
            r == self@[4],
    {
        proof {
            use_type_invariant(self);
        }
        self.0[4]
    }

    /// `bDeviceSubClass` descriptor field: Standard subclass.
    pub fn subclass(&self) -> (r: u8)
        ensures
            r == self@[5],
    {
        proof {
            use_type_invariant(self);
        }
        self.0[5]
    }

    /// `bDeviceProtocol` descriptor field: Standard protocol.
    pub fn protocol(&self) -> (r: u8)
        ensures
            r == self@[6],
    {
        proof {
            use_type_invariant(self);
        }
        self.0[6]
    }

    /// `idVendor` descriptor field: Vendor ID.
    pub fn vendor_id(&self) -> (r: u16)
        ensures
            r == le16(self@[8], self@[9]),
            r == self@[8] + 256 * self@[9],
    {
        proof {
            use_type_invariant(self);
        }
        read_le16(self.0, 8)
    }

    /// `idProduct` descriptor field: Product ID.
    pub fn product_id(&self) -> (r: u16)
        ensures
            r == le16(self@[10], self@[11]),
            r == self@[10] + 256 * self@[11],
    {
        proof {
            use_type_invariant(self);
        }
        read_le16(self.0, 10)
    }

    /// `bcdDevice` descriptor field: Device version number.
    pub fn device_version(&self) -> (r: u16)
        ensures
            r == le16(self@[12], self@[13]),
            r == self@[12] + 256 * self@[13],
    {
        proof {
            use_type_invariant(self);
        }
        read_le16(self.0, 12)
    }
}

/// A string descriptor index, where 0 means that there is none.
pub(crate) fn nonzero_index(index: u8) -> (r: Option<u8>)
    ensures
        r == nonzero(index),
{
    if index != 0 {
        Some(index)
    } else {
        None
    }
}

/// An index that is absent when it is 0.
pub open spec fn nonzero(index: u8) -> Option<u8> {
    if index != 0 {
        Some(index)
    } else {
        None
    }
}

/// Information about a USB configuration with access to all associated interfaces, endpoints, and
/// other descriptors.
#[derive(Clone, Copy)]
pub struct Configuration<'a>(&'a [u8]);

impl<'a> View for Configuration<'a> {
    type V = Seq<u8>;

    closed spec fn view(&self) -> Seq<u8> {
        self.0@
    }
}

impl<'a> Configuration<'a> {
    #[verifier::type_invariant]
    spec fn has_fields(self) -> bool {
        self.0@.len() >= DESCRIPTOR_LEN_CONFIGURATION
    }

    /// Create a `Configuration` from a buffer containing a series of descriptors.
    ///
    /// The buffer begins with a configuration descriptor, and is at least as long as the `bLength`
    /// and `wTotalLength` fields say.
    pub fn new(buf: &'a [u8]) -> (r: Configuration<'a>)
        requires
            buf@.len() >= DESCRIPTOR_LEN_CONFIGURATION,
            DESCRIPTOR_LEN_CONFIGURATION <= buf@[0] <= buf@.len(),
            buf@[1] == DESCRIPTOR_TYPE_CONFIGURATION,
            config_total_len(buf@) <= buf@.len(),
        ensures
            r@ == buf@,
    {
        Configuration(buf)
    }

    /// Create a `Configuration` from a buffer without a look at its `bLength`, `bDescriptorType`
    /// and `wTotalLength` fields.
    pub fn new_unchecked(buf: &'a [u8]) -> (r: Configuration<'a>)
        requires
            buf@.len() >= DESCRIPTOR_LEN_CONFIGURATION,
        ensures
            r@ == buf@,
    {
        Configuration(buf)
    }

    /// Get the configuration descriptor followed by all trailing interface and other descriptors.
    pub fn descriptors(&self) -> (r: Descriptors<'a>)
        ensures
            r@ == self@,
    {
        Descriptors(self.0)
    }

    /// The bytes of each alternate setting of each interface, in the order of the descriptors.
    pub open spec fn alt_setting_bytes(&self) -> Seq<Seq<u8>> {
        descriptor_groups(self@, DESCRIPTOR_TYPE_INTERFACE, DESCRIPTOR_LEN_INTERFACE)
    }

    /// All interfaces and alternate settings of this configuration.
    pub fn interface_alt_settings(&self) -> (r: Vec<InterfaceAltSetting<'a>>)
        ensures
            setting_bytes(r@) == self.alt_setting_bytes(),
            r@.len() == descriptor_groups(self@, 4, 9).len(),
            forall|i: int|
                0 <= i < r@.len() ==> (#[trigger] r@[i])@ == descriptor_groups(self@, 4, 9)[i],
    {
        let groups = self.descriptors().split_by_type(
            DESCRIPTOR_TYPE_INTERFACE,
            DESCRIPTOR_LEN_INTERFACE,
        );
        proof {
            law_groups_have_fields(self@, DESCRIPTOR_TYPE_INTERFACE, DESCRIPTOR_LEN_INTERFACE);
        }
        let ghost all = self.alt_setting_bytes();
        let mut settings: Vec<InterfaceAltSetting<'a>> = Vec::new();
        let mut i: usize = 0;
        while i < groups.len()
            invariant
                i <= groups@.len(),
                settings@.len() == i,
                all == groups@.map_values(|g: &'a [u8]| g@),
                forall|k: int| 0 <= k < all.len() ==> #[trigger] all[k].len() >= DESCRIPTOR_LEN_INTERFACE,
                forall|k: int| 0 <= k < i ==> (#[trigger] settings@[k])@ == all[k],
            decreases groups@.len() - i,
        {
            assert(all[i as int] == groups@[i as int]@);
            settings.push(InterfaceAltSetting(groups[i]));
            i = i + 1;
        }
        assert(setting_bytes(settings@) =~= all);
        proof {
            assert forall|i: int| 0 <= i < settings@.len() implies (#[trigger] settings@[i])@
                == all[i] by {
                assert(setting_bytes(settings@)[i] == settings@[i]@);
            }
        }
        settings
    }

    /// The interfaces of this configuration, grouping together alternate settings of the same
    /// interface, by increasing interface number.
    pub fn interfaces(&self) -> (r: Vec<InterfaceGroup<'a>>)
        ensures
            groups_by_number(group_views(r@), self.alt_setting_bytes()),
            group_views(r@) == interface_groups(self.alt_setting_bytes()),
            forall|i: int, j: int|
                0 <= i < j < r@.len() ==> (#[trigger] r@[i])@.0 < (#[trigger] r@[j])@.0,
            forall|i: int|
                0 <= i < r@.len() ==> (#[trigger] r@[i])@.1.len() > 0 && r@[i]@.1
                    == descriptor_groups(self@, 4, 9).filter(|s: Seq<u8>| s[2] == r@[i]@.0),
            forall|k: int|
                0 <= k < descriptor_groups(self@, 4, 9).len() ==> r@.map_values(
                    |g: InterfaceGroup<'a>| g@.0,
                ).contains((#[trigger] descriptor_groups(self@, 4, 9)[k])[2]),
    {
        let settings = self.interface_alt_settings();
        let ghost all = self.alt_setting_bytes();
        let mut groups: Vec<(u8, Vec<InterfaceAltSetting<'a>>)> = Vec::new();
        let mut i: usize = 0;
        while i < settings.len()
            invariant
                i <= settings@.len(),
                setting_bytes(settings@) == all,
                groups_by_number(pair_views(groups@), all.take(i as int)),
            decreases settings@.len() - i,
        {
            let setting = settings[i];
            let number: u8 = setting.interface_number();
            let mut at: usize = 0;
            while at < groups.len() && groups[at].0 < number
                invariant
                    at <= groups@.len(),
                    forall|k: int| 0 <= k < at ==> (#[trigger] groups@[k]).0 < number,
                decreases groups@.len() - at,
            {
                at = at + 1;
            }
            let ghost before = pair_views(groups@);
            if at < groups.len() && groups[at].0 == number {
                groups[at].1.push(setting);
                proof {
                    assert(setting_bytes(groups@[at as int].1@) =~= before[at as int].1.push(
                        setting@,
                    ));
                    assert(pair_views(groups@) =~= before.update(
                        at as int,
                        (number, before[at as int].1.push(setting@)),
                    ));
                }
            } else {
                let mut list: Vec<InterfaceAltSetting<'a>> = Vec::new();
                list.push(setting);
                proof {
                    assert(setting_bytes(list@) =~= seq![setting@]);
                }
                groups.insert(at, (number, list));
                proof {
                    assert(pair_views(groups@) =~= before.insert(
                        at as int,
                        (number, seq![setting@]),
                    ));
                }
            }
            proof {
                assert(setting@ == all[i as int]);
                assert(all.take(i + 1) =~= all.take(i as int).push(setting@));
                lemma_add_to_group(before, all.take(i as int), setting@, at as int);
            }
            i = i + 1;
        }
        proof {
            assert(all.take(i as int) =~= all);
        }
        let ghost done = pair_views(groups@);
        let mut out: Vec<InterfaceGroup<'a>> = Vec::new();
        while groups.len() > 0
            invariant
                group_views(out@) + pair_views(groups@) == done,
                groups_by_number(done, all),
            decreases groups@.len(),
        {
            let ghost left = pair_views(groups@);
            let ghost views = group_views(out@);
            let (intf_number, interfaces) = groups.remove(0);
            proof {
                assert(done[views.len() as int] == left[0]);
                assert(pair_views(groups@) =~= left.skip(1));
            }
            let group = InterfaceGroup { intf_number, interfaces };
            proof {
                assert(group_views(out@.push(group)) =~= views.push(left[0]));
            }
            out.push(group);
            assert(group_views(out@) + pair_views(groups@) =~= done);
        }
        assert(group_views(out@) + pair_views(groups@) =~= group_views(out@));
        proof {
            law_grouping_is_unique(group_views(out@), interface_groups(all), all);
            let views = group_views(out@);
            assert(forall|i: int| 0 <= i < out@.len() ==> views[i] == (#[trigger] out@[i])@);
            assert forall|i: int| 0 <= i < out@.len() implies (#[trigger] out@[i])@.1.len() > 0
                && out@[i]@.1 == descriptor_groups(self@, 4, 9).filter(
                |s: Seq<u8>| s[2] == out@[i]@.0,
            ) by {
                let number = out@[i]@.0;
                assert(views[i].1 == settings_of(all, views[i].0));
                assert((|s: Seq<u8>| s[2] == number) =~= (|s: Seq<u8>| s[2] == out@[i]@.0));
            }
            let numbers = out@.map_values(|g: InterfaceGroup<'a>| g@.0);
            assert forall|k: int| 0 <= k < all.len() implies numbers.contains(
                (#[trigger] all[k])[2],
            ) by {
                let i = choose|i: int| 0 <= i < views.len() && (#[trigger] views[i]).0 == all[k][2];
                assert(out@[i]@ == views[i]);
                assert(numbers[i] == all[k][2]);
            }
        }
        out
    }

    /// `bNumInterfaces` descriptor field: Number of interfaces.
    pub fn num_interfaces(&self) -> (r: u8)
        ensures
            r == self@[4],
    {
        proof {
            use_type_invariant(self);
        }
        self.0[4]
    }

    /// `bConfigurationValue` descriptor field: Identifier for the configuration.
    pub fn configuration_value(&self) -> (r: u8)
        ensures
            r == self@[5],
    {
        proof {
            use_type_invariant(self);
        }
        self.0[5]
    }

    /// Index of the string descriptor describing this configuration.
    pub fn string_index(&self) -> (r: Option<u8>)
        ensures
            r == nonzero(self@[6]),
            r is None <==> self@[6] == 0,
            r matches Some(i) ==> i == self@[6],
    {
        proof {
            use_type_invariant(self);
        }
        nonzero_index(self.0[6])
    }

    /// `bmAttributes` descriptor field: Bitmap of configuration attributes.
    pub fn attributes(&self) -> (r: u8)
        ensures
            r == self@[7],
    {
        proof {
            use_type_invariant(self);
        }
        self.0[7]
    }

    /// `bMaxPower` descriptor field: Maximum power, in units of **2** milliamps.
    pub fn max_power(&self) -> (r: u8)
        ensures
            r == self@[8],
    {
        proof {
            use_type_invariant(self);
        }
        self.0[8]
    }
}

/// The bytes of each of several alternate settings.
pub open spec fn setting_bytes(settings: Seq<InterfaceAltSetting<'_>>) -> Seq<Seq<u8>> {
    settings.map_values(|s: InterfaceAltSetting<'_>| s@)
}

/// The number of each of several groups, with the bytes of its alternate settings.
pub open spec fn group_views(groups: Seq<InterfaceGroup<'_>>) -> Seq<(u8, Seq<Seq<u8>>)> {
    groups.map_values(|g: InterfaceGroup<'_>| g@)
}

spec fn pair_views(groups: Seq<(u8, Vec<InterfaceAltSetting<'_>>)>) -> Seq<(u8, Seq<Seq<u8>>)> {
    groups.map_values(|g: (u8, Vec<InterfaceAltSetting<'_>>)| (g.0, setting_bytes(g.1@)))
}

/// The alternate settings of the interface `number`, in the order of `settings`.
pub open spec fn settings_of(settings: Seq<Seq<u8>>, number: u8) -> Seq<Seq<u8>> {
    settings.filter(|s: Seq<u8>| s[2] == number)
}

/// `groups` has one group for each interface number that occurs in `settings`, by increasing
/// number, and a group has the alternate settings of its interface in the order of `settings`.
pub open spec fn groups_by_number(
    groups: Seq<(u8, Seq<Seq<u8>>)>,
    settings: Seq<Seq<u8>>,
) -> bool {
    &&& forall|i: int, j: int| 0 <= i < j < groups.len() ==> (#[trigger] groups[i]).0 < (
    #[trigger] groups[j]).0
    &&& forall|i: int|
        0 <= i < groups.len() ==> (#[trigger] groups[i]).1 == settings_of(settings, groups[i].0)
            && groups[i].1.len() > 0
    &&& forall|k: int|
        0 <= k < settings.len() ==> exists|i: int|
            0 <= i < groups.len() && (#[trigger] groups[i]).0 == (#[trigger] settings[k])[2]
}

/// The groups of alternate settings by interface number.
pub open spec fn interface_groups(settings: Seq<Seq<u8>>) -> Seq<(u8, Seq<Seq<u8>>)> {
    choose|groups: Seq<(u8, Seq<Seq<u8>>)>| groups_by_number(groups, settings)
}

/// A device, configuration or string descriptor is known by its type, and is at least as long as its
/// fields, or just as long as it says. A number of two bytes has the low one first, and the index of a
/// string that is not there is 0.
pub proof fn law_descriptors_are_known_by_type(s: Seq<u8>, low: u8, high: u8)
    ensures
        starts_with_device(s) <==> s.len() >= 18 && s[0] >= 18 && s[1] == 1,
        starts_with_config(s) <==> s.len() >= 9 && s[0] >= 9 && s[1] == 2 && s[0] <= s[2] + 256
            * s[3] <= s.len(),
        is_string_descriptor(s) <==> s.len() >= 2 && s[0] == s.len() && s[1] == 3,
        starts_with_descriptor(s) <==> s.len() >= 2 && 2 <= s[0] <= s.len(),
        config_total_len(s) == s[2] + 256 * s[3],
        le16(low, high) == low + 256 * high,
        low == 0 ==> nonzero(low) is None,
        low != 0 ==> nonzero(low) == Some(low),
{
}

/// There is only one way to group alternate settings by interface number.
pub proof fn law_grouping_is_unique(
    a: Seq<(u8, Seq<Seq<u8>>)>,
    b: Seq<(u8, Seq<Seq<u8>>)>,
    settings: Seq<Seq<u8>>,
)
    requires
        groups_by_number(a, settings),
        groups_by_number(b, settings),
    ensures
        a == b,
{
    lemma_groups_agree(a, b, settings, a.len() as int);
    lemma_groups_agree(b, a, settings, b.len() as int);
    assert(a =~= b);
}

/// Alternate settings are grouped by interface number: the groups have increasing numbers, each has all
/// the settings of its number, in their order, and every setting is in one.
pub proof fn law_settings_are_grouped(settings: Seq<Seq<u8>>)
    ensures
        ({
            let groups = interface_groups(settings);
            &&& forall|i: int, j: int|
                0 <= i < j < groups.len() ==> (#[trigger] groups[i]).0 < (#[trigger] groups[j]).0
            &&& forall|i: int|
                0 <= i < groups.len() ==> (#[trigger] groups[i]).1 == settings.filter(
                    |s: Seq<u8>| s[2] == groups[i].0,
                ) && groups[i].1.len() > 0
            &&& forall|k: int|
                0 <= k < settings.len() ==> groups.map_values(
                    |g: (u8, Seq<Seq<u8>>)| g.0,
                ).contains((#[trigger] settings[k])[2])
        }),
{
    let some = lemma_grouping_exists(settings);
    let groups = interface_groups(settings);
    assert(groups_by_number(groups, settings));
    assert forall|i: int| 0 <= i < groups.len() implies (#[trigger] groups[i]).1 == settings.filter(
        |s: Seq<u8>| s[2] == groups[i].0,
    ) && groups[i].1.len() > 0 by {
        assert(groups[i].1 == settings_of(settings, groups[i].0));
        let number = groups[i].0;
        assert((|s: Seq<u8>| s[2] == number) =~= (|s: Seq<u8>| s[2] == groups[i].0));
    }
    let numbers = groups.map_values(|g: (u8, Seq<Seq<u8>>)| g.0);
    assert forall|k: int| 0 <= k < settings.len() implies numbers.contains(
        (#[trigger] settings[k])[2],
    ) by {
        let i = choose|i: int| 0 <= i < groups.len() && (#[trigger] groups[i]).0 == settings[k][2];
        assert(numbers[i] == settings[k][2]);
    }
}

proof fn lemma_grouping_exists(settings: Seq<Seq<u8>>) -> (groups: Seq<(u8, Seq<Seq<u8>>)>)
    ensures
        groups_by_number(groups, settings),
    decreases settings.len(),
{
    if settings.len() == 0 {
        Seq::empty()
    } else {
        let before = settings.drop_last();
        let setting = settings.last();
        let groups = lemma_grouping_exists(before);
        let at = lemma_place_in_groups(groups, setting[2], 0);
        lemma_add_to_group(groups, before, setting, at);
        assert(before.push(setting) =~= settings);
        if at < groups.len() && groups[at].0 == setting[2] {
            groups.update(at, (setting[2], groups[at].1.push(setting)))
        } else {
            groups.insert(at, (setting[2], seq![setting]))
        }
    }
}

proof fn lemma_place_in_groups(groups: Seq<(u8, Seq<Seq<u8>>)>, number: u8, from: int) -> (at: int)
    requires
        0 <= from <= groups.len(),
        forall|k: int| 0 <= k < from ==> (#[trigger] groups[k]).0 < number,
    ensures
        0 <= at <= groups.len(),
        forall|k: int| 0 <= k < at ==> (#[trigger] groups[k]).0 < number,
        at < groups.len() ==> groups[at].0 >= number,
    decreases groups.len() - from,
{
    if from < groups.len() && groups[from].0 < number {
        lemma_place_in_groups(groups, number, from + 1)
    } else {
        from
    }
}

/// Every group of one grouping stands at the same place in any other.
proof fn lemma_groups_agree(
    a: Seq<(u8, Seq<Seq<u8>>)>,
    b: Seq<(u8, Seq<Seq<u8>>)>,
    settings: Seq<Seq<u8>>,
    n: int,
)
    requires
        groups_by_number(a, settings),
        groups_by_number(b, settings),
        0 <= n <= a.len(),
    ensures
        n <= b.len(),
        forall|i: int| 0 <= i < n ==> #[trigger] a[i] == b[i],
    decreases n,
{
    if n > 0 {
        lemma_groups_agree(a, b, settings, n - 1);
        let i = n - 1;
        lemma_filtered_occurs(settings, a[i].0);
        let k = choose|k: int| 0 <= k < settings.len() && #[trigger] settings[k][2] == a[i].0;
        let j = choose|j: int| 0 <= j < b.len() && (#[trigger] b[j]).0 == settings[k][2];
        assert(b[j].0 == a[i].0);
        if j < i {
            assert(a[j] == b[j]);
            assert(a[j].0 < a[i].0);
        }
        if j > i {
            lemma_filtered_occurs(settings, b[i].0);
            let k2 = choose|k: int| 0 <= k < settings.len() && #[trigger] settings[k][2] == b[i].0;
            let j2 = choose|j: int| 0 <= j < a.len() && (#[trigger] a[j]).0 == settings[k2][2];
            assert(a[j2].0 == b[i].0);
            assert(b[i].0 < b[j].0);
            assert(a[j2].0 < a[i].0);
            if j2 >= i {
                assert(a[i].0 <= a[j2].0);
            } else {
                assert(a[j2] == b[j2]);
                assert(b[j2].0 < b[i].0);
            }
        }
    }
}

/// Adding one more setting to a grouping keeps it one: at the end of the group of its number
/// where there is one, else in a new group at the place that keeps the numbers increasing.
proof fn lemma_add_to_group(
    groups: Seq<(u8, Seq<Seq<u8>>)>,
    settings: Seq<Seq<u8>>,
    setting: Seq<u8>,
    at: int,
)
    requires
        groups_by_number(groups, settings),
        0 <= at <= groups.len(),
        forall|k: int| 0 <= k < at ==> (#[trigger] groups[k]).0 < setting[2],
        at < groups.len() ==> groups[at].0 >= setting[2],
    ensures
        at < groups.len() && groups[at].0 == setting[2] ==> groups_by_number(
            groups.update(at, (setting[2], groups[at].1.push(setting))),
            settings.push(setting),
        ),
        !(at < groups.len() && groups[at].0 == setting[2]) ==> groups_by_number(
            groups.insert(at, (setting[2], seq![setting])),
            settings.push(setting),
        ),
{
    reveal(Seq::filter);
    assert(settings.push(setting).drop_last() =~= settings);
    assert forall|n: u8|
        #![trigger settings_of(settings.push(setting), n)]
        settings_of(settings.push(setting), n) == if n == setting[2] {
            settings_of(settings, n).push(setting)
        } else {
            settings_of(settings, n)
        } by {}
    let all = settings.push(setting);
    if at < groups.len() && groups[at].0 == setting[2] {
        let new = groups.update(at, (setting[2], groups[at].1.push(setting)));
        assert forall|k: int| 0 <= k < all.len() implies exists|i: int|
            0 <= i < new.len() && (#[trigger] new[i]).0 == (#[trigger] all[k])[2] by {
            if k == settings.len() {
                assert(new[at].0 == all[k][2]);
            } else {
                assert(all[k] == settings[k]);
                let i = choose|i: int|
                    0 <= i < groups.len() && (#[trigger] groups[i]).0 == settings[k][2];
                assert(new[i].0 == all[k][2]);
            }
        }
    } else {
        let new = groups.insert(at, (setting[2], seq![setting]));
        if settings_of(settings, setting[2]).len() > 0 {
            lemma_filtered_occurs(settings, setting[2]);
            let k = choose|k: int| 0 <= k < settings.len() && #[trigger] settings[k][2] == setting[2];
            let i = choose|i: int|
                0 <= i < groups.len() && (#[trigger] groups[i]).0 == settings[k][2];
            assert(groups[i].0 == setting[2]);
            assert(i >= at);
            assert(groups[at].0 <= groups[i].0);
            assert(false);
        }
        assert(settings_of(settings, setting[2]) =~= seq![]);
        assert(settings_of(all, setting[2]) =~= seq![setting]);
        assert forall|i: int| 0 <= i < new.len() implies (#[trigger] new[i]).1 == settings_of(
            all,
            new[i].0,
        ) && new[i].1.len() > 0 by {
            if i < at {
                assert(new[i] == groups[i]);
            } else if i > at {
                assert(new[i] == groups[i - 1]);
                assert(groups[at].0 <= groups[i - 1].0);
            }
        }
        assert forall|i: int, j: int| 0 <= i < j < new.len() implies (#[trigger] new[i]).0 < (
        #[trigger] new[j]).0 by {
            if j > at {
                assert(new[j] == groups[j - 1]);
                assert(groups[at].0 <= groups[j - 1].0);
            }
            if i > at {
                assert(new[i] == groups[i - 1]);
            }
        }
        assert forall|k: int| 0 <= k < all.len() implies exists|i: int|
            0 <= i < new.len() && (#[trigger] new[i]).0 == (#[trigger] all[k])[2] by {
            if k == settings.len() {
                assert(new[at].0 == all[k][2]);
            } else {
                assert(all[k] == settings[k]);
                let i = choose|i: int|
                    0 <= i < groups.len() && (#[trigger] groups[i]).0 == settings[k][2];
                let j = if i < at {
                    i
                } else {
                    i + 1
                };
                assert(new[j] == groups[i]);
            }
        }
    }
}

proof fn lemma_filtered_occurs(settings: Seq<Seq<u8>>, number: u8)
    requires
        settings_of(settings, number).len() > 0,
    ensures
        exists|k: int| 0 <= k < settings.len() && #[trigger] settings[k][2] == number,
    decreases settings.len(),
{
    reveal(Seq::filter);
    if settings.len() > 0 {
        if settings.last()[2] == number {
            assert(settings[settings.len() - 1][2] == number);
        } else {
            lemma_filtered_occurs(settings.drop_last(), number);
            let k = choose|k: int|
                0 <= k < settings.drop_last().len() && #[trigger] settings.drop_last()[k][2]
                    == number;
            assert(settings[k][2] == number);
        }
    }
}

/// Every group is at least as long as its first descriptor has to be, and that descriptor has the
/// type that was asked for.
pub proof fn law_groups_have_fields(s: Seq<u8>, ty: u8, min_len: u8)
    ensures
        forall|k: int|
            0 <= k < descriptor_groups(s, ty, min_len).len() ==> {
                let g = #[trigger] descriptor_groups(s, ty, min_len)[k];
                &&& starts_with_descriptor(g)
                &&& opens_group(g, ty, min_len)
                &&& g.len() >= min_len
            },
    decreases s.len(),
{
    let groups = descriptor_groups(s, ty, min_len);
    if starts_with_descriptor(s) {
        lemma_run_of_other_types(after_descriptor(s), ty);
        if opens_group(s, ty, min_len) {
            let rest = s.skip(group_len(s, ty));
            law_groups_have_fields(rest, ty, min_len);
            assert forall|k: int| 0 <= k < groups.len() implies {
                let g = #[trigger] groups[k];
                &&& starts_with_descriptor(g)
                &&& opens_group(g, ty, min_len)
                &&& g.len() >= min_len
            } by {
                if k > 0 {
                    assert(groups[k] == descriptor_groups(rest, ty, min_len)[k - 1]);
                }
            }
        } else {
            law_groups_have_fields(after_descriptor(s), ty, min_len);
            assert(groups == descriptor_groups(after_descriptor(s), ty, min_len));
        }
    } else {
        assert(groups.len() == 0);
    }
}

proof fn lemma_filter_one<A>(a: A, p: spec_fn(A) -> bool)
    ensures
        seq![a].filter(p) == if p(a) {
            seq![a]
        } else {
            seq![]
        },
{
    reveal_with_fuel(Seq::filter, 2);
    assert(seq![a].drop_last() =~= seq![]);
}

/// The descriptors of a chain, put together again, are the bytes that they were taken from, up to
/// where the chain breaks off.
pub proof fn law_chain_is_prefix(s: Seq<u8>)
    ensures
        descriptor_chain(s).flatten().is_prefix_of(s),
    decreases s.len(),
{
    let chain = descriptor_chain(s);
    if starts_with_descriptor(s) {
        let rest = after_descriptor(s);
        law_chain_is_prefix(rest);
        assert(chain.drop_first() =~= descriptor_chain(rest));
        let tail = descriptor_chain(rest).flatten();
        assert(chain.flatten() == first_descriptor(s) + tail);
        assert(tail =~= rest.take(tail.len() as int));
        assert(first_descriptor(s) + tail =~= s.take(s[0] + tail.len()));
    } else {
        assert(chain.flatten() =~= seq![]);
    }
}

/// The descriptors that open a group are all those of the chain that have the type asked for and
/// the length it needs, in the same order: none is lost and none is made up.
pub proof fn law_groups_cover_chain(s: Seq<u8>, ty: u8, min_len: u8)
    ensures
        descriptor_groups(s, ty, min_len).map_values(|g: Seq<u8>| first_descriptor(g))
            == descriptor_chain(s).filter(|d: Seq<u8>| opens_group(d, ty, min_len)),
    decreases s.len(),
{
    let opens = |d: Seq<u8>| opens_group(d, ty, min_len);
    let first = |g: Seq<u8>| first_descriptor(g);
    let groups = descriptor_groups(s, ty, min_len);
    let chain = descriptor_chain(s);
    reveal(Seq::filter);
    if starts_with_descriptor(s) {
        let rest = after_descriptor(s);
        lemma_run_of_other_types(rest, ty);
        Seq::filter_distributes_over_add(seq![first_descriptor(s)], descriptor_chain(rest), opens);
        lemma_filter_one(first_descriptor(s), opens);
        assert(first_descriptor(s)[0] == s[0] && first_descriptor(s)[1] == s[1]);
        if opens_group(s, ty, min_len) {
            let end = group_len(s, ty);
            lemma_run_opens_nothing(rest, ty, min_len);
            assert(rest.skip(run_of_other_types(rest, ty)) =~= s.skip(end));
            law_groups_cover_chain(s.skip(end), ty, min_len);
            assert(first_descriptor(s.take(end)) =~= first_descriptor(s));
            assert(groups.map_values(first) =~= seq![first_descriptor(s.take(end))]
                + descriptor_groups(s.skip(end), ty, min_len).map_values(first));
        } else {
            law_groups_cover_chain(rest, ty, min_len);
            assert(seq![].add(descriptor_chain(rest).filter(opens)) =~= descriptor_chain(
                rest,
            ).filter(opens));
        }
    } else {
        assert(groups.map_values(first) =~= chain.filter(opens));
    }
}

proof fn lemma_run_opens_nothing(s: Seq<u8>, ty: u8, min_len: u8)
    ensures
        descriptor_chain(s).filter(|d: Seq<u8>| opens_group(d, ty, min_len)) == descriptor_chain(
            s.skip(run_of_other_types(s, ty)),
        ).filter(|d: Seq<u8>| opens_group(d, ty, min_len)),
    decreases s.len(),
{
    let opens = |d: Seq<u8>| opens_group(d, ty, min_len);
    reveal(Seq::filter);
    if starts_with_descriptor(s) && s[1] != ty {
        let rest = after_descriptor(s);
        lemma_run_of_other_types(rest, ty);
        lemma_run_opens_nothing(rest, ty, min_len);
        assert(rest.skip(run_of_other_types(rest, ty)) =~= s.skip(run_of_other_types(s, ty)));
        Seq::filter_distributes_over_add(seq![first_descriptor(s)], descriptor_chain(rest), opens);
        lemma_filter_one(first_descriptor(s), opens);
        assert(seq![].add(descriptor_chain(rest).filter(opens)) =~= descriptor_chain(rest).filter(
            opens,
        ));
    } else {
        assert(s.skip(0) =~= s);
    }
}

/// A group is nothing but whole descriptors, and of these only the first has the type that the
/// group was opened for.
pub proof fn law_group_is_whole(s: Seq<u8>, ty: u8, min_len: u8, k: int)
    requires
        0 <= k < descriptor_groups(s, ty, min_len).len(),
    ensures
        ({
            let g = descriptor_groups(s, ty, min_len)[k];
            &&& descriptor_chain(g).len() > 0
            &&& descriptor_chain(g).flatten() == g
            &&& descriptor_chain(g)[0][1] == ty
            &&& forall|i: int|
                1 <= i < descriptor_chain(g).len() ==> (#[trigger] descriptor_chain(g)[i])[1] != ty
        }),
    decreases s.len(),
{
    let rest = after_descriptor(s);
    lemma_run_of_other_types(rest, ty);
    if opens_group(s, ty, min_len) {
        let end = group_len(s, ty);
        if k > 0 {
            law_group_is_whole(s.skip(end), ty, min_len, k - 1);
        } else {
            let g = s.take(end);
            let run = run_of_other_types(rest, ty);
            assert(first_descriptor(g) =~= first_descriptor(s));
            assert(after_descriptor(g) =~= rest.take(run));
            lemma_run_is_whole(rest, ty);
            let chain = descriptor_chain(g);
            assert(chain.drop_first() =~= descriptor_chain(rest.take(run)));
            assert(chain.flatten() == first_descriptor(g) + rest.take(run));
            assert(first_descriptor(g) + rest.take(run) =~= g);
            assert forall|i: int| 1 <= i < chain.len() implies (#[trigger] chain[i])[1] != ty by {
                assert(chain[i] == descriptor_chain(rest.take(run))[i - 1]);
            }
        }
    } else {
        law_group_is_whole(rest, ty, min_len, k);
    }
}

proof fn lemma_run_is_whole(s: Seq<u8>, ty: u8)
    ensures
        ({
            let r = s.take(run_of_other_types(s, ty));
            &&& descriptor_chain(r).flatten() == r
            &&& forall|i: int|
                0 <= i < descriptor_chain(r).len() ==> (#[trigger] descriptor_chain(r)[i])[1] != ty
        }),
    decreases s.len(),
{
    let r = s.take(run_of_other_types(s, ty));
    let chain = descriptor_chain(r);
    lemma_run_of_other_types(s, ty);
    if starts_with_descriptor(s) && s[1] != ty {
        let rest = after_descriptor(s);
        lemma_run_of_other_types(rest, ty);
        lemma_run_is_whole(rest, ty);
        let tail = rest.take(run_of_other_types(rest, ty));
        assert(first_descriptor(r) =~= first_descriptor(s));
        assert(after_descriptor(r) =~= tail);
        assert(chain.drop_first() =~= descriptor_chain(tail));
        assert(chain.flatten() == first_descriptor(s) + tail);
        assert(first_descriptor(s) + tail =~= r);
        assert forall|i: int| 0 <= i < chain.len() implies (#[trigger] chain[i])[1] != ty by {
            if i > 0 {
                assert(chain[i] == descriptor_chain(tail)[i - 1]);
            }
        }
    } else {
        assert(r =~= seq![]);
        assert(chain.flatten() =~= seq![]);
    }
}

/// Descriptors are found one after the other by their lengths: where the bytes begin with a length of
/// at least 2 that stays inside them, that many bytes are a descriptor, and the next one follows.
/// Otherwise there are no more.
pub proof fn law_chain_goes_by_length(s: Seq<u8>)
    ensures
        s.len() >= 2 && 2 <= s[0] <= s.len() ==> descriptor_chain(s) == seq![s.take(s[0] as int)]
            + descriptor_chain(s.skip(s[0] as int)),
        !(s.len() >= 2 && 2 <= s[0] <= s.len()) ==> descriptor_chain(s).len() == 0,
{
}

/// A group begins with every descriptor that has the type asked for and at least the length that it
/// needs, however long it is, and with no other, in the order of the descriptors.
pub proof fn law_long_enough_descriptors_open_groups(s: Seq<u8>, ty: u8, min_len: u8)
    ensures
        descriptor_groups(s, ty, min_len).map_values(|g: Seq<u8>| g.take(g[0] as int))
            == descriptor_chain(s).filter(|d: Seq<u8>| d[1] == ty && d.len() >= min_len),
        forall|i: int|
            0 <= i < descriptor_chain(s).len() && #[trigger] descriptor_chain(s)[i][1] == ty
                && descriptor_chain(s)[i].len() >= min_len ==> exists|k: int|
                0 <= k < descriptor_groups(s, ty, min_len).len() && descriptor_chain(s)[i]
                    == #[trigger] descriptor_groups(s, ty, min_len)[k].take(
                    descriptor_groups(s, ty, min_len)[k][0] as int,
                ),
{
    let groups = descriptor_groups(s, ty, min_len);
    let chain = descriptor_chain(s);
    let p = |d: Seq<u8>| opens_group(d, ty, min_len);
    let q = |d: Seq<u8>| d[1] == ty && d.len() >= min_len;
    let firsts = groups.map_values(|g: Seq<u8>| g.take(g[0] as int));
    law_groups_cover_chain(s, ty, min_len);
    lemma_chain_lengths(s);
    lemma_same_filter(chain, p, q);
    assert(groups.map_values(|g: Seq<u8>| first_descriptor(g)) =~= firsts);
    assert forall|i: int|
        0 <= i < chain.len() && #[trigger] chain[i][1] == ty && chain[i].len()
            >= min_len implies exists|k: int|
        0 <= k < groups.len() && chain[i] == #[trigger] groups[k].take(groups[k][0] as int) by {
        lemma_filter_keeps(chain, q, i);
        let k = choose|k: int| 0 <= k < firsts.len() && firsts[k] == chain[i];
        assert(firsts[k] == groups[k].take(groups[k][0] as int));
    }
}

proof fn lemma_chain_lengths(s: Seq<u8>)
    ensures
        forall|i: int|
            0 <= i < descriptor_chain(s).len() ==> (#[trigger] descriptor_chain(s)[i]).len() >= 2
                && descriptor_chain(s)[i][0] == descriptor_chain(s)[i].len(),
    decreases s.len(),
{
    if starts_with_descriptor(s) {
        let rest = after_descriptor(s);
        lemma_chain_lengths(rest);
        assert forall|i: int| 0 <= i < descriptor_chain(s).len() implies (
        #[trigger] descriptor_chain(s)[i]).len() >= 2 && descriptor_chain(s)[i][0]
            == descriptor_chain(s)[i].len() by {
            if i > 0 {
                assert(descriptor_chain(s)[i] == descriptor_chain(rest)[i - 1]);
            }
        }
    }
}

proof fn lemma_same_filter<A>(s: Seq<A>, p: spec_fn(A) -> bool, q: spec_fn(A) -> bool)
    requires
        forall|i: int| 0 <= i < s.len() ==> p(#[trigger] s[i]) == q(s[i]),
    ensures
        s.filter(p) == s.filter(q),
    decreases s.len(),
{
    reveal(Seq::filter);
    if s.len() > 0 {
        let t = s.drop_last();
        assert forall|i: int| 0 <= i < t.len() implies p(#[trigger] t[i]) == q(t[i]) by {
            assert(t[i] == s[i]);
        }
        lemma_same_filter(t, p, q);
        assert(s[s.len() - 1] == s.last());
    }
}

proof fn lemma_filter_keeps<A>(s: Seq<A>, p: spec_fn(A) -> bool, i: int)
    requires
        0 <= i < s.len(),
        p(s[i]),
    ensures
        exists|k: int| 0 <= k < s.filter(p).len() && s.filter(p)[k] == s[i],
    decreases s.len(),
{
    reveal(Seq::filter);
    let t = s.drop_last();
    if i < t.len() {
        assert(t[i] == s[i]);
        lemma_filter_keeps(t, p, i);
        let k = choose|k: int| 0 <= k < t.filter(p).len() && t.filter(p)[k] == t[i];
        assert(s.filter(p)[k] == s[i]);
    } else {
        assert(s.filter(p)[t.filter(p).len() as int] == s[i]);
    }
}

/// A group takes all that follows its first descriptor, up to the next one of the same type or to
/// where the descriptors break off. The next group is looked for from there. A descriptor that opens
/// no group is passed over.
pub proof fn law_group_runs_to_next(s: Seq<u8>, ty: u8, min_len: u8)
    ensures
        s.len() >= 2 && 2 <= s[0] <= s.len() && s[1] == ty && s[0] >= min_len ==> {
            let g = descriptor_groups(s, ty, min_len)[0];
            let rest = s.skip(g.len() as int);
            &&& descriptor_groups(s, ty, min_len).len() > 0
            &&& s[0] <= g.len() <= s.len()
            &&& g == s.take(g.len() as int)
            &&& !(rest.len() >= 2 && 2 <= rest[0] <= rest.len()) || rest[1] == ty
            &&& descriptor_groups(s, ty, min_len).drop_first() == descriptor_groups(
                rest,
                ty,
                min_len,
            )
        },
        s.len() >= 2 && 2 <= s[0] <= s.len() && !(s[1] == ty && s[0] >= min_len)
            ==> descriptor_groups(s, ty, min_len) == descriptor_groups(
            s.skip(s[0] as int),
            ty,
            min_len,
        ),
        !(s.len() >= 2 && 2 <= s[0] <= s.len()) ==> descriptor_groups(s, ty, min_len).len() == 0,
{
    if starts_with_descriptor(s) && opens_group(s, ty, min_len) {
        let after = after_descriptor(s);
        lemma_run_of_other_types(after, ty);
        lemma_run_ends(after, ty);
        let end = group_len(s, ty);
        let g = s.take(end);
        assert(descriptor_groups(s, ty, min_len)[0] == g);
        assert(after.skip(run_of_other_types(after, ty)) =~= s.skip(end));
        assert(descriptor_groups(s, ty, min_len).drop_first() =~= descriptor_groups(
            s.skip(end),
            ty,
            min_len,
        ));
    }
}

proof fn lemma_run_ends(s: Seq<u8>, ty: u8)
    ensures
        ({
            let rest = s.skip(run_of_other_types(s, ty));
            !starts_with_descriptor(rest) || rest[1] == ty
        }),
    decreases s.len(),
{
    if starts_with_descriptor(s) && s[1] != ty {
        let after = after_descriptor(s);
        lemma_run_of_other_types(after, ty);
        lemma_run_ends(after, ty);
        assert(after.skip(run_of_other_types(after, ty)) =~= s.skip(run_of_other_types(s, ty)));
    } else {
        assert(s.skip(0) =~= s);
    }
}

/// Interface descriptors for alternate settings, grouped by the interface number.
pub struct InterfaceGroup<'a> {
    intf_number: u8,
    interfaces: Vec<InterfaceAltSetting<'a>>,
}

impl<'a> View for InterfaceGroup<'a> {
    type V = (u8, Seq<Seq<u8>>);

    /// The interface number, and the bytes of each alternate setting.
    closed spec fn view(&self) -> (u8, Seq<Seq<u8>>) {
        (self.intf_number, setting_bytes(self.interfaces@))
    }
}

impl<'a> InterfaceGroup<'a> {
    #[verifier::type_invariant]
    spec fn has_first(self) -> bool {
        self.interfaces@.len() > 0
    }

    /// `bInterfaceNumber` descriptor field: Identifier for the interface.
    pub fn interface_number(&self) -> (r: u8)
        ensures
            r == self@.0,
    {
        self.intf_number
    }

    /// Alternate settings of the interface.
    pub fn alt_settings(&self) -> (r: &[InterfaceAltSetting<'a>])
        ensures
            setting_bytes(r@) == self@.1,
    {
        self.interfaces.as_slice()
    }

    /// Get the descriptor for the first alt setting.
    ///
    /// There is guaranteed to be at least one alt setting or this would not have been found.
    pub fn first_alt_setting(&self) -> (r: InterfaceAltSetting<'a>)
        ensures
            self@.1.len() > 0,
            r@ == self@.1[0],
    {
        proof {
            use_type_invariant(self);
        }
        self.interfaces[0]
    }
}

/// Information about a USB interface alternate setting, with access to associated endpoints and
/// other descriptors.
///
/// An interface descriptor represents a single alternate setting of an interface. Multiple
/// interface descriptors with the same [`interface_number`][Self::interface_number] but different
/// [`alternate_setting`][Self::alternate_setting] values represent different alternate settings.
#[derive(Clone, Copy)]
pub struct InterfaceAltSetting<'a>(&'a [u8]);

impl<'a> View for InterfaceAltSetting<'a> {
    type V = Seq<u8>;

    closed spec fn view(&self) -> Seq<u8> {
        self.0@
    }
}

impl<'a> InterfaceAltSetting<'a> {
    #[verifier::type_invariant]
    spec fn has_fields(self) -> bool {
        self.0@.len() >= DESCRIPTOR_LEN_INTERFACE
    }

    /// Get the interface descriptor followed by all trailing endpoint and other
    /// descriptors up to the next interface descriptor.
    pub fn descriptors(&self) -> (r: Descriptors<'a>)
        ensures
            r@ == self@,
    {
        Descriptors(self.0)
    }

    /// Get the endpoints of this interface.
    pub fn endpoints(&self) -> (r: Vec<Endpoint<'a>>)
        ensures
            r@.map_values(|e: Endpoint<'a>| e@) == descriptor_groups(
                self@,
                DESCRIPTOR_TYPE_ENDPOINT,
                DESCRIPTOR_LEN_ENDPOINT,
            ),
            r@.len() == descriptor_groups(self@, 5, 7).len(),
            forall|i: int|
                0 <= i < r@.len() ==> (#[trigger] r@[i])@ == descriptor_groups(self@, 5, 7)[i],
    {
        let groups = self.descriptors().split_by_type(
            DESCRIPTOR_TYPE_ENDPOINT,
            DESCRIPTOR_LEN_ENDPOINT,
        );
        proof {
            law_groups_have_fields(self@, DESCRIPTOR_TYPE_ENDPOINT, DESCRIPTOR_LEN_ENDPOINT);
        }
        let ghost all = descriptor_groups(self@, DESCRIPTOR_TYPE_ENDPOINT, DESCRIPTOR_LEN_ENDPOINT);
        let mut endpoints: Vec<Endpoint<'a>> = Vec::new();
        let mut i: usize = 0;
        while i < groups.len()
            invariant
                i <= groups@.len(),
                endpoints@.len() == i,
                all == groups@.map_values(|g: &'a [u8]| g@),
                forall|k: int| 0 <= k < all.len() ==> #[trigger] all[k].len() >= DESCRIPTOR_LEN_ENDPOINT,
                forall|k: int| 0 <= k < i ==> (#[trigger] endpoints@[k])@ == all[k],
            decreases groups@.len() - i,
        {
            assert(all[i as int] == groups@[i as int]@);
            endpoints.push(Endpoint(groups[i]));
            i = i + 1;
        }
        assert(endpoints@.map_values(|e: Endpoint<'a>| e@) =~= all);
        endpoints
    }

    /// `bInterfaceNumber` descriptor field: Identifier for the interface.
    pub fn interface_number(&self) -> (r: u8)
        ensures
            r == self@[2],
    {
        proof {
            use_type_invariant(self);
        }
        self.0[2]
    }

    /// `bAlternateSetting` descriptor field: Identifier for this alternate setting.
    pub fn alternate_setting(&self) -> (r: u8)
        ensures
            r == self@[3],
    {
        proof {
            use_type_invariant(self);
        }
        self.0[3]
    }

    /// `bNumEndpoints` descriptor field: Number of endpoints in this alternate setting.
    pub fn num_endpoints(&self) -> (r: u8)
        ensures
            r == self@[4],
    {
        proof {
            use_type_invariant(self);
        }
        self.0[4]
    }

    /// `bInterfaceClass` descriptor field: Standard interface class.
    pub fn class(&self) -> (r: u8)
        ensures
            r == self@[5],
    {
        proof {
            use_type_invariant(self);
        }
        self.0[5]
    }

    /// `bInterfaceSubClass` descriptor field: Standard interface subclass.
    pub fn subclass(&self) -> (r: u8)
        ensures
            r == self@[6],
    {
        proof {
            use_type_invariant(self);
        }
        self.0[6]
    }

    /// `bInterfaceProtocol` descriptor field: Standard interface protocol.
    pub fn protocol(&self) -> (r: u8)
        ensures
            r == self@[7],
    {
        proof {
            use_type_invariant(self);
        }
        self.0[7]
    }

    /// Index of the string descriptor describing this interface or alternate setting.
    pub fn string_index(&self) -> (r: Option<u8>)
        ensures
            r == nonzero(self@[8]),
            r is None <==> self@[8] == 0,
            r matches Some(i) ==> i == self@[8],
    {
        proof {
            use_type_invariant(self);
        }
        nonzero_index(self.0[8])
    }
}

/// Information about a USB endpoint, with access to any associated descriptors.
#[derive(Clone, Copy)]
pub struct Endpoint<'a>(&'a [u8]);

impl<'a> View for Endpoint<'a> {
    type V = Seq<u8>;

    closed spec fn view(&self) -> Seq<u8> {
        self.0@
    }
}

/// The low eleven bits of `wMaxPacketSize`, and the two above them.
proof fn lemma_max_packet_size_fields(raw: u16)
    by (bit_vector)
    ensures
        raw & 0x07ff == raw % 2048,
        (raw >> 11) & 0b11 == (raw / 2048) % 4,
        (raw >> 11) & 0b11 < 4,
{
}

impl<'a> Endpoint<'a> {
    #[verifier::type_invariant]
    spec fn has_fields(self) -> bool {
        self.0@.len() >= DESCRIPTOR_LEN_ENDPOINT
    }

    /// Get the endpoint descriptor followed by all trailing descriptors up to the next endpoint or
    /// interface descriptor.
    pub fn descriptors(&self) -> (r: Descriptors<'a>)
        ensures
            r@ == self@,
    {
        Descriptors(self.0)
    }

    /// Get the endpoint's direction.
    pub fn direction(&self) -> (r: Direction)
        ensures
            r == Direction::of_address(self@[2]),
            r == Direction::In <==> self@[2] >= 0x80,
    {
        Direction::from_address(self.address())
    }

    /// Get the endpoint's transfer type.
    pub fn transfer_type(&self) -> (r: EndpointType)
        ensures
            r == EndpointType::of_attributes(self@[3]),
            r == EndpointType::Control <==> self@[3] % 4 == 0,
            r == EndpointType::Isochronous <==> self@[3] % 4 == 1,
            r == EndpointType::Bulk <==> self@[3] % 4 == 2,
            r == EndpointType::Interrupt <==> self@[3] % 4 == 3,
    {
        EndpointType::from_attributes(self.attributes())
    }

    /// Get the maximum packet size in bytes.
    pub fn max_packet_size(&self) -> (r: usize)
        ensures
            r == le16(self@[4], self@[5]) % 2048,
            r == self@[4] + 256 * (self@[5] % 8),
    {
        let raw: u16 = self.max_packet_size_raw();
        proof {
            lemma_max_packet_size_fields(raw);
        }
        (raw & 0x07ff) as usize
    }

    /// For isochronous endpoints at high speed, get the number of packets per microframe (1, 2, or
    /// 3).
    pub fn packets_per_microframe(&self) -> (r: u8)
        ensures
            r == (le16(self@[4], self@[5]) / 2048) % 4 + 1,
            r == self@[5] / 8 % 4 + 1,
    {
        let raw: u16 = self.max_packet_size_raw();
        proof {
            lemma_max_packet_size_fields(raw);
        }
        ((raw >> 11) & 0b11) as u8 + 1
    }

    /// Get the `bEndpointAddress` descriptor field: Endpoint address.
    pub fn address(&self) -> (r: u8)
        ensures
            r == self@[2],
    {
        proof {
            use_type_invariant(self);
        }
        self.0[2]
    }

    /// Get the raw value of the `bmAttributes` descriptor field.
    ///
    /// See [`transfer_type`][Self::transfer_type] for the transfer type field.
    pub fn attributes(&self) -> (r: u8)
        ensures
            r == self@[3],
    {
        proof {
            use_type_invariant(self);
        }
        self.0[3]
    }

    /// Get the raw value of the `wMaxPacketSize` descriptor field.
    ///
    /// See [`max_packet_size`][Self::max_packet_size] and
    /// [`packets_per_microframe`][Self::packets_per_microframe] for the parsed subfields.
    pub fn max_packet_size_raw(&self) -> (r: u16)
        ensures
            r == le16(self@[4], self@[5]),
            r == self@[4] + 256 * self@[5],
    {
        proof {
            use_type_invariant(self);
        }
        read_le16(self.0, 4)
    }

    /// Get the `bInterval` field: Polling interval in frames or microframes.
    pub fn interval(&self) -> (r: u8)
        ensures
            r == self@[6],
    {
        proof {
            use_type_invariant(self);
        }
        self.0[6]
    }
}

/// Error from `Device::active_configuration`
#[derive(Copy, Clone, Debug, PartialEq, Eq, Structural)]
pub struct ActiveConfigurationError {
    pub configuration_value: u8,
}

impl ActiveConfigurationError {
    /// The text that describes the error.
    pub open spec fn text(&self) -> Seq<char> {
        if self.configuration_value == 0 {
            "device is not configured"@
        } else {
            "no descriptor found for active configuration "@ + text::decimal(
                self.configuration_value as nat,
            )
        }
    }

    /// Describe the error.
    pub fn message(&self) -> (r: String)
        ensures
            r@ == self.text(),
    {
        if self.configuration_value == 0 {
            String::from_str("device is not configured")
        } else {
            let mut out = String::from_str("no descriptor found for active configuration ");
            let value = text::write_decimal(self.configuration_value as u32);
            out.append(value.as_str());
            out
        }
    }
}

/// The error for a configuration that has no descriptor ends with its number; number 0 is that of a device
/// without one.
pub proof fn law_error_names_configuration(e: ActiveConfigurationError)
    ensures
        e.configuration_value == 0 ==> e.text() == "device is not configured"@,
        e.configuration_value != 0 ==> e.text() == "no descriptor found for active configuration "@
            + text::decimal(e.configuration_value as nat),
{
}

/// The configurations that `s` is a chain of, up to where the chain breaks off.
pub open spec fn config_chain(s: Seq<u8>) -> Seq<Seq<u8>>
    decreases s.len(),
{
    if starts_with_config(s) {
        seq![s.take(config_total_len(s) as int)] + config_chain(s.skip(config_total_len(s) as int))
    } else {
        seq![]
    }
}

/// Split a chain of concatenated configuration descriptors by `wTotalLength`
pub fn parse_concatenated_config_descriptors(buf: &[u8]) -> (r: Vec<&[u8]>)
    ensures
        r@.map_values(|c: &[u8]| c@) == config_chain(buf@),
{
    let mut configs: Vec<&[u8]> = Vec::new();
    let mut rest = buf;
    proof {
        assert(configs@.map_values(|c: &[u8]| c@) =~= seq![]);
    }
    loop
        invariant
            config_chain(buf@) == configs@.map_values(|c: &[u8]| c@) + config_chain(rest@),
        ensures
            !starts_with_config(rest@),
        decreases rest@.len(),
    {
        let total_len: usize = match validate_config_descriptor(rest) {
            Some(total_len) => total_len,
            None => break,
        };
        let (config, next) = rest.split_at(total_len);
        proof {
            assert(configs@.push(config).map_values(|c: &[u8]| c@) =~= configs@.map_values(
                |c: &[u8]| c@,
            ).push(config@));
            assert(config@ =~= rest@.take(total_len as int));
            assert(next@ =~= rest@.skip(total_len as int));
        }
        configs.push(config);
        rest = next;
    }
    configs
}

/// Configurations are found one after the other by their total lengths: where the bytes begin with a
/// configuration descriptor whose total length covers it and stays inside them, that many bytes are a
/// configuration, and the next one follows. Otherwise there are no more.
pub proof fn law_configs_go_by_total_length(s: Seq<u8>)
    ensures
        s.len() >= 9 && s[0] >= 9 && s[1] == 2 && s[0] <= s[2] + 256 * s[3] <= s.len()
            ==> config_chain(s) == seq![s.take(s[2] + 256 * s[3])] + config_chain(
            s.skip(s[2] + 256 * s[3]),
        ),
        !(s.len() >= 9 && s[0] >= 9 && s[1] == 2 && s[0] <= s[2] + 256 * s[3] <= s.len())
            ==> config_chain(s).len() == 0,
{
}

/// Every configuration of a chain is a whole one, such as [`Configuration::new`] takes.
pub proof fn law_configs_are_whole(s: Seq<u8>, k: int)
    requires
        0 <= k < config_chain(s).len(),
    ensures
        starts_with_config(config_chain(s)[k]),
        config_chain(s)[k].len() == config_total_len(config_chain(s)[k]),
    decreases s.len(),
{
    let total_len = config_total_len(s) as int;
    if k > 0 {
        law_configs_are_whole(s.skip(total_len), k - 1);
        assert(config_chain(s)[k] == config_chain(s.skip(total_len))[k - 1]);
    }
}

/// The configurations of a chain, put together again, are the bytes that they were taken from, up
/// to where the chain breaks off.
pub proof fn law_configs_are_prefix(s: Seq<u8>)
    ensures
        config_chain(s).flatten().is_prefix_of(s),
        !starts_with_config(s.skip(config_chain(s).flatten().len() as int)),
    decreases s.len(),
{
    let chain = config_chain(s);
    if starts_with_config(s) {
        let total_len = config_total_len(s) as int;
        let rest = s.skip(total_len);
        law_configs_are_prefix(rest);
        assert(chain.drop_first() =~= config_chain(rest));
        let tail = config_chain(rest).flatten();
        assert(chain.flatten() == s.take(total_len) + tail);
        assert(tail =~= rest.take(tail.len() as int));
        assert(s.take(total_len) + tail =~= s.take(total_len + tail.len()));
        assert(rest.skip(tail.len() as int) =~= s.skip(total_len + tail.len()));
    } else {
        assert(chain.flatten() =~= seq![]);
        assert(s.skip(0) =~= s);
    }
}

/// Whether `data` is one whole string descriptor.
pub open spec fn is_string_descriptor(data: Seq<u8>) -> bool {
    data.len() >= 2 && data[0] == data.len() && data[1] == DESCRIPTOR_TYPE_STRING
}

/// Check that `data` is one whole string descriptor.
pub fn validate_string_descriptor(data: &[u8]) -> (r: bool)
    ensures
        r == is_string_descriptor(data@),
        r == (data@.len() >= 2 && data@[0] == data@.len() && data@[1] == 3),
{
    data.len() >= 2 && data[0] as usize == data.len() && data[1] == DESCRIPTOR_TYPE_STRING
}

/// The UTF-16 code units of a string descriptor; an odd last byte is dropped.
pub open spec fn string_units(data: Seq<u8>) -> Seq<u16> {
    Seq::new(
        ((data.len() - 2) / 2) as nat,
        |i: int| le16(data[2 + 2 * i], data[3 + 2 * i]),
    )
}

/// Whether a code unit is the first of a surrogate pair.
pub open spec fn is_high_surrogate(unit: u16) -> bool {
    0xd800 <= unit <= 0xdbff
}

/// Whether a code unit is the second of a surrogate pair.
pub open spec fn is_low_surrogate(unit: u16) -> bool {
    0xdc00 <= unit <= 0xdfff
}

/// The character that a surrogate pair stands for.
pub open spec fn surrogate_pair(high: u16, low: u16) -> char {
    (0x10000 + (high - 0xd800) * 0x400 + (low - 0xdc00)) as char
}

/// The characters that UTF-16 code units stand for; a surrogate without its partner is replaced by
/// `U+FFFD`.
pub open spec fn utf16_chars(units: Seq<u16>) -> Seq<char>
    decreases units.len(),
{
    if units.len() == 0 {
        seq![]
    } else if is_high_surrogate(units[0]) && units.len() > 1 && is_low_surrogate(units[1]) {
        seq![surrogate_pair(units[0], units[1])] + utf16_chars(units.skip(2))
    } else if is_high_surrogate(units[0]) || is_low_surrogate(units[0]) {
        seq!['\u{fffd}'] + utf16_chars(units.skip(1))
    } else {
        seq![units[0] as char] + utf16_chars(units.skip(1))
    }
}

/// The text of a string descriptor is what the bytes behind its header are the UTF-16 of, low byte
/// first. Two bytes in front of the others are one more character, the one with that code; the four
/// bytes of a surrogate pair are one more character, the one that the pair stands for; and a
/// surrogate that is not followed by its partner is one more `U+FFFD`.
pub proof fn law_text_is_in_the_bytes(header: Seq<u8>, a: u8, b: u8, c: u8, d: u8, rest: Seq<u8>)
    requires
        header.len() == 2,
    ensures
        rest.len() < 2 ==> utf16_chars(string_units(header + rest)).len() == 0,
        !(0xd800 <= a + 256 * b <= 0xdfff) ==> utf16_chars(string_units(header + (seq![a, b] + rest)))
            == seq![(a + 256 * b) as char] + utf16_chars(string_units(header + rest)),
        0xd800 <= a + 256 * b <= 0xdbff && 0xdc00 <= c + 256 * d <= 0xdfff ==> utf16_chars(
            string_units(header + (seq![a, b, c, d] + rest)),
        ) == seq![
            (0x10000 + 0x400 * (a + 256 * b - 0xd800) + (c + 256 * d - 0xdc00)) as char,
        ] + utf16_chars(string_units(header + rest)),
        0xdc00 <= a + 256 * b <= 0xdfff || (0xd800 <= a + 256 * b <= 0xdbff && !(rest.len() >= 2
            && 0xdc00 <= rest[0] + 256 * rest[1] <= 0xdfff)) ==> utf16_chars(
            string_units(header + (seq![a, b] + rest)),
        ) == seq![0xfffd as char] + utf16_chars(string_units(header + rest)),
{
    let left = string_units(header + rest);
    let two = string_units(header + (seq![a, b] + rest));
    let four = string_units(header + (seq![a, b, c, d] + rest));
    lemma_units_in_front(header, seq![a, b], rest);
    lemma_units_in_front(header, seq![a, b, c, d], rest);
    assert(two[0] == a + 256 * b);
    assert(two.skip(1) =~= left);
    assert(four[0] == a + 256 * b && four[1] == c + 256 * d);
    assert(four.skip(2) =~= left);
    if rest.len() >= 2 {
        assert(two[1] == left[0]);
        assert(left[0] == rest[0] + 256 * rest[1]);
    } else {
        assert(left.len() == 0);
    }
}

proof fn lemma_units_in_front(header: Seq<u8>, front: Seq<u8>, rest: Seq<u8>)
    requires
        header.len() == 2,
        front.len() % 2 == 0,
    ensures
        ({
            let units = string_units(header + (front + rest));
            let left = string_units(header + rest);
            &&& units.len() == front.len() / 2 + left.len()
            &&& forall|i: int|
                0 <= i < front.len() / 2 ==> #[trigger] units[i] == front[2 * i] + 256 * front[2 * i
                    + 1]
            &&& units.skip((front.len() / 2) as int) == left
        }),
{
    let n = (front.len() / 2) as int;
    let whole = header + (front + rest);
    let units = string_units(whole);
    let left = string_units(header + rest);
    assert forall|i: int| 0 <= i < n implies #[trigger] units[i] == front[2 * i] + 256 * front[2 * i
        + 1] by {
        assert(whole[2 + 2 * i] == front[2 * i] && whole[3 + 2 * i] == front[2 * i + 1]);
    }
    assert forall|i: int| 0 <= i < left.len() implies #[trigger] units.skip(n)[i] == left[i] by {
        assert(whole[2 + 2 * (n + i)] == (header + rest)[2 + 2 * i]);
        assert(whole[3 + 2 * (n + i)] == (header + rest)[3 + 2 * i]);
    }
    assert(units.skip(n) =~= left);
}

/// The bytes of a text in UTF-16, low byte first.
pub open spec fn utf16_bytes(t: Seq<char>) -> Seq<u8>
    decreases t.len(),
{
    if t.len() == 0 {
        seq![]
    } else {
        let v = t[0] as int;
        let first = if v < 0x10000 {
            seq![(v % 256) as u8, (v / 256) as u8]
        } else {
            let high = 0xd800 + (v - 0x10000) / 0x400;
            let low = 0xdc00 + (v - 0x10000) % 0x400;
            seq![(high % 256) as u8, (high / 256) as u8, (low % 256) as u8, (low / 256) as u8]
        };
        first + utf16_bytes(t.drop_first())
    }
}

proof fn lemma_codes_of_characters(c: char)
    ensures
        0 <= c as int <= 0xd7ff || 0xe000 <= c as int <= 0x10ffff,
{
    vstd::utf8::char_is_scalar(c);
}

/// Every text reads back from the string descriptor that holds it.
pub proof fn law_text_reads_back(header: Seq<u8>, t: Seq<char>)
    requires
        header.len() == 2,
    ensures
        utf16_chars(string_units(header + utf16_bytes(t))) == t,
    decreases t.len(),
{
    if t.len() == 0 {
        law_text_is_in_the_bytes(header, 0, 0, 0, 0, seq![]);
        assert(t =~= seq![]);
        assert(utf16_chars(string_units(header + utf16_bytes(t))) =~= seq![]);
    } else {
        let rest = t.drop_first();
        law_text_reads_back(header, rest);
        let v = t[0] as int;
        lemma_codes_of_characters(t[0]);
        assert(0 <= v <= 0xd7ff || 0xe000 <= v <= 0x10ffff);
        if v < 0x10000 {
            law_text_is_in_the_bytes(
                header,
                (v % 256) as u8,
                (v / 256) as u8,
                0,
                0,
                utf16_bytes(rest),
            );
        } else {
            let high = 0xd800 + (v - 0x10000) / 0x400;
            let low = 0xdc00 + (v - 0x10000) % 0x400;
            law_text_is_in_the_bytes(
                header,
                (high % 256) as u8,
                (high / 256) as u8,
                (low % 256) as u8,
                (low / 256) as u8,
                utf16_bytes(rest),
            );
        }
        assert(seq![t[0]] + rest =~= t);
    }
}

/// A string descriptor whose code units are no surrogates has as many characters as code units, and
/// each is the one with that code.
pub proof fn law_plain_units_are_characters(data: Seq<u8>)
    requires
        2 <= data.len(),
        forall|i: int|
            0 <= i < (data.len() - 2) / 2 ==> !(0xd800 <= #[trigger] data[2 + 2 * i] + 256 * data[3
                + 2 * i] <= 0xdfff),
    ensures
        utf16_chars(string_units(data)).len() == (data.len() - 2) / 2,
        forall|i: int|
            0 <= i < (data.len() - 2) / 2 ==> #[trigger] utf16_chars(
                string_units(data),
            )[i] as int == data[2 + 2 * i] + 256 * data[3 + 2 * i],
{
    let units = string_units(data);
    assert forall|i: int| 0 <= i < units.len() implies !(0xd800 <= #[trigger] units[i] <= 0xdfff) by {
        assert(!(0xd800 <= data[2 + 2 * i] + 256 * data[3 + 2 * i] <= 0xdfff));
    }
    lemma_plain_units(units);
    assert forall|i: int| 0 <= i < units.len() implies #[trigger] utf16_chars(units)[i] as int
        == data[2 + 2 * i] + 256 * data[3 + 2 * i] by {
        let u = units[i];
    }
}

proof fn lemma_plain_units(units: Seq<u16>)
    requires
        forall|i: int| 0 <= i < units.len() ==> !(0xd800 <= #[trigger] units[i] <= 0xdfff),
    ensures
        utf16_chars(units).len() == units.len(),
        forall|i: int| 0 <= i < units.len() ==> #[trigger] utf16_chars(units)[i] as int == units[i],
    decreases units.len(),
{
    if units.len() > 0 {
        let rest = units.skip(1);
        assert forall|i: int| 0 <= i < rest.len() implies !(0xd800 <= #[trigger] rest[i] <= 0xdfff) by {
            assert(rest[i] == units[i + 1]);
        }
        lemma_plain_units(rest);
        assert(!(0xd800 <= units[0] <= 0xdfff));
        assert forall|i: int| 0 <= i < units.len() implies #[trigger] utf16_chars(units)[i] as int
            == units[i] by {
            if i > 0 {
                assert(utf16_chars(units)[i] == utf16_chars(rest)[i - 1]);
                assert(rest[i - 1] == units[i]);
            }
        }
    }
}

/// Decode the text of a string descriptor.
///
/// Surrogates without a partner come out as `U+FFFD`. It is an error if `data` is not one whole
/// string descriptor.
pub fn decode_string_descriptor(data: &[u8]) -> (r: Result<String, ()>)
    ensures
        r is Ok <==> is_string_descriptor(data@),
        r is Ok <==> data@.len() >= 2 && data@[0] == data@.len() && data@[1] == 3,
        r matches Ok(s) ==> s@ == utf16_chars(string_units(data@)),
{
    if !validate_string_descriptor(data) {
        return Err(());
    }
    let ghost units = string_units(data@);
    let n: usize = (data.len() - 2) / 2;
    let mut out = String::new();
    let mut i: usize = 0;
    assert(units.skip(0) =~= units);
    while i < n
        invariant
            i <= n,
            n == (data@.len() - 2) / 2,
            2 <= data@.len() <= 255,
            units == string_units(data@),
            out@ + utf16_chars(units.skip(i as int)) == utf16_chars(units),
        decreases n - i,
    {
        let unit: u16 = read_le16(data, 2 + 2 * i);
        assert(unit == units.skip(i as int)[0]);
        let ghost before = out@;
        let ghost left = units.skip(i as int);
        let mut next: u32 = unit as u32;
        let mut used: usize = 1;
        if 0xd800 <= unit && unit <= 0xdbff && i + 1 < n {
            let low: u16 = read_le16(data, 4 + 2 * i);
            assert(low == units.skip(i as int)[1]);
            if 0xdc00 <= low && low <= 0xdfff {
                next = 0x10000 + (unit as u32 - 0xd800) * 0x400 + (low as u32 - 0xdc00);
                used = 2;
            }
        }
        match char::from_u32(next) {
            Some(c) => {
                out.push(c);
                proof {
                    vstd::utf8::char_u32_cast(c, next);
                    assert(utf16_chars(left) == seq![c] + utf16_chars(left.skip(used as int)));
                    assert(left.skip(used as int) =~= units.skip(i + used));
                    assert(before + (seq![c] + utf16_chars(left.skip(used as int))) =~= out@
                        + utf16_chars(units.skip(i + used)));
                }
            },
            None => {
                out.push('\u{fffd}');
                proof {
                    assert(utf16_chars(left) == seq!['\u{fffd}'] + utf16_chars(
                        left.skip(used as int),
                    ));
                    assert(left.skip(used as int) =~= units.skip(i + used));
                    assert(before + (seq!['\u{fffd}'] + utf16_chars(left.skip(used as int)))
                        =~= out@ + utf16_chars(units.skip(i + used)));
                }
            },
        }
        i = i + used;
    }
    assert(out@ + seq![] =~= out@);
    Ok(out)
}

/// Split a chain of concatenated configuration descriptors; the entry point for fuzzing.
pub fn fuzz_parse_concatenated_config_descriptors(buf: &[u8]) -> (r: Vec<&[u8]>)
    ensures
        r@.map_values(|c: &[u8]| c@) == config_chain(buf@),
{
    parse_concatenated_config_descriptors(buf)
}

} // verus!
