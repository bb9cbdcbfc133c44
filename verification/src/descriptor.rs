//! USB descriptor structures.
//!
//! The bytes of a device's descriptors are read into a tree of configurations, interfaces,
//! alternate settings and endpoints. Descriptors of other types are kept as they are, with the
//! part that they follow.
#![allow(non_snake_case)]

use vstd::prelude::*;
use vstd::slice::{slice_subrange, slice_to_vec};

use crate::descriptors;
pub use crate::transfer::{Direction, EndpointType};

verus! {

/// `bDescriptorType` of a device descriptor
pub const DESCRIPTOR_TYPE_DEVICE: u8 = 0x01;

/// `bDescriptorType` of a configuration descriptor
pub const DESCRIPTOR_TYPE_CONFIGURATION: u8 = 0x02;

/// `bDescriptorType` of an interface descriptor
pub const DESCRIPTOR_TYPE_INTERFACE: u8 = 0x04;

/// `bDescriptorType` of an endpoint descriptor
pub const DESCRIPTOR_TYPE_ENDPOINT: u8 = 0x05;

/// Descriptors provided by the USB device are malformed.
#[derive(Copy, Clone, PartialEq, Eq, Debug, Structural)]
pub struct ParseError;

/// All standard descriptors have these 2 fields in common
#[derive(Copy, Clone, Debug)]
pub struct DescriptorHeader {
    pub bLength: u8,
    pub bDescriptorType: u8,
}

impl DescriptorHeader {
    /// Read the header at the start of a slice. A `bLength` that does not even cover the header
    /// is an error.
    pub fn from_slice(slice: &[u8]) -> (r: Result<Self, ParseError>)
        ensures
            r is Ok <==> slice@.len() >= 2 && slice@[0] >= 2,
            r matches Ok(h) ==> h.bLength == slice@[0] && h.bDescriptorType == slice@[1],
    {
        if slice.len() < 2 {
            return Err(ParseError);
        }
        if slice[0] < 2 {
            return Err(ParseError);
        }
        Ok(DescriptorHeader { bLength: slice[0], bDescriptorType: slice[1] })
    }
}

/// A descriptor of fixed layout.
pub trait Descriptor: Sized {
    /// Whether a descriptor of this type can have this length.
    spec fn has_length(len: nat) -> bool;

    /// The fields that the bytes of a descriptor of this type stand for.
    spec fn of_bytes(s: Seq<u8>) -> Self;

    /// Whether a descriptor of this type can have this length.
    fn valid_length(len: usize) -> (r: bool)
        ensures
            r == Self::has_length(len as nat),
    ;

    /// Read the descriptor that a slice holds. A length that the type cannot have is an error.
    fn from_slice(slice: &[u8]) -> (r: Result<Self, ParseError>)
        ensures
            r is Ok <==> Self::has_length(slice@.len()),
            r matches Ok(d) ==> d == Self::of_bytes(slice@),
    ;
}

/// A device descriptor
#[derive(Copy, Clone, Debug)]
pub struct DeviceDescriptor {
    pub bLength: u8,
    pub bDescriptorType: u8,
    pub bcdUSB: u16,
    pub bDeviceClass: u8,
    pub bDeviceSubClass: u8,
    pub bDeviceProtocol: u8,
    pub bMaxPacketSize0: u8,
    pub idVendor: u16,
    pub idProduct: u16,
    pub bcdDevice: u16,
    pub iManufacturer: u8,
    pub iProduct: u8,
    pub iSerialNumber: u8,
    pub bNumConfigurations: u8,
}

impl Descriptor for DeviceDescriptor {
    open spec fn has_length(len: nat) -> bool {
        len == 18
    }

    open spec fn of_bytes(s: Seq<u8>) -> Self {
        DeviceDescriptor {
            bLength: s[0],
            bDescriptorType: s[1],
            bcdUSB: descriptors::le16(s[2], s[3]),
            bDeviceClass: s[4],
            bDeviceSubClass: s[5],
            bDeviceProtocol: s[6],
            bMaxPacketSize0: s[7],
            idVendor: descriptors::le16(s[8], s[9]),
            idProduct: descriptors::le16(s[10], s[11]),
            bcdDevice: descriptors::le16(s[12], s[13]),
            iManufacturer: s[14],
            iProduct: s[15],
            iSerialNumber: s[16],
            bNumConfigurations: s[17],
        }
    }

    fn valid_length(len: usize) -> bool {
        len == 18
    }

    fn from_slice(slice: &[u8]) -> Result<Self, ParseError> {
        if !Self::valid_length(slice.len()) {
            return Err(ParseError);
        }
        Ok(
            DeviceDescriptor {
                bLength: slice[0],
                bDescriptorType: slice[1],
                bcdUSB: descriptors::read_le16(slice, 2),
                bDeviceClass: slice[4],
                bDeviceSubClass: slice[5],
                bDeviceProtocol: slice[6],
                bMaxPacketSize0: slice[7],
                idVendor: descriptors::read_le16(slice, 8),
                idProduct: descriptors::read_le16(slice, 10),
                bcdDevice: descriptors::read_le16(slice, 12),
                iManufacturer: slice[14],
                iProduct: slice[15],
                iSerialNumber: slice[16],
                bNumConfigurations: slice[17],
            },
        )
    }
}

/// A configuration descriptor
#[derive(Copy, Clone, Debug)]
pub struct ConfigurationDescriptor {
    pub bLength: u8,
    pub bDescriptorType: u8,
    pub wTotalLength: u16,
    pub bNumInterfaces: u8,
    pub bConfigurationValue: u8,
    pub iConfiguration: u8,
    pub bmAttributes: u8,
    pub bMaxPower: u8,
}

impl Descriptor for ConfigurationDescriptor {
    open spec fn has_length(len: nat) -> bool {
        len == 9
    }

    open spec fn of_bytes(s: Seq<u8>) -> Self {
        ConfigurationDescriptor {
            bLength: s[0],
            bDescriptorType: s[1],
            wTotalLength: descriptors::le16(s[2], s[3]),
            bNumInterfaces: s[4],
            bConfigurationValue: s[5],
            iConfiguration: s[6],
            bmAttributes: s[7],
            bMaxPower: s[8],
        }
    }

    fn valid_length(len: usize) -> bool {
        len == 9
    }

    fn from_slice(slice: &[u8]) -> Result<Self, ParseError> {
        if !Self::valid_length(slice.len()) {
            return Err(ParseError);
        }
        Ok(
            ConfigurationDescriptor {
                bLength: slice[0],
                bDescriptorType: slice[1],
                wTotalLength: descriptors::read_le16(slice, 2),
                bNumInterfaces: slice[4],
                bConfigurationValue: slice[5],
                iConfiguration: slice[6],
                bmAttributes: slice[7],
                bMaxPower: slice[8],
            },
        )
    }
}

/// An interface descriptor
#[derive(Copy, Clone, Debug)]
pub struct InterfaceDescriptor {
    pub bLength: u8,
    pub bDescriptorType: u8,
    pub bInterfaceNumber: u8,
    pub bAlternateSetting: u8,
    pub bNumEndpoints: u8,
    pub bInterfaceClass: u8,
    pub bInterfaceSubClass: u8,
    pub bInterfaceProtocol: u8,
    pub iInterface: u8,
}

impl Descriptor for InterfaceDescriptor {
    open spec fn has_length(len: nat) -> bool {
        len == 9
    }

    open spec fn of_bytes(s: Seq<u8>) -> Self {
        InterfaceDescriptor {
            bLength: s[0],
            bDescriptorType: s[1],
            bInterfaceNumber: s[2],
            bAlternateSetting: s[3],
            bNumEndpoints: s[4],
            bInterfaceClass: s[5],
            bInterfaceSubClass: s[6],
            bInterfaceProtocol: s[7],
            iInterface: s[8],
        }
    }

    fn valid_length(len: usize) -> bool {
        len == 9
    }

    fn from_slice(slice: &[u8]) -> Result<Self, ParseError> {
        if !Self::valid_length(slice.len()) {
            return Err(ParseError);
        }
        Ok(
            InterfaceDescriptor {
                bLength: slice[0],
                bDescriptorType: slice[1],
                bInterfaceNumber: slice[2],
                bAlternateSetting: slice[3],
                bNumEndpoints: slice[4],
                bInterfaceClass: slice[5],
                bInterfaceSubClass: slice[6],
                bInterfaceProtocol: slice[7],
                iInterface: slice[8],
            },
        )
    }
}

/// An endpoint descriptor
///
/// There are two versions of it, and only the longer one contains `bRefresh` and `bSynchAddress`,
/// which are 0 in the other.
#[derive(Copy, Clone, Debug)]
pub struct EndpointDescriptor {
    pub bLength: u8,
    pub bDescriptorType: u8,
    pub bEndpointAddress: u8,
    pub bmAttributes: u8,
    pub wMaxPacketSize: u16,
    pub bInterval: u8,
    pub bRefresh: u8,
    pub bSynchAddress: u8,
}

impl Descriptor for EndpointDescriptor {
    open spec fn has_length(len: nat) -> bool {
        len == 7 || len == 9
    }

    open spec fn of_bytes(s: Seq<u8>) -> Self {
        EndpointDescriptor {
            bLength: s[0],
            bDescriptorType: s[1],
            bEndpointAddress: s[2],
            bmAttributes: s[3],
            wMaxPacketSize: descriptors::le16(s[4], s[5]),
            bInterval: s[6],
            bRefresh: if s.len() == 9 {
                s[7]
            } else {
                0
            },
            bSynchAddress: if s.len() == 9 {
                s[8]
            } else {
                0
            },
        }
    }

    fn valid_length(len: usize) -> bool {
        len == 7 || len == 9
    }

    fn from_slice(slice: &[u8]) -> Result<Self, ParseError> {
        if !Self::valid_length(slice.len()) {
            return Err(ParseError);
        }
        Ok(
            EndpointDescriptor {
                bLength: slice[0],
                bDescriptorType: slice[1],
                bEndpointAddress: slice[2],
                bmAttributes: slice[3],
                wMaxPacketSize: descriptors::read_le16(slice, 4),
                bInterval: slice[6],
                bRefresh: if slice.len() == 9 {
                    slice[7]
                } else {
                    0
                },
                bSynchAddress: if slice.len() == 9 {
                    slice[8]
                } else {
                    0
                },
            },
        )
    }
}

/// A binary device object store descriptor
#[derive(Copy, Clone, Debug)]
pub struct BosDescriptor {
    pub bLength: u8,
    pub bDescriptorType: u8,
    pub wTotalLength: u16,
    pub bNumDeviceCaps: u8,
}

impl Descriptor for BosDescriptor {
    open spec fn has_length(len: nat) -> bool {
        len == 5
    }

    open spec fn of_bytes(s: Seq<u8>) -> Self {
        BosDescriptor {
            bLength: s[0],
            bDescriptorType: s[1],
            wTotalLength: descriptors::le16(s[2], s[3]),
            bNumDeviceCaps: s[4],
        }
    }

    fn valid_length(len: usize) -> bool {
        len == 5
    }

    fn from_slice(slice: &[u8]) -> Result<Self, ParseError> {
        if !Self::valid_length(slice.len()) {
            return Err(ParseError);
        }
        Ok(
            BosDescriptor {
                bLength: slice[0],
                bDescriptorType: slice[1],
                wTotalLength: descriptors::read_le16(slice, 2),
                bNumDeviceCaps: slice[4],
            },
        )
    }
}

/// Whether a descriptor is one of the standard types that the tree is made of.
pub open spec fn is_standard(ty: u8) -> bool {
    ty == DESCRIPTOR_TYPE_DEVICE || ty == DESCRIPTOR_TYPE_CONFIGURATION || ty
        == DESCRIPTOR_TYPE_INTERFACE || ty == DESCRIPTOR_TYPE_ENDPOINT
}

/// Whether a descriptor is none of the standard types that the tree is made of.
pub open spec fn is_class_specific(ty: u8) -> bool {
    !is_standard(ty)
}

fn test_class_specific(ty: u8) -> (r: bool)
    ensures
        r == is_class_specific(ty),
{
    !(ty == DESCRIPTOR_TYPE_DEVICE || ty == DESCRIPTOR_TYPE_CONFIGURATION || ty
        == DESCRIPTOR_TYPE_INTERFACE || ty == DESCRIPTOR_TYPE_ENDPOINT)
}

fn test_not_configuration(ty: u8) -> (r: bool)
    ensures
        r == (ty != DESCRIPTOR_TYPE_CONFIGURATION),
{
    ty != DESCRIPTOR_TYPE_CONFIGURATION
}

/// Whether there is something at the start of `s` that is no descriptor.
pub open spec fn is_malformed(s: Seq<u8>) -> bool {
    s.len() > 0 && !descriptors::starts_with_descriptor(s)
}

/// The number of bytes at the start of `s` that are descriptors of the types that `keep` names, up
/// to the first of another type or the end; nothing if something malformed comes before that.
pub open spec fn run_length(s: Seq<u8>, keep: spec_fn(u8) -> bool) -> Option<int>
    decreases s.len(),
{
    if s.len() == 0 {
        Some(0)
    } else if is_malformed(s) {
        None
    } else if !keep(s[1]) {
        Some(0)
    } else {
        match run_length(descriptors::after_descriptor(s), keep) {
            Some(n) => Some(s[0] + n),
            None => None,
        }
    }
}

proof fn lemma_run_length(s: Seq<u8>, keep: spec_fn(u8) -> bool)
    ensures
        run_length(s, keep) matches Some(n) ==> 0 <= n <= s.len(),
    decreases s.len(),
{
    if s.len() > 0 && !is_malformed(s) && keep(s[1]) {
        lemma_run_length(descriptors::after_descriptor(s), keep);
    }
}

/// A position in a series of descriptors.
struct Reader<'a> {
    data: &'a [u8],
}

impl<'a> Reader<'a> {
    fn new(data: &'a [u8]) -> (r: Self)
        ensures
            r.data@ == data@,
    {
        Reader { data }
    }

    fn peek(&self) -> (r: Result<Option<(u8, &'a [u8])>, ParseError>)
        ensures
            r is Err <==> is_malformed(self.data@),
            r matches Ok(None) ==> self.data@.len() == 0,
            r matches Ok(Some((ty, d))) ==> descriptors::starts_with_descriptor(self.data@) && ty
                == self.data@[1] && d@ == descriptors::first_descriptor(self.data@),
    {
        if self.data.is_empty() {
            return Ok(None);
        }
        let header = match DescriptorHeader::from_slice(self.data) {
            Ok(header) => header,
            Err(e) => return Err(e),
        };
        let len: usize = header.bLength as usize;
        if self.data.len() < len {
            return Err(ParseError);
        }
        Ok(Some((header.bDescriptorType, slice_subrange(self.data, 0, len))))
    }

    fn next(&mut self) -> (r: Result<Option<(u8, &'a [u8])>, ParseError>)
        ensures
            r is Err <==> is_malformed(old(self).data@),
            r matches Ok(None) ==> old(self).data@.len() == 0 && final(self).data@ == old(
                self,
            ).data@,
            r matches Ok(Some((ty, d))) ==> descriptors::starts_with_descriptor(old(self).data@)
                && ty == old(self).data@[1] && d@ == descriptors::first_descriptor(old(self).data@)
                && final(self).data@ == descriptors::after_descriptor(old(self).data@),
    {
        let r = match self.peek() {
            Ok(r) => r,
            Err(e) => return Err(e),
        };
        if let Some((_, data)) = &r {
            self.data = slice_subrange(self.data, data.len(), self.data.len());
            assert(self.data@ =~= descriptors::after_descriptor(old(self).data@));
        }
        Ok(r)
    }

    /// Take the descriptors of the types that `f` accepts, up to the first of another type.
    fn capture_while_ty<F: Fn(u8) -> bool>(
        &mut self,
        f: F,
        keep: Ghost<spec_fn(u8) -> bool>,
    ) -> (r: Result<Vec<u8>, ParseError>)
        requires
            forall|ty: u8| #[trigger] call_requires(f, (ty,)),
            forall|ty: u8, b: bool| call_ensures(f, (ty,), b) ==> b == keep@(ty),
        ensures
            r is Ok <==> run_length(old(self).data@, keep@) is Some,
            r matches Ok(v) ==> {
                let n = run_length(old(self).data@, keep@)->0;
                v@ == old(self).data@.take(n) && final(self).data@ == old(self).data@.skip(n)
            },
    {
        let start = self.data;
        let ghost total = run_length(start@, keep@);
        let mut n: usize = 0;
        assert(start@.skip(0) =~= start@);
        loop
            invariant
                n <= start@.len(),
                start@ == old(self).data@,
                self.data@ == start@.skip(n as int),
                total == run_length(start@, keep@),
                total is Some <==> run_length(self.data@, keep@) is Some,
                total matches Some(t) ==> t == n + run_length(self.data@, keep@)->0,
                forall|ty: u8| #[trigger] call_requires(f, (ty,)),
                forall|ty: u8, b: bool| call_ensures(f, (ty,), b) ==> b == keep@(ty),
            ensures
                total == Some(n as int),
            decreases start@.len() - n,
        {
            let ty: u8 = match self.peek() {
                Ok(Some((ty, _))) => ty,
                Ok(None) => break,
                Err(e) => return Err(e),
            };
            if !f(ty) {
                break;
            }
            let ghost here = self.data@;
            match self.next() {
                Ok(Some((_, data))) => {
                    assert(start@.skip(n + here[0]) =~= descriptors::after_descriptor(here));
                    assert(n + data@.len() <= start.len());
                    n = n + data.len();
                },
                _ => return Err(ParseError),
            }
        }
        Ok(slice_to_vec(slice_subrange(start, 0, n)))
    }
}

/// What is known of an endpoint.
#[verifier::ext_equal]
pub struct EndpointModel {
    pub descriptor: EndpointDescriptor,
    pub extra: Seq<u8>,
}

/// What is known of an alternate setting.
#[verifier::ext_equal]
pub struct SettingModel {
    pub descriptor: InterfaceDescriptor,
    pub endpoints: Seq<EndpointModel>,
    pub extra: Seq<u8>,
}

/// What is known of an interface: its number and its alternate settings.
pub type InterfaceModel = (u8, Seq<SettingModel>);

/// What is known of a configuration.
#[verifier::ext_equal]
pub struct ConfigurationModel {
    pub descriptor: ConfigurationDescriptor,
    pub interfaces: Seq<InterfaceModel>,
    pub extra: Seq<u8>,
}

/// The descriptor at the start of `s`, if it can be read as a `D`, the class-specific descriptors
/// that follow it, and the rest. Nothing if the descriptor does not have the length that a `D`
/// has, or if something malformed comes before the next standard descriptor.
pub open spec fn head_with_extra<D: Descriptor>(s: Seq<u8>) -> Option<(D, Seq<u8>, Seq<u8>)> {
    let first = descriptors::first_descriptor(s);
    let after = descriptors::after_descriptor(s);
    if D::has_length(first.len()) {
        match run_length(after, |ty: u8| is_class_specific(ty)) {
            Some(n) => Some((D::of_bytes(first), after.take(n), after.skip(n))),
            None => None,
        }
    } else {
        None
    }
}

proof fn lemma_head_shrinks<D: Descriptor>(s: Seq<u8>)
    requires
        descriptors::starts_with_descriptor(s),
    ensures
        head_with_extra::<D>(s) matches Some((d, extra, rest)) ==> rest.len() < s.len(),
{
    lemma_run_length(descriptors::after_descriptor(s), |ty: u8| is_class_specific(ty));
}

/// The endpoints at the start of `s` and the rest, up to the first descriptor that is no endpoint
/// descriptor; nothing if they are malformed.
pub open spec fn endpoints_of(s: Seq<u8>) -> Option<(Seq<EndpointModel>, Seq<u8>)>
    decreases s.len(),
    via endpoints_of_decreases
{
    if is_malformed(s) {
        None
    } else if s.len() == 0 || s[1] != DESCRIPTOR_TYPE_ENDPOINT {
        Some((seq![], s))
    } else {
        match head_with_extra::<EndpointDescriptor>(s) {
            Some((descriptor, extra, rest)) => match endpoints_of(rest) {
                Some((more, end)) => Some((seq![EndpointModel { descriptor, extra }] + more, end)),
                None => None,
            },
            None => None,
        }
    }
}

#[via_fn]
proof fn endpoints_of_decreases(s: Seq<u8>) {
    if s.len() > 0 && !is_malformed(s) {
        lemma_head_shrinks::<EndpointDescriptor>(s);
    }
}

proof fn lemma_endpoints_shrink(s: Seq<u8>)
    ensures
        endpoints_of(s) matches Some((e, rest)) ==> rest.len() <= s.len(),
    decreases s.len(),
{
    if s.len() > 0 && !is_malformed(s) {
        lemma_head_shrinks::<EndpointDescriptor>(s);
        if let Some((d, extra, rest)) = head_with_extra::<EndpointDescriptor>(s) {
            lemma_endpoints_shrink(rest);
        }
    }
}

/// The alternate setting at the start of `s` and the rest.
pub open spec fn setting_of(s: Seq<u8>) -> Option<(SettingModel, Seq<u8>)> {
    match head_with_extra::<InterfaceDescriptor>(s) {
        Some((descriptor, extra, rest)) => match endpoints_of(rest) {
            Some((endpoints, end)) => Some((SettingModel { descriptor, endpoints, extra }, end)),
            None => None,
        },
        None => None,
    }
}

proof fn lemma_setting_shrinks(s: Seq<u8>)
    requires
        descriptors::starts_with_descriptor(s),
    ensures
        setting_of(s) matches Some((d, rest)) ==> rest.len() < s.len(),
{
    lemma_head_shrinks::<InterfaceDescriptor>(s);
    if let Some((d, extra, rest)) = head_with_extra::<InterfaceDescriptor>(s) {
        lemma_endpoints_shrink(rest);
    }
}

/// The alternate settings at the start of `s` and the rest, up to the first descriptor that can be
/// no part of one; nothing if they are malformed.
pub open spec fn settings_of(s: Seq<u8>) -> Option<(Seq<SettingModel>, Seq<u8>)>
    decreases s.len(),
    via settings_of_decreases
{
    if is_malformed(s) {
        None
    } else if s.len() == 0 || s[1] != DESCRIPTOR_TYPE_INTERFACE {
        Some((seq![], s))
    } else {
        match setting_of(s) {
            Some((setting, rest)) => match settings_of(rest) {
                Some((more, end)) => Some((seq![setting] + more, end)),
                None => None,
            },
            None => None,
        }
    }
}

#[via_fn]
proof fn settings_of_decreases(s: Seq<u8>) {
    if s.len() > 0 && !is_malformed(s) {
        lemma_setting_shrinks(s);
    }
}

proof fn lemma_settings_shrink(s: Seq<u8>)
    ensures
        settings_of(s) matches Some((e, rest)) ==> rest.len() <= s.len(),
    decreases s.len(),
{
    if s.len() > 0 && !is_malformed(s) {
        lemma_setting_shrinks(s);
        if let Some((d, rest)) = setting_of(s) {
            lemma_settings_shrink(rest);
        }
    }
}

/// The index of the interface `number`, or how many interfaces there are if it is none of them.
pub open spec fn index_of_interface(interfaces: Seq<InterfaceModel>, number: u8) -> int
    decreases interfaces.len(),
{
    if interfaces.len() == 0 || interfaces[0].0 == number {
        0
    } else {
        1 + index_of_interface(interfaces.drop_first(), number)
    }
}

/// Interfaces with one more alternate setting: at the end of those of its interface, or as the
/// first one of a new interface.
pub open spec fn with_setting(
    interfaces: Seq<InterfaceModel>,
    setting: SettingModel,
) -> Seq<InterfaceModel> {
    let number = setting.descriptor.bInterfaceNumber;
    let at = index_of_interface(interfaces, number);
    if at < interfaces.len() {
        interfaces.update(at, (number, interfaces[at].1.push(setting)))
    } else {
        interfaces.push((number, seq![setting]))
    }
}

/// The interfaces that alternate settings belong to, by first appearance.
pub open spec fn interfaces_of(settings: Seq<SettingModel>) -> Seq<InterfaceModel>
    decreases settings.len(),
{
    if settings.len() == 0 {
        seq![]
    } else {
        with_setting(interfaces_of(settings.drop_last()), settings.last())
    }
}

/// The configuration at the start of `s` and the rest.
pub open spec fn configuration_of(s: Seq<u8>) -> Option<(ConfigurationModel, Seq<u8>)> {
    match head_with_extra::<ConfigurationDescriptor>(s) {
        Some((descriptor, extra, rest)) => match settings_of(rest) {
            Some((settings, end)) => Some(
                (
                    ConfigurationModel { descriptor, interfaces: interfaces_of(settings), extra },
                    end,
                ),
            ),
            None => None,
        },
        None => None,
    }
}

proof fn lemma_configuration_shrinks(s: Seq<u8>)
    requires
        descriptors::starts_with_descriptor(s),
    ensures
        configuration_of(s) matches Some((d, rest)) ==> rest.len() < s.len(),
{
    lemma_head_shrinks::<ConfigurationDescriptor>(s);
    if let Some((d, extra, rest)) = head_with_extra::<ConfigurationDescriptor>(s) {
        lemma_settings_shrink(rest);
    }
}

/// The configurations at the start of `s`, up to the first descriptor that can be no part of one;
/// nothing if they are malformed.
pub open spec fn configurations_of(s: Seq<u8>) -> Option<Seq<ConfigurationModel>>
    decreases s.len(),
    via configurations_of_decreases
{
    if is_malformed(s) {
        None
    } else if s.len() == 0 || s[1] != DESCRIPTOR_TYPE_CONFIGURATION {
        Some(seq![])
    } else {
        match configuration_of(s) {
            Some((configuration, rest)) => match configurations_of(rest) {
                Some(more) => Some(seq![configuration] + more),
                None => None,
            },
            None => None,
        }
    }
}

#[via_fn]
proof fn configurations_of_decreases(s: Seq<u8>) {
    if s.len() > 0 && !is_malformed(s) {
        lemma_configuration_shrinks(s);
    }
}

/// The configurations in the descriptors of a device: what comes before the first configuration
/// descriptor is passed over.
pub open spec fn parsed(s: Seq<u8>) -> Option<Seq<ConfigurationModel>> {
    match run_length(s, |ty: u8| ty != DESCRIPTOR_TYPE_CONFIGURATION) {
        Some(n) => configurations_of(s.skip(n)),
        None => None,
    }
}

/// USB endpoint.
#[derive(Debug)]
pub struct Endpoint {
    descriptor: EndpointDescriptor,
    extra: Vec<u8>,
}

impl View for Endpoint {
    type V = EndpointModel;

    closed spec fn view(&self) -> EndpointModel {
        EndpointModel { descriptor: self.descriptor, extra: self.extra@ }
    }
}

/// USB device interface alternate setting
#[derive(Debug)]
pub struct InterfaceAlternateSetting {
    descriptor: InterfaceDescriptor,
    endpoints: Vec<Endpoint>,
    extra: Vec<u8>,
}

impl View for InterfaceAlternateSetting {
    type V = SettingModel;

    closed spec fn view(&self) -> SettingModel {
        SettingModel {
            descriptor: self.descriptor,
            endpoints: endpoint_models(self.endpoints@),
            extra: self.extra@,
        }
    }
}

/// USB device interface
#[derive(Debug)]
pub struct Interface {
    number: u8,
    alternate_settings: Vec<InterfaceAlternateSetting>,
}

impl View for Interface {
    type V = InterfaceModel;

    closed spec fn view(&self) -> InterfaceModel {
        (self.number, setting_models(self.alternate_settings@))
    }
}

/// USB device configuration.
#[derive(Debug)]
pub struct Configuration {
    descriptor: ConfigurationDescriptor,
    interfaces: Vec<Interface>,
    extra: Vec<u8>,
}

impl View for Configuration {
    type V = ConfigurationModel;

    closed spec fn view(&self) -> ConfigurationModel {
        ConfigurationModel {
            descriptor: self.descriptor,
            interfaces: interface_models(self.interfaces@),
            extra: self.extra@,
        }
    }
}

/// What is known of each of several endpoints.
pub open spec fn endpoint_models(v: Seq<Endpoint>) -> Seq<EndpointModel> {
    v.map_values(|e: Endpoint| e@)
}

/// What is known of each of several alternate settings.
pub open spec fn setting_models(v: Seq<InterfaceAlternateSetting>) -> Seq<SettingModel> {
    v.map_values(|a: InterfaceAlternateSetting| a@)
}

/// What is known of each of several interfaces.
pub open spec fn interface_models(v: Seq<Interface>) -> Seq<InterfaceModel> {
    v.map_values(|i: Interface| i@)
}

/// What is known of each of several configurations.
pub open spec fn configuration_models(v: Seq<Configuration>) -> Seq<ConfigurationModel> {
    v.map_values(|c: Configuration| c@)
}

impl<'a> Reader<'a> {
    /// Read a descriptor and take the class-specific descriptors that follow it.
    fn head<D: Descriptor>(&mut self) -> (r: Result<(D, Vec<u8>), ParseError>)
        requires
            descriptors::starts_with_descriptor(old(self).data@),
        ensures
            r is Ok <==> head_with_extra::<D>(old(self).data@) is Some,
            r matches Ok((descriptor, extra)) ==> head_with_extra::<D>(old(self).data@) == Some(
                (descriptor, extra@, final(self).data@),
            ),
    {
        let ghost s = self.data@;
        let data = match self.next() {
            Ok(Some((_, data))) => data,
            _ => return Err(ParseError),
        };
        let descriptor = match D::from_slice(data) {
            Ok(descriptor) => descriptor,
            Err(e) => return Err(e),
        };
        let keep = Ghost(|ty: u8| is_class_specific(ty));
        let extra = match self.capture_while_ty(
            test_class_specific,
            keep,
        ) {
            Ok(extra) => extra,
            Err(e) => return Err(e),
        };
        Ok((descriptor, extra))
    }
}

impl Endpoint {
    fn parse(r: &mut Reader) -> (res: Result<Self, ParseError>)
        requires
            descriptors::starts_with_descriptor(old(r).data@),
            old(r).data@[1] == DESCRIPTOR_TYPE_ENDPOINT,
        ensures
            res is Ok <==> head_with_extra::<EndpointDescriptor>(old(r).data@) is Some,
            res matches Ok(e) ==> head_with_extra::<EndpointDescriptor>(old(r).data@) == Some(
                (e@.descriptor, e@.extra, final(r).data@),
            ),
    {
        match r.head::<EndpointDescriptor>() {
            Ok((descriptor, extra)) => Ok(Endpoint { descriptor, extra }),
            Err(e) => Err(e),
        }
    }
}

impl InterfaceAlternateSetting {
    fn parse(r: &mut Reader) -> (res: Result<Self, ParseError>)
        requires
            descriptors::starts_with_descriptor(old(r).data@),
            old(r).data@[1] == DESCRIPTOR_TYPE_INTERFACE,
        ensures
            res is Ok <==> setting_of(old(r).data@) is Some,
            res matches Ok(a) ==> setting_of(old(r).data@) == Some((a@, final(r).data@)),
    {
        let (descriptor, extra) = match r.head::<InterfaceDescriptor>() {
            Ok(head) => head,
            Err(e) => return Err(e),
        };
        let ghost start = r.data@;
        let ghost all = endpoints_of(start);
        let mut endpoints: Vec<Endpoint> = Vec::new();
        proof {
            assert(endpoint_models(endpoints@) =~= seq![]);
        }
        loop
            invariant
                head_with_extra::<InterfaceDescriptor>(old(r).data@) == Some(
                    (descriptor, extra@, start),
                ),
                all == endpoints_of(start),
                all is Some <==> endpoints_of(r.data@) is Some,
                all matches Some((e, end)) ==> e == endpoint_models(endpoints@) + (endpoints_of(
                    r.data@,
                )->0).0 && end == (endpoints_of(r.data@)->0).1,
            ensures
                all == Some((endpoint_models(endpoints@), r.data@)),
            decreases r.data@.len(),
        {
            let ghost here = r.data@;
            match r.peek() {
                Ok(Some((ty, _))) => {
                    if ty != DESCRIPTOR_TYPE_ENDPOINT {
                        break;
                    }
                },
                Ok(None) => break,
                Err(e) => return Err(e),
            }
            proof {
                lemma_head_shrinks::<EndpointDescriptor>(here);
            }
            match Endpoint::parse(r) {
                Ok(endpoint) => {
                    proof {
                        assert(endpoint_models(endpoints@.push(endpoint)) =~= endpoint_models(
                            endpoints@,
                        ).push(endpoint@));
                    }
                    endpoints.push(endpoint);
                },
                Err(e) => return Err(e),
            }
        }
        Ok(InterfaceAlternateSetting { descriptor, endpoints, extra })
    }
}

proof fn lemma_index_of_interface(interfaces: Seq<InterfaceModel>, number: u8, at: int)
    requires
        0 <= at <= interfaces.len(),
        forall|k: int| 0 <= k < at ==> (#[trigger] interfaces[k]).0 != number,
        at < interfaces.len() ==> interfaces[at].0 == number,
    ensures
        index_of_interface(interfaces, number) == at,
    decreases interfaces.len(),
{
    if at > 0 {
        assert(interfaces[0].0 != number);
        assert forall|k: int| 0 <= k < at - 1 implies (
        #[trigger] interfaces.drop_first()[k]).0 != number by {
            assert(interfaces.drop_first()[k] == interfaces[k + 1]);
        }
        lemma_index_of_interface(interfaces.drop_first(), number, at - 1);
    }
}

/// Add an alternate setting to those of its interface, or to a new interface.
fn add_setting(interfaces: &mut Vec<Interface>, alt: InterfaceAlternateSetting)
    ensures
        interface_models(final(interfaces)@) == with_setting(
            interface_models(old(interfaces)@),
            alt@,
        ),
{
    let number: u8 = alt.descriptor.bInterfaceNumber;
    let ghost before = interface_models(interfaces@);
    let mut at: usize = 0;
    while at < interfaces.len() && interfaces[at].number != number
        invariant
            at <= interfaces@.len(),
            *interfaces == *old(interfaces),
            before == interface_models(interfaces@),
            forall|k: int| 0 <= k < at ==> (#[trigger] before[k]).0 != number,
        decreases interfaces@.len() - at,
    {
        assert(before[at as int].0 == interfaces@[at as int].number);
        at = at + 1;
    }
    proof {
        lemma_index_of_interface(before, number, at as int);
    }
    if at < interfaces.len() {
        interfaces[at].alternate_settings.push(alt);
        proof {
            assert(setting_models(interfaces@[at as int].alternate_settings@)
                =~= before[at as int].1.push(alt@));
            assert(interface_models(interfaces@) =~= before.update(
                at as int,
                (number, before[at as int].1.push(alt@)),
            ));
        }
    } else {
        let mut alternate_settings: Vec<InterfaceAlternateSetting> = Vec::new();
        alternate_settings.push(alt);
        proof {
            assert(setting_models(alternate_settings@) =~= seq![alt@]);
        }
        interfaces.push(Interface { number, alternate_settings });
        proof {
            assert(interface_models(interfaces@) =~= before.push((number, seq![alt@])));
        }
    }
}

impl Configuration {
    fn parse(r: &mut Reader) -> (res: Result<Self, ParseError>)
        requires
            descriptors::starts_with_descriptor(old(r).data@),
            old(r).data@[1] == DESCRIPTOR_TYPE_CONFIGURATION,
        ensures
            res is Ok <==> configuration_of(old(r).data@) is Some,
            res matches Ok(c) ==> configuration_of(old(r).data@) == Some((c@, final(r).data@)),
    {
        let (descriptor, extra) = match r.head::<ConfigurationDescriptor>() {
            Ok(head) => head,
            Err(e) => return Err(e),
        };
        let ghost start = r.data@;
        let ghost all = settings_of(start);
        let ghost mut done: Seq<SettingModel> = seq![];
        let mut interfaces: Vec<Interface> = Vec::new();
        proof {
            assert(interface_models(interfaces@) =~= interfaces_of(done));
        }
        loop
            invariant
                head_with_extra::<ConfigurationDescriptor>(old(r).data@) == Some(
                    (descriptor, extra@, start),
                ),
                all == settings_of(start),
                interface_models(interfaces@) == interfaces_of(done),
                all is Some <==> settings_of(r.data@) is Some,
                all matches Some((s, end)) ==> s == done + (settings_of(r.data@)->0).0 && end == (
                settings_of(r.data@)->0).1,
            ensures
                all == Some((done, r.data@)),
                interface_models(interfaces@) == interfaces_of(done),
            decreases r.data@.len(),
        {
            let ghost here = r.data@;
            match r.peek() {
                Ok(Some((ty, _))) => {
                    if ty != DESCRIPTOR_TYPE_INTERFACE {
                        break;
                    }
                },
                Ok(None) => break,
                Err(e) => return Err(e),
            }
            proof {
                lemma_setting_shrinks(here);
            }
            match InterfaceAlternateSetting::parse(r) {
                Ok(alt) => {
                    proof {
                        assert(done.push(alt@).drop_last() =~= done);
                        done = done.push(alt@);
                    }
                    add_setting(&mut interfaces, alt);
                },
                Err(e) => return Err(e),
            }
        }
        Ok(Configuration { descriptor, interfaces, extra })
    }
}

/// Read the configurations in the descriptors of a device.
///
/// What comes before the first configuration descriptor is passed over, and reading stops at the
/// first standard descriptor that is out of place. It is an error if anything up to there is
/// malformed: a header that is cut off, a `bLength` that is less than 2 or greater than what is
/// left, or a standard descriptor whose length is not that of its type.
pub fn parse_configurations(descriptors: &[u8]) -> (res: Result<Vec<Configuration>, ParseError>)
    ensures
        res is Ok <==> parsed(descriptors@) is Some,
        res matches Ok(v) ==> parsed(descriptors@) == Some(configuration_models(v@)),
        res matches Ok(v) ==> (parsed(descriptors@) matches Some(all) && all.len() == v@.len()
            && forall|i: int| 0 <= i < v@.len() ==> (#[trigger] v@[i])@ == all[i]),
{
    let mut r = Reader::new(descriptors);
    let keep = Ghost(|ty: u8| ty != DESCRIPTOR_TYPE_CONFIGURATION);
    match r.capture_while_ty(
        test_not_configuration,
        keep,
    ) {
        Ok(_) => {},
        Err(e) => return Err(e),
    }
    let ghost all = configurations_of(r.data@);
    let mut res: Vec<Configuration> = Vec::new();
    proof {
        assert(configuration_models(res@) =~= seq![]);
    }
    loop
        invariant
            all == parsed(descriptors@),
            all is Some <==> configurations_of(r.data@) is Some,
            all matches Some(c) ==> c == configuration_models(res@) + configurations_of(
                r.data@,
            )->0,
        ensures
            all == Some(configuration_models(res@)),
        decreases r.data@.len(),
    {
        let ghost here = r.data@;
        match r.peek() {
            Ok(Some((ty, _))) => {
                if ty != DESCRIPTOR_TYPE_CONFIGURATION {
                    break;
                }
            },
            Ok(None) => break,
            Err(e) => return Err(e),
        }
        proof {
            lemma_configuration_shrinks(here);
        }
        match Configuration::parse(&mut r) {
            Ok(configuration) => {
                proof {
                    assert(configuration_models(res@.push(configuration)) =~= configuration_models(
                        res@,
                    ).push(configuration@));
                }
                res.push(configuration);
            },
            Err(e) => return Err(e),
        }
    }
    Ok(res)
}

/// Every alternate setting is found with its interface and nowhere else: no interface number
/// occurs twice, an interface has just the settings of its number, in the order in which they were
/// read, and no setting is left out.
pub proof fn law_interfaces_group_settings(settings: Seq<SettingModel>)
    ensures
        forall|i: int, j: int|
            0 <= i < j < interfaces_of(settings).len() ==> (#[trigger] interfaces_of(settings)[i]).0
                != (#[trigger] interfaces_of(settings)[j]).0,
        forall|i: int|
            0 <= i < interfaces_of(settings).len() ==> (#[trigger] interfaces_of(settings)[i]).1
                == settings.filter(
                |a: SettingModel|
                    a.descriptor.bInterfaceNumber == interfaces_of(settings)[i].0,
            ) && interfaces_of(settings)[i].1.len() > 0,
        forall|k: int|
            0 <= k < settings.len() ==> index_of_interface(
                interfaces_of(settings),
                (#[trigger] settings[k]).descriptor.bInterfaceNumber,
            ) < interfaces_of(settings).len(),
    decreases settings.len(),
{
    let all = interfaces_of(settings);
    reveal(Seq::filter);
    if settings.len() > 0 {
        let before = interfaces_of(settings.drop_last());
        let last = settings.last();
        let number = last.descriptor.bInterfaceNumber;
        let at = index_of_interface(before, number);
        law_interfaces_group_settings(settings.drop_last());
        lemma_found_interface(before, number);
        assert forall|i: int| 0 <= i < all.len() implies (#[trigger] all[i]).1 == settings.filter(
            |a: SettingModel| a.descriptor.bInterfaceNumber == all[i].0,
        ) && all[i].1.len() > 0 by {
            if i < before.len() {
                assert(all[i].0 == before[i].0);
                assert(before[i].1 == settings.drop_last().filter(
                    |a: SettingModel| a.descriptor.bInterfaceNumber == before[i].0,
                ));
                assert((|a: SettingModel| a.descriptor.bInterfaceNumber == all[i].0) =~= (
                |a: SettingModel| a.descriptor.bInterfaceNumber == before[i].0));
            } else {
                let of_number = |a: SettingModel| a.descriptor.bInterfaceNumber == all[i].0;
                if settings.drop_last().filter(of_number).len() > 0 {
                    lemma_filtered_setting(settings.drop_last(), number);
                    let k = choose|k: int|
                        0 <= k < settings.drop_last().len()
                            && #[trigger] settings.drop_last()[k].descriptor.bInterfaceNumber
                            == number;
                    assert(index_of_interface(
                        before,
                        settings.drop_last()[k].descriptor.bInterfaceNumber,
                    ) < before.len());
                }
                assert(settings.filter(of_number) =~= seq![last]);
            }
        }
        assert forall|k: int| 0 <= k < settings.len() implies index_of_interface(
            all,
            (#[trigger] settings[k]).descriptor.bInterfaceNumber,
        ) < all.len() by {
            let n = settings[k].descriptor.bInterfaceNumber;
            if k < settings.len() - 1 {
                assert(settings.drop_last()[k] == settings[k]);
                lemma_found_interface(before, n);
                let j = index_of_interface(before, n);
                assert(all[j].0 == n);
                lemma_interface_occurs(all, n, j);
            } else {
                let j = if at < before.len() {
                    at
                } else {
                    before.len() as int
                };
                assert(all[j].0 == n);
                lemma_interface_occurs(all, n, j);
            }
        }
    }
}

proof fn lemma_found_interface(interfaces: Seq<InterfaceModel>, number: u8)
    ensures
        0 <= index_of_interface(interfaces, number) <= interfaces.len(),
        index_of_interface(interfaces, number) < interfaces.len() ==> interfaces[index_of_interface(
            interfaces,
            number,
        )].0 == number,
        index_of_interface(interfaces, number) == interfaces.len() ==> forall|k: int|
            0 <= k < interfaces.len() ==> (#[trigger] interfaces[k]).0 != number,
    decreases interfaces.len(),
{
    if interfaces.len() > 0 && interfaces[0].0 != number {
        let rest = interfaces.drop_first();
        lemma_found_interface(rest, number);
        assert forall|k: int|
            index_of_interface(interfaces, number) == interfaces.len() && 0 <= k
                < interfaces.len() implies (#[trigger] interfaces[k]).0 != number by {
            if k > 0 {
                assert(rest[k - 1] == interfaces[k]);
            }
        }
    }
}

proof fn lemma_interface_occurs(interfaces: Seq<InterfaceModel>, number: u8, at: int)
    requires
        0 <= at < interfaces.len(),
        interfaces[at].0 == number,
    ensures
        index_of_interface(interfaces, number) < interfaces.len(),
{
    lemma_found_interface(interfaces, number);
}

proof fn lemma_filtered_setting(settings: Seq<SettingModel>, number: u8)
    requires
        settings.filter(|a: SettingModel| a.descriptor.bInterfaceNumber == number).len() > 0,
    ensures
        exists|k: int|
            0 <= k < settings.len() && #[trigger] settings[k].descriptor.bInterfaceNumber == number,
    decreases settings.len(),
{
    reveal(Seq::filter);
    if settings.len() > 0 {
        if settings.last().descriptor.bInterfaceNumber == number {
            assert(settings[settings.len() - 1].descriptor.bInterfaceNumber == number);
        } else {
            lemma_filtered_setting(settings.drop_last(), number);
            let k = choose|k: int|
                0 <= k < settings.drop_last().len()
                    && #[trigger] settings.drop_last()[k].descriptor.bInterfaceNumber == number;
            assert(settings[k].descriptor.bInterfaceNumber == number);
        }
    }
}

/// Reading loses no byte: the descriptor, the class-specific descriptors that were kept with it
/// and the rest are the bytes that were read, and what was kept is whole descriptors, none of them
/// of a standard type.
pub proof fn law_head_loses_nothing<D: Descriptor>(s: Seq<u8>)
    requires
        descriptors::starts_with_descriptor(s),
        head_with_extra::<D>(s) is Some,
    ensures
        ({
            let (descriptor, extra, rest) = head_with_extra::<D>(s)->0;
            &&& descriptors::first_descriptor(s) + extra + rest == s
            &&& descriptors::descriptor_chain(extra).flatten() == extra
            &&& forall|i: int|
                0 <= i < descriptors::descriptor_chain(extra).len() ==> !is_standard(
                    (#[trigger] descriptors::descriptor_chain(extra)[i])[1],
                )
        }),
{
    let (descriptor, extra, rest) = head_with_extra::<D>(s)->0;
    let after = descriptors::after_descriptor(s);
    lemma_run_length(after, |ty: u8| is_class_specific(ty));
    assert(descriptors::first_descriptor(s) + extra + rest =~= s);
    lemma_run_is_class_specific(after);
}

proof fn lemma_run_is_class_specific(s: Seq<u8>)
    requires
        run_length(s, |ty: u8| is_class_specific(ty)) is Some,
    ensures
        ({
            let run = s.take(run_length(s, |ty: u8| is_class_specific(ty))->0);
            &&& descriptors::descriptor_chain(run).flatten() == run
            &&& forall|i: int|
                0 <= i < descriptors::descriptor_chain(run).len() ==> !is_standard(
                    (#[trigger] descriptors::descriptor_chain(run)[i])[1],
                )
        }),
    decreases s.len(),
{
    let keep = |ty: u8| is_class_specific(ty);
    let run = s.take(run_length(s, keep)->0);
    let chain = descriptors::descriptor_chain(run);
    lemma_run_length(s, keep);
    if s.len() > 0 && keep(s[1]) {
        let after = descriptors::after_descriptor(s);
        lemma_run_length(after, keep);
        lemma_run_is_class_specific(after);
        let tail = after.take(run_length(after, keep)->0);
        assert(descriptors::first_descriptor(run) =~= descriptors::first_descriptor(s));
        assert(descriptors::after_descriptor(run) =~= tail);
        assert(chain.drop_first() =~= descriptors::descriptor_chain(tail));
        assert(chain.flatten() == descriptors::first_descriptor(s) + tail);
        assert(descriptors::first_descriptor(s) + tail =~= run);
        assert forall|i: int| 0 <= i < chain.len() implies !is_standard((#[trigger] chain[i])[1]) by {
            if i > 0 {
                assert(chain[i] == descriptors::descriptor_chain(tail)[i - 1]);
            }
        }
    } else {
        assert(run =~= seq![]);
        assert(chain.flatten() =~= seq![]);
    }
}

/// Each field of a descriptor is at its place in the bytes, the low byte first where it has two, and
/// each type of descriptor has its length. An endpoint descriptor has its last two fields only if it is
/// of the longer kind.
pub proof fn law_fields_are_at_their_places(s: Seq<u8>, n: nat)
    ensures
        DeviceDescriptor::has_length(n) <==> n == 18,
        ConfigurationDescriptor::has_length(n) <==> n == 9,
        InterfaceDescriptor::has_length(n) <==> n == 9,
        EndpointDescriptor::has_length(n) <==> n == 7 || n == 9,
        BosDescriptor::has_length(n) <==> n == 5,
        ({
            let d = DeviceDescriptor::of_bytes(s);
            &&& d.bLength == s[0] && d.bDescriptorType == s[1]
            &&& d.bcdUSB == s[2] + 256 * s[3]
            &&& d.bDeviceClass == s[4] && d.bDeviceSubClass == s[5] && d.bDeviceProtocol == s[6]
            &&& d.bMaxPacketSize0 == s[7]
            &&& d.idVendor == s[8] + 256 * s[9]
            &&& d.idProduct == s[10] + 256 * s[11]
            &&& d.bcdDevice == s[12] + 256 * s[13]
            &&& d.iManufacturer == s[14] && d.iProduct == s[15] && d.iSerialNumber == s[16]
            &&& d.bNumConfigurations == s[17]
        }),
        ({
            let c = ConfigurationDescriptor::of_bytes(s);
            &&& c.bLength == s[0] && c.bDescriptorType == s[1]
            &&& c.wTotalLength == s[2] + 256 * s[3]
            &&& c.bNumInterfaces == s[4] && c.bConfigurationValue == s[5]
            &&& c.iConfiguration == s[6] && c.bmAttributes == s[7] && c.bMaxPower == s[8]
        }),
        ({
            let i = InterfaceDescriptor::of_bytes(s);
            &&& i.bLength == s[0] && i.bDescriptorType == s[1]
            &&& i.bInterfaceNumber == s[2] && i.bAlternateSetting == s[3]
            &&& i.bNumEndpoints == s[4] && i.bInterfaceClass == s[5]
            &&& i.bInterfaceSubClass == s[6] && i.bInterfaceProtocol == s[7]
            &&& i.iInterface == s[8]
        }),
        ({
            let e = EndpointDescriptor::of_bytes(s);
            &&& e.bLength == s[0] && e.bDescriptorType == s[1]
            &&& e.bEndpointAddress == s[2] && e.bmAttributes == s[3]
            &&& e.wMaxPacketSize == s[4] + 256 * s[5]
            &&& e.bInterval == s[6]
            &&& s.len() == 9 ==> e.bRefresh == s[7] && e.bSynchAddress == s[8]
            &&& s.len() != 9 ==> e.bRefresh == 0 && e.bSynchAddress == 0
        }),
        ({
            let b = BosDescriptor::of_bytes(s);
            &&& b.bLength == s[0] && b.bDescriptorType == s[1]
            &&& b.wTotalLength == s[2] + 256 * s[3]
            &&& b.bNumDeviceCaps == s[4]
        }),
{
}

/// A descriptor keeps what follows it up to the next device, configuration, interface or endpoint
/// descriptor or the end: one more descriptor of another type right behind it is kept in front of what
/// it keeps without it, and changes nothing else. A length that the type does not have, or anything
/// malformed that follows, is an error.
pub proof fn law_descriptor_keeps_what_follows<D: Descriptor>(
    first: Seq<u8>,
    x: Seq<u8>,
    tail: Seq<u8>,
)
    requires
        first.len() >= 2,
        first[0] == first.len(),
    ensures
        !D::has_length(first.len()) ==> head_with_extra::<D>(first + tail) is None,
        D::has_length(first.len()) && tail.len() == 0 ==> head_with_extra::<D>(first + tail)
            == Some((D::of_bytes(first), Seq::<u8>::empty(), tail)),
        D::has_length(first.len()) && tail.len() >= 2 && 2 <= tail[0] <= tail.len() && (tail[1] == 1
            || tail[1] == 2 || tail[1] == 4 || tail[1] == 5) ==> head_with_extra::<D>(first + tail)
            == Some((D::of_bytes(first), Seq::<u8>::empty(), tail)),
        tail.len() > 0 && (tail.len() < 2 || tail[0] < 2 || tail[0] > tail.len())
            ==> head_with_extra::<D>(first + tail) is None,
        x.len() >= 2 && x[0] == x.len() && x[1] != 1 && x[1] != 2 && x[1] != 4 && x[1] != 5 ==> {
            &&& head_with_extra::<D>(first + tail) is None ==> head_with_extra::<D>(
                first + (x + tail),
            ) is None
            &&& head_with_extra::<D>(first + tail) matches Some((d, extra, rest))
                ==> head_with_extra::<D>(first + (x + tail)) == Some((d, x + extra, rest))
        },
{
    let keep = |ty: u8| is_class_specific(ty);
    let s = first + tail;
    let t = first + (x + tail);
    assert(descriptors::first_descriptor(s) =~= first);
    assert(descriptors::after_descriptor(s) =~= tail);
    assert(descriptors::first_descriptor(t) =~= first);
    assert(descriptors::after_descriptor(t) =~= x + tail);
    assert(tail.take(0) =~= Seq::<u8>::empty());
    assert(tail.skip(0) =~= tail);
    if x.len() >= 2 && x[0] == x.len() && x[1] != 1 && x[1] != 2 && x[1] != 4 && x[1] != 5 {
        let after = x + tail;
        assert(descriptors::after_descriptor(after) =~= tail);
        assert(keep(after[1]));
        lemma_run_length(tail, keep);
        if let Some(n) = run_length(tail, keep) {
            assert(run_length(after, keep) == Some(x.len() + n));
            assert(after.take(x.len() + n) =~= x + tail.take(n));
            assert(after.skip(x.len() + n) =~= tail.skip(n));
        }
    }
}

/// Endpoints, alternate settings and configurations are read one after the other, each with what
/// belongs to it, for as long as the next descriptor is one of their type. One that cannot be read, or
/// anything malformed where the next would be, is an error of the whole.
pub proof fn law_parts_follow_each_other(s: Seq<u8>)
    ensures
        s.len() == 0 ==> endpoints_of(s) == Some((Seq::<EndpointModel>::empty(), s)) && settings_of(
            s,
        ) == Some((Seq::<SettingModel>::empty(), s)) && configurations_of(s) == Some(
            Seq::<ConfigurationModel>::empty(),
        ),
        s.len() > 0 && (s.len() < 2 || s[0] < 2 || s[0] > s.len()) ==> endpoints_of(s) is None
            && settings_of(s) is None && configurations_of(s) is None,
        s.len() >= 2 && 2 <= s[0] <= s.len() ==> {
            &&& s[1] != 5 ==> endpoints_of(s) == Some((Seq::<EndpointModel>::empty(), s))
            &&& s[1] != 4 ==> settings_of(s) == Some((Seq::<SettingModel>::empty(), s))
            &&& s[1] != 2 ==> configurations_of(s) == Some(Seq::<ConfigurationModel>::empty())
            &&& s[1] == 5 ==> match head_with_extra::<EndpointDescriptor>(s) {
                Some((descriptor, extra, rest)) => match endpoints_of(rest) {
                    Some((more, end)) => endpoints_of(s) == Some(
                        (seq![(EndpointModel { descriptor, extra })] + more, end),
                    ),
                    None => endpoints_of(s) is None,
                },
                None => endpoints_of(s) is None,
            }
            &&& s[1] == 4 ==> match setting_of(s) {
                Some((setting, rest)) => match settings_of(rest) {
                    Some((more, end)) => settings_of(s) == Some((seq![setting] + more, end)),
                    None => settings_of(s) is None,
                },
                None => settings_of(s) is None,
            }
            &&& s[1] == 2 ==> match configuration_of(s) {
                Some((configuration, rest)) => match configurations_of(rest) {
                    Some(more) => configurations_of(s) == Some(seq![configuration] + more),
                    None => configurations_of(s) is None,
                },
                None => configurations_of(s) is None,
            }
        },
{
}

/// An alternate setting has the interface descriptor, what that keeps and the endpoints that follow; a
/// configuration has the configuration descriptor, what that keeps and the interfaces of the alternate
/// settings that follow. Neither is read if one of these cannot be.
pub proof fn law_parts_have_their_parts(s: Seq<u8>)
    ensures
        match setting_of(s) {
            Some((setting, end)) => head_with_extra::<InterfaceDescriptor>(s) matches Some(
                (descriptor, extra, rest),
            ) && setting.descriptor == descriptor && setting.extra == extra && endpoints_of(rest)
                == Some((setting.endpoints, end)),
            None => head_with_extra::<InterfaceDescriptor>(s) matches Some((descriptor, extra, rest))
                ==> endpoints_of(rest) is None,
        },
        match configuration_of(s) {
            Some((configuration, end)) => head_with_extra::<ConfigurationDescriptor>(s) matches Some(
                (descriptor, extra, rest),
            ) && configuration.descriptor == descriptor && configuration.extra == extra && (
            settings_of(rest) matches Some((settings, last)) && last == end
                && configuration.interfaces == interfaces_of(settings)),
            None => head_with_extra::<ConfigurationDescriptor>(s) matches Some(
                (descriptor, extra, rest),
            ) ==> settings_of(rest) is None,
        },
{
}

/// One more alternate setting is the last one of its interface where one with its number was there
/// before, and is otherwise the only one of a new last interface; the other interfaces are unchanged.
pub proof fn law_setting_is_added_last(settings: Seq<SettingModel>, a: SettingModel, at: int)
    requires
        0 <= at <= interfaces_of(settings).len(),
        at < interfaces_of(settings).len() ==> interfaces_of(settings)[at].0
            == a.descriptor.bInterfaceNumber,
        at == interfaces_of(settings).len() ==> forall|i: int|
            0 <= i < at ==> (#[trigger] interfaces_of(settings)[i]).0
                != a.descriptor.bInterfaceNumber,
    ensures
        interfaces_of(Seq::empty()).len() == 0,
        at == interfaces_of(settings).len() ==> interfaces_of(settings.push(a)) == interfaces_of(
            settings,
        ).push((a.descriptor.bInterfaceNumber, seq![a])),
        at < interfaces_of(settings).len() ==> interfaces_of(settings.push(a)) == interfaces_of(
            settings,
        ).update(at, (a.descriptor.bInterfaceNumber, interfaces_of(settings)[at].1.push(a))),
{
    let all = interfaces_of(settings);
    let number = a.descriptor.bInterfaceNumber;
    assert(settings.push(a).drop_last() =~= settings);
    lemma_found_interface(all, number);
    law_interfaces_group_settings(settings);
    let found = index_of_interface(all, number);
    if at < all.len() {
        lemma_interface_occurs(all, number, at);
        assert(all[found].0 == all[at].0);
    } else if found < all.len() {
        assert(all[found].0 == number);
    }
}

/// Reading begins at the first configuration descriptor: one descriptor of another type less in front
/// changes nothing, and anything malformed before it is an error.
pub proof fn law_reading_begins_at_configuration(s: Seq<u8>)
    ensures
        s.len() == 0 ==> parsed(s) == Some(Seq::<ConfigurationModel>::empty()),
        s.len() > 0 && (s.len() < 2 || s[0] < 2 || s[0] > s.len()) ==> parsed(s) is None,
        s.len() >= 2 && 2 <= s[0] <= s.len() && s[1] != 2 ==> parsed(s) == parsed(
            s.skip(s[0] as int),
        ),
        s.len() >= 2 && 2 <= s[0] <= s.len() && s[1] == 2 ==> parsed(s) == configurations_of(s),
{
    let keep = |ty: u8| ty != DESCRIPTOR_TYPE_CONFIGURATION;
    assert(s.skip(0) =~= s);
    if s.len() >= 2 && 2 <= s[0] <= s.len() && s[1] != 2 {
        let after = s.skip(s[0] as int);
        assert(keep(s[1]));
        assert(after == descriptors::after_descriptor(s));
        lemma_run_length(after, keep);
        if let Some(n) = run_length(after, keep) {
            assert(after.skip(n) =~= s.skip(s[0] + n));
        }
    }
}

/// The subfields of the attribute and address bytes.
proof fn lemma_byte_fields(b: u8)
    by (bit_vector)
    ensures
        (b & 0x40 != 0) == (b / 64 % 2 == 1),
        (b & 0x20 != 0) == (b / 32 % 2 == 1),
        b & 0x7f == b % 128,
        (b & 0x0c) >> 2 == b / 4 % 4,
        (b & 0x30) >> 4 == b / 16 % 4,
{
}

impl Configuration {
    /// Returns the configuration number.
    pub fn number(&self) -> (r: u8)
        ensures
            r == self@.descriptor.bConfigurationValue,
    {
        self.descriptor.bConfigurationValue
    }

    /// Returns the device's maximum power consumption (in milliamps) in this configuration.
    pub fn max_power(&self) -> (r: u16)
        ensures
            r == self@.descriptor.bMaxPower * 2,
    {
        self.descriptor.bMaxPower as u16 * 2
    }

    /// Indicates if the device is self-powered in this configuration.
    pub fn self_powered(&self) -> (r: bool)
        ensures
            r == (self@.descriptor.bmAttributes / 64 % 2 == 1),
    {
        proof {
            lemma_byte_fields(self.descriptor.bmAttributes);
        }
        self.descriptor.bmAttributes & 0x40 != 0
    }

    /// Indicates if the device has remote wakeup capability in this configuration.
    pub fn remote_wakeup(&self) -> (r: bool)
        ensures
            r == (self@.descriptor.bmAttributes / 32 % 2 == 1),
    {
        proof {
            lemma_byte_fields(self.descriptor.bmAttributes);
        }
        self.descriptor.bmAttributes & 0x20 != 0
    }

    /// Returns the index of the string descriptor that describes the configuration.
    pub fn description_string_index(&self) -> (r: Option<u8>)
        ensures
            r == descriptors::nonzero(self@.descriptor.iConfiguration),
            self@.descriptor.iConfiguration == 0 ==> r is None,
            self@.descriptor.iConfiguration != 0 ==> r == Some(self@.descriptor.iConfiguration),
    {
        descriptors::nonzero_index(self.descriptor.iConfiguration)
    }

    /// Returns the number of interfaces for this configuration.
    pub fn num_interfaces(&self) -> (r: u8)
        ensures
            r == self@.descriptor.bNumInterfaces,
    {
        self.descriptor.bNumInterfaces
    }

    /// Returns a collection of the configuration's interfaces.
    pub fn interfaces(&self) -> (r: &[Interface])
        ensures
            interface_models(r@) == self@.interfaces,
            r@.len() == self@.interfaces.len(),
            forall|i: int| 0 <= i < r@.len() ==> (#[trigger] r@[i])@ == self@.interfaces[i],
    {
        self.interfaces.as_slice()
    }

    /// Returns unparsed class-specific descriptors.
    pub fn extra_descriptors(&self) -> (r: &[u8])
        ensures
            r@ == self@.extra,
    {
        self.extra.as_slice()
    }
}

impl Interface {
    /// Get the interface number.
    pub fn number(&self) -> (r: u8)
        ensures
            r == self@.0,
    {
        self.number
    }

    /// Returns a collection of the interface's alternate settings.
    pub fn alternate_settings(&self) -> (r: &[InterfaceAlternateSetting])
        ensures
            setting_models(r@) == self@.1,
            r@.len() == self@.1.len(),
            forall|i: int| 0 <= i < r@.len() ==> (#[trigger] r@[i])@ == self@.1[i],
    {
        self.alternate_settings.as_slice()
    }
}

impl InterfaceAlternateSetting {
    /// Returns the interface's number.
    pub fn interface_number(&self) -> (r: u8)
        ensures
            r == self@.descriptor.bInterfaceNumber,
    {
        self.descriptor.bInterfaceNumber
    }

    /// Returns the alternate setting number.
    pub fn alternate_setting_number(&self) -> (r: u8)
        ensures
            r == self@.descriptor.bAlternateSetting,
    {
        self.descriptor.bAlternateSetting
    }

    /// Returns the interface's class code.
    pub fn class_code(&self) -> (r: u8)
        ensures
            r == self@.descriptor.bInterfaceClass,
    {
        self.descriptor.bInterfaceClass
    }

    /// Returns the interface's sub class code.
    pub fn sub_class_code(&self) -> (r: u8)
        ensures
            r == self@.descriptor.bInterfaceSubClass,
    {
        self.descriptor.bInterfaceSubClass
    }

    /// Returns the interface's protocol code.
    pub fn protocol_code(&self) -> (r: u8)
        ensures
            r == self@.descriptor.bInterfaceProtocol,
    {
        self.descriptor.bInterfaceProtocol
    }

    /// Returns the index of the string descriptor that describes the interface.
    pub fn description_string_index(&self) -> (r: Option<u8>)
        ensures
            r == descriptors::nonzero(self@.descriptor.iInterface),
            self@.descriptor.iInterface == 0 ==> r is None,
            self@.descriptor.iInterface != 0 ==> r == Some(self@.descriptor.iInterface),
    {
        descriptors::nonzero_index(self.descriptor.iInterface)
    }

    /// Returns the number of endpoints belonging to this interface.
    pub fn num_endpoints(&self) -> (r: u8)
        ensures
            r == self@.descriptor.bNumEndpoints,
    {
        self.descriptor.bNumEndpoints
    }

    /// Returns the interface's endpoint descriptors.
    pub fn endpoints(&self) -> (r: &[Endpoint])
        ensures
            endpoint_models(r@) == self@.endpoints,
            r@.len() == self@.endpoints.len(),
            forall|i: int| 0 <= i < r@.len() ==> (#[trigger] r@[i])@ == self@.endpoints[i],
    {
        self.endpoints.as_slice()
    }

    /// Returns unparsed class-specific descriptors.
    pub fn extra_descriptors(&self) -> (r: &[u8])
        ensures
            r@ == self@.extra,
    {
        self.extra.as_slice()
    }
}

/// Isochronous endpoint synchronization type.
#[derive(Debug, Clone, Copy, PartialEq, Eq, Structural)]
pub enum EndpointSyncType {
    /// No synchronization.
    NoSync,
    /// Asynchronous synchronization.
    Asynchronous,
    /// Adaptive synchronization.
    Adaptive,
    /// Synchronous synchronization.
    Synchronous,
}

/// Endpoint usage type.
#[derive(Debug, Clone, Copy, PartialEq, Eq, Structural)]
pub enum EndpointUsageType {
    /// Data.
    Data,
    /// Feedback.
    Feedback,
    /// Feedback, data.
    FeedbackData,
    /// Reserved, do not use.
    Reserved,
}

/// The synchronization type in bits 2 and 3 of `bmAttributes`.
pub open spec fn sync_type_of(attributes: u8) -> EndpointSyncType {
    let field = attributes / 4 % 4;
    if field == 0 {
        EndpointSyncType::NoSync
    } else if field == 1 {
        EndpointSyncType::Asynchronous
    } else if field == 2 {
        EndpointSyncType::Adaptive
    } else {
        EndpointSyncType::Synchronous
    }
}

/// The usage type in bits 4 and 5 of `bmAttributes`.
pub open spec fn usage_type_of(attributes: u8) -> EndpointUsageType {
    let field = attributes / 16 % 4;
    if field == 0 {
        EndpointUsageType::Data
    } else if field == 1 {
        EndpointUsageType::Feedback
    } else if field == 2 {
        EndpointUsageType::FeedbackData
    } else {
        EndpointUsageType::Reserved
    }
}

/// Bits 2 and 3 of the attributes of an endpoint are how it is synchronised, and bits 4 and 5 what it is
/// used for.
pub proof fn law_bits_tell_synchronisation_and_usage(a: u8)
    ensures
        sync_type_of(a) == EndpointSyncType::NoSync <==> a % 16 < 4,
        sync_type_of(a) == EndpointSyncType::Asynchronous <==> 4 <= a % 16 < 8,
        sync_type_of(a) == EndpointSyncType::Adaptive <==> 8 <= a % 16 < 12,
        sync_type_of(a) == EndpointSyncType::Synchronous <==> 12 <= a % 16,
        usage_type_of(a) == EndpointUsageType::Data <==> a % 64 < 16,
        usage_type_of(a) == EndpointUsageType::Feedback <==> 16 <= a % 64 < 32,
        usage_type_of(a) == EndpointUsageType::FeedbackData <==> 32 <= a % 64 < 48,
        usage_type_of(a) == EndpointUsageType::Reserved <==> 48 <= a % 64,
{
}

impl Endpoint {
    /// Returns the endpoint's address.
    ///
    /// The address is a single byte containing the number in the lower 7 bits,
    /// and the direction in the highest bit.
    pub fn address(&self) -> (r: u8)
        ensures
            r == self@.descriptor.bEndpointAddress,
    {
        self.descriptor.bEndpointAddress
    }

    /// Returns the endpoint number.
    ///
    /// This is the endpoint address without the direction bit.
    pub fn number(&self) -> (r: u8)
        ensures
            r == self@.descriptor.bEndpointAddress % 128,
    {
        proof {
            lemma_byte_fields(self.descriptor.bEndpointAddress);
        }
        self.descriptor.bEndpointAddress & 0x7f
    }

    /// Returns the endpoint's direction.
    pub fn direction(&self) -> (r: Direction)
        ensures
            r == Direction::of_address(self@.descriptor.bEndpointAddress),
            r == Direction::In <==> self@.descriptor.bEndpointAddress >= 128,
    {
        Direction::from_address(self.descriptor.bEndpointAddress)
    }

    /// Returns the endpoint's transfer type.
    pub fn transfer_type(&self) -> (r: EndpointType)
        ensures
            r == EndpointType::of_attributes(self@.descriptor.bmAttributes),
            r == EndpointType::Control <==> self@.descriptor.bmAttributes % 4 == 0,
            r == EndpointType::Isochronous <==> self@.descriptor.bmAttributes % 4 == 1,
            r == EndpointType::Bulk <==> self@.descriptor.bmAttributes % 4 == 2,
            r == EndpointType::Interrupt <==> self@.descriptor.bmAttributes % 4 == 3,
    {
        EndpointType::from_attributes(self.descriptor.bmAttributes)
    }

    /// Returns the endpoint's synchronisation mode.
    ///
    /// The return value of this method is only valid for isochronous endpoints.
    pub fn sync_type(&self) -> (r: EndpointSyncType)
        ensures
            r == sync_type_of(self@.descriptor.bmAttributes),
            r == EndpointSyncType::NoSync <==> self@.descriptor.bmAttributes / 4 % 4 == 0,
            r == EndpointSyncType::Asynchronous <==> self@.descriptor.bmAttributes / 4 % 4 == 1,
            r == EndpointSyncType::Adaptive <==> self@.descriptor.bmAttributes / 4 % 4 == 2,
            r == EndpointSyncType::Synchronous <==> self@.descriptor.bmAttributes / 4 % 4 == 3,
    {
        proof {
            lemma_byte_fields(self.descriptor.bmAttributes);
        }
        match (self.descriptor.bmAttributes & 0x0c) >> 2 {
            0 => EndpointSyncType::NoSync,
            1 => EndpointSyncType::Asynchronous,
            2 => EndpointSyncType::Adaptive,
            _ => EndpointSyncType::Synchronous,
        }
    }

    /// Returns the endpoint's usage type.
    ///
    /// The return value of this method is only valid for isochronous endpoints.
    pub fn usage_type(&self) -> (r: EndpointUsageType)
        ensures
            r == usage_type_of(self@.descriptor.bmAttributes),
            r == EndpointUsageType::Data <==> self@.descriptor.bmAttributes / 16 % 4 == 0,
            r == EndpointUsageType::Feedback <==> self@.descriptor.bmAttributes / 16 % 4 == 1,
            r == EndpointUsageType::FeedbackData <==> self@.descriptor.bmAttributes / 16 % 4 == 2,
            r == EndpointUsageType::Reserved <==> self@.descriptor.bmAttributes / 16 % 4 == 3,
    {
        proof {
            lemma_byte_fields(self.descriptor.bmAttributes);
        }
        match (self.descriptor.bmAttributes & 0x30) >> 4 {
            0 => EndpointUsageType::Data,
            1 => EndpointUsageType::Feedback,
            2 => EndpointUsageType::FeedbackData,
            _ => EndpointUsageType::Reserved,
        }
    }

    /// Returns the endpoint's maximum packet size.
    pub fn max_packet_size(&self) -> (r: u16)
        ensures
            r == self@.descriptor.wMaxPacketSize,
    {
        self.descriptor.wMaxPacketSize
    }

    /// Returns the endpoint's polling interval.
    pub fn interval(&self) -> (r: u8)
        ensures
            r == self@.descriptor.bInterval,
    {
        self.descriptor.bInterval
    }

    /// For audio devices only: return the rate at which synchronization feedback is provided.
    pub fn refresh(&self) -> (r: u8)
        ensures
            r == self@.descriptor.bRefresh,
    {
        self.descriptor.bRefresh
    }

    /// For audio devices only: return the address if the synch endpoint.
    pub fn synch_address(&self) -> (r: u8)
        ensures
            r == self@.descriptor.bSynchAddress,
    {
        self.descriptor.bSynchAddress
    }

    /// Returns unparsed class-specific descriptors.
    pub fn extra_descriptors(&self) -> (r: &[u8])
        ensures
            r@ == self@.extra,
    {
        self.extra.as_slice()
    }
}

} // verus!
