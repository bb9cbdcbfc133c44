//! Finding devices and buses in the device tree.

use vstd::prelude::*;

use crate::descriptors::{self, Configuration, DeviceDescriptor};
use crate::enumeration::{
    self, BusInfo, BusInfoModel, DevfsPath, DeviceInfo, DeviceInfoModel, InterfaceInfo,
    InterfaceInfoModel, PlatformBusInfo, PlatformBusModel, PlatformInfo, PlatformModel,
};
use crate::error::{Error, ErrorKind};
use crate::string_map::StringMap;
use crate::text;

verus! {

/// The value of a property of a node.
#[derive(Debug)]
pub enum PropVal {
    String(String),
    Bytes(Vec<u8>),
    Integer(i64),
    Boolean,
    Unknown,
}

/// [`PropVal`] with its text and bytes as sequences.
#[verifier::ext_equal]
pub enum PropModel {
    String(Seq<char>),
    Bytes(Seq<u8>),
    Integer(i64),
    Boolean,
    Unknown,
}

impl View for PropVal {
    type V = PropModel;

    open spec fn view(&self) -> PropModel {
        match self {
            PropVal::String(s) => PropModel::String(s@),
            PropVal::Bytes(b) => PropModel::Bytes(b@),
            PropVal::Integer(i) => PropModel::Integer(*i),
            PropVal::Boolean => PropModel::Boolean,
            PropVal::Unknown => PropModel::Unknown,
        }
    }
}

/// A property of a node as it was read: its name, and its value in each form that it has.
#[derive(Debug)]
pub struct Property {
    pub name: String,
    pub integer: Option<i64>,
    pub bytes: Option<Vec<u8>>,
    pub string: Option<String>,
    pub is_boolean: bool,
}

/// The value of a property: an integer if it can be read as one, else bytes, else a string.
pub open spec fn prop_value(p: Property) -> PropModel {
    if p.integer is Some {
        PropModel::Integer(p.integer->0)
    } else if p.bytes is Some {
        PropModel::Bytes(p.bytes->0@)
    } else if p.string is Some {
        PropModel::String(p.string->0@)
    } else if p.is_boolean {
        PropModel::Boolean
    } else {
        PropModel::Unknown
    }
}

/// The properties by name; of several of one name the last counts.
pub open spec fn prop_tree(props: Seq<Property>) -> Map<Seq<char>, PropModel>
    decreases props.len(),
{
    if props.len() == 0 {
        Map::empty()
    } else {
        prop_tree(props.drop_last()).insert(props.last().name@, prop_value(props.last()))
    }
}

/// The values of a map of properties.
pub open spec fn prop_models(m: Map<Seq<char>, PropVal>) -> Map<Seq<char>, PropModel> {
    m.map_values(|v: PropVal| v@)
}

fn read_prop(p: &Property) -> (r: PropVal)
    ensures
        r@ == prop_value(*p),
{
    if let Some(val) = p.integer {
        PropVal::Integer(val)
    } else if let Some(val) = &p.bytes {
        PropVal::Bytes(vstd::slice::slice_to_vec(val.as_slice()))
    } else if let Some(val) = &p.string {
        PropVal::String(val.clone())
    } else if p.is_boolean {
        PropVal::Boolean
    } else {
        PropVal::Unknown
    }
}

/// Collect the properties of a node by name.
pub fn build_prop_tree(props: &[Property]) -> (r: StringMap<PropVal>)
    ensures
        prop_models(r@) == prop_tree(props@),
{
    let mut tree: StringMap<PropVal> = StringMap::new();
    let mut i: usize = 0;
    assert(props@.take(0) =~= seq![]);
    assert(prop_models(tree@) =~= prop_tree(seq![]));
    while i < props.len()
        invariant
            i <= props@.len(),
            prop_models(tree@) == prop_tree(props@.take(i as int)),
        decreases props@.len() - i,
    {
        let p = &props[i];
        let ghost before = tree@;
        let value = read_prop(p);
        tree.insert(p.name.clone(), value);
        i = i + 1;
        proof {
            assert(props@.take(i as int).drop_last() =~= props@.take(i - 1));
            assert(prop_models(tree@) =~= prop_models(before).insert(p.name@, value@));
        }
    }
    assert(props@.take(i as int) =~= props@);
    tree
}

/// What came up while the links to the minor nodes of a node were listed.
#[derive(Debug)]
pub enum LinkItem {
    /// A link, with its file name if it has one.
    Link { file_name: Option<String>, path: String },
    /// The minor nodes could not be listed on.
    MinorError,
    /// The path of a minor node could not be had.
    MinorPathError,
    /// The links to a minor node could not be listed.
    LinksError,
}

/// A node of the device tree.
#[derive(Debug)]
pub struct Node {
    pub props: Vec<Property>,
    /// The path of the node, if it could be had.
    pub path: Option<String>,
    pub depth: u32,
    pub driver_name: Option<String>,
    /// The links to the minor nodes.
    pub links: Vec<LinkItem>,
    /// The string descriptors that could be read through the control node, by index.
    pub strings: Vec<(u8, Vec<u8>)>,
}

impl Node {
    /// A property of the node.
    pub open spec fn prop(self, name: Seq<char>) -> Option<PropModel> {
        if prop_tree(self.props@).dom().contains(name) {
            Some(prop_tree(self.props@)[name])
        } else {
            None
        }
    }

    /// Whether the node is a root hub.
    pub open spec fn is_root_hub(self) -> bool {
        self.prop("root-hub"@) == Some(PropModel::Boolean)
    }

    /// Whether the configuration descriptors of the node, if it has any, begin with a
    /// configuration.
    pub open spec fn has_valid_config(self) -> bool {
        self.prop("usb-raw-cfg-descriptors"@) matches Some(PropModel::Bytes(b))
            ==> descriptors::starts_with_config(b)
    }
}

/// A hub on the way to a node.
#[derive(Debug, Clone, Copy)]
pub struct Hub {
    pub depth: u32,
    pub port: u8,
}

/// Where in the tree a walk is: the number of the bus, and the hubs on the way to the last node.
#[verifier::ext_equal]
pub struct WalkModel {
    pub bus: Option<u8>,
    pub hubs: Seq<Hub>,
}

/// What comes of one node.
#[verifier::ext_equal]
pub enum Visit {
    /// It is no device.
    Skip,
    /// It is this device.
    Device(DeviceInfoModel),
    /// It is not as it has to be, in the way that the message says.
    Fail(Seq<char>),
}

/// The hubs that a node at this depth is below.
pub open spec fn hubs_above(hubs: Seq<Hub>, depth: u32) -> Seq<Hub>
    decreases hubs.len(),
{
    if hubs.len() > 0 && hubs.last().depth >= depth {
        hubs_above(hubs.drop_last(), depth)
    } else {
        hubs
    }
}

/// The ports of the hubs on the way to a node and its own.
pub open spec fn port_chain(hubs: Seq<Hub>, port: u8) -> Seq<u8> {
    hubs.map_values(|h: Hub| h.port).push(port)
}

/// What the links to the minor nodes come to: the paths by file name, or the first thing that is
/// wrong.
pub open spec fn link_paths(links: Seq<LinkItem>) -> Result<Map<Seq<char>, Seq<char>>, Seq<char>>
    decreases links.len(),
{
    if links.len() == 0 {
        Ok(Map::empty())
    } else {
        match link_paths(links.drop_last()) {
            Ok(paths) => match links.last() {
                LinkItem::Link { file_name: Some(name), path } => Ok(paths.insert(name@, path@)),
                LinkItem::Link { file_name: None, path } => Err("bad link path"@),
                LinkItem::MinorError => Err("transpose err"@),
                LinkItem::MinorPathError => Err("devfs path err"@),
                LinkItem::LinksError => Err("links for path err"@),
            },
            Err(e) => Err(e),
        }
    }
}

/// The first string descriptor that was read with this index.
pub open spec fn string_at(strings: Seq<(u8, Vec<u8>)>, index: u8) -> Option<Seq<u8>>
    decreases strings.len(),
{
    if strings.len() == 0 {
        None
    } else if strings[0].0 == index {
        Some(strings[0].1@)
    } else {
        string_at(strings.drop_first(), index)
    }
}

/// The string with an index, if there is a control node to read it through, and it could be read
/// and is one.
pub open spec fn interface_string(
    has_control: bool,
    strings: Seq<(u8, Vec<u8>)>,
    index: Option<u8>,
) -> Option<Seq<char>> {
    match index {
        Some(index) => if has_control {
            match string_at(strings, index) {
                Some(raw) => if descriptors::is_string_descriptor(raw) {
                    Some(descriptors::utf16_chars(descriptors::string_units(raw)))
                } else {
                    None
                },
                None => None,
            }
        } else {
            None
        },
        None => None,
    }
}

/// What is known of an interface from its first alternate setting.
pub open spec fn interface_of_group(
    group: (u8, Seq<Seq<u8>>),
    has_control: bool,
    strings: Seq<(u8, Vec<u8>)>,
) -> InterfaceInfoModel {
    let alt = group.1[0];
    InterfaceInfoModel {
        interface_number: group.0,
        class: alt[5],
        subclass: alt[6],
        protocol: alt[7],
        interface_string: interface_string(has_control, strings, descriptors::nonzero(alt[8])),
    }
}

/// The interfaces of the configuration that `cfg` begins with.
pub open spec fn interfaces_of(
    cfg: Seq<u8>,
    has_control: bool,
    strings: Seq<(u8, Vec<u8>)>,
) -> Seq<InterfaceInfoModel> {
    let config = cfg.take(descriptors::config_total_len(cfg) as int);
    descriptors::interface_groups(
        descriptors::descriptor_groups(
            config,
            descriptors::DESCRIPTOR_TYPE_INTERFACE,
            descriptors::DESCRIPTOR_LEN_INTERFACE,
        ),
    ).map_values(|g: (u8, Seq<Seq<u8>>)| interface_of_group(g, has_control, strings))
}

/// The value of a property that has to be a string if it is there.
pub open spec fn string_prop(p: Option<PropModel>) -> Result<Option<Seq<char>>, ()> {
    match p {
        Some(PropModel::String(s)) => Ok(Some(s)),
        None => Ok(None),
        _ => Err(()),
    }
}

/// What comes of a node that has a device descriptor, on the bus and below the hubs given.
pub open spec fn visit_device(
    bus: Option<u8>,
    hubs: Seq<Hub>,
    port: u8,
    path: Seq<char>,
    descriptor: Seq<u8>,
    node: Node,
) -> Visit {
    let address = node.prop("assigned-address"@);
    let vendor = string_prop(node.prop("usb-vendor-name"@));
    let product = string_prop(node.prop("usb-product-name"@));
    let serial = string_prop(node.prop("usb-serialno"@));
    if !(address matches Some(PropModel::Integer(v)) && v < 255) {
        Visit::Fail("bad assigned-address"@)
    } else if vendor is Err {
        Visit::Fail("bad usb-vendor-name"@)
    } else if vendor->Ok_0 is None {
        Visit::Skip
    } else if product is Err {
        Visit::Fail("bad usb-product-name"@)
    } else if serial is Err {
        Visit::Fail("bad usb-serialno"@)
    } else if bus is None {
        Visit::Fail("no root port"@)
    } else if !descriptors::starts_with_device(descriptor) {
        Visit::Fail("bad device descriptor"@)
    } else {
        match link_paths(node.links@) {
            Err(e) => Visit::Fail(e),
            Ok(device_paths) => match node.prop("usb-raw-cfg-descriptors"@) {
                Some(PropModel::Bytes(cfg)) => Visit::Device(
                    DeviceInfoModel {
                        platform: PlatformModel::Illumos { path, device_paths, busnum: bus->0 },
                        bus_id: text::zero_padded(text::decimal(bus->0 as nat), 3),
                        device_address: address->0->Integer_0 as u8,
                        port_chain: port_chain(hubs, port),
                        vendor_id: descriptors::le16(descriptor[8], descriptor[9]),
                        product_id: descriptors::le16(descriptor[10], descriptor[11]),
                        device_version: descriptors::le16(descriptor[12], descriptor[13]),
                        usb_version: descriptors::le16(descriptor[2], descriptor[3]),
                        class: descriptor[4],
                        subclass: descriptor[5],
                        protocol: descriptor[6],
                        speed: None,
                        manufacturer_string: vendor->Ok_0,
                        product_string: product->Ok_0,
                        serial_number: serial->Ok_0,
                        interfaces: interfaces_of(
                            cfg,
                            device_paths.dom().contains("cntrl0"@),
                            node.strings@,
                        ),
                    },
                ),
                _ => Visit::Fail("bad raw config decriptors"@),
            },
        }
    }
}

impl WalkModel {
    /// Where a walk begins.
    pub open spec fn start() -> WalkModel {
        WalkModel { bus: None, hubs: seq![] }
    }

    /// Where the walk is after a node, and what comes of that node.
    pub open spec fn visit(self, node: Node) -> (WalkModel, Visit) {
        if node.path is None {
            (self, Visit::Fail("devfs path err"@))
        } else if node.is_root_hub() {
            // A bus begins with its root hub.
            let bus = match self.bus {
                Some(bus) => (bus + 1) as u8,
                None => 1,
            };
            (WalkModel { bus: Some(bus), hubs: seq![] }, Visit::Skip)
        } else {
            match node.prop("reg"@) {
                None => (self, Visit::Skip),
                Some(PropModel::Integer(reg)) => {
                    let port = reg as u8;
                    let hubs = hubs_above(self.hubs, node.depth);
                    if node.driver_name matches Some(name) && name@ == "hubd"@ {
                        (
                            WalkModel { hubs: hubs.push(Hub { depth: node.depth, port }), ..self },
                            Visit::Skip,
                        )
                    } else {
                        match node.prop("usb-dev-descriptor"@) {
                            Some(PropModel::Bytes(descriptor)) => (
                                WalkModel { hubs, ..self },
                                visit_device(
                                    self.bus,
                                    hubs,
                                    port,
                                    node.path->0@,
                                    descriptor,
                                    node,
                                ),
                            ),
                            _ => (WalkModel { hubs, ..self }, Visit::Skip),
                        }
                    }
                },
                _ => (self, Visit::Fail("unexpected value in reg"@)),
            }
        }
    }

    /// Whether a node can be visited: buses are numbered up to 255, and the configuration of a
    /// device has to be one.
    pub open spec fn can_visit(self, node: Node) -> bool {
        &&& node.path is Some && node.is_root_hub() ==> self.bus != Some(255u8)
        &&& self.visit(node).1 is Device ==> node.has_valid_config()
    }

    /// Whether `nodes` can be visited one after the other, up to the first that fails.
    pub open spec fn can_walk(self, nodes: Seq<Node>) -> bool
        decreases nodes.len(),
    {
        nodes.len() == 0 || {
            &&& self.can_visit(nodes[0])
            &&& self.visit(nodes[0]).1 is Fail || self.visit(nodes[0]).0.can_walk(
                nodes.drop_first(),
            )
        }
    }

    /// Where the walk is after `nodes`.
    pub open spec fn after(self, nodes: Seq<Node>) -> WalkModel
        decreases nodes.len(),
    {
        if nodes.len() == 0 {
            self
        } else {
            self.visit(nodes[0]).0.after(nodes.drop_first())
        }
    }

    /// The devices among `nodes`, or the message of the first node that fails.
    pub open spec fn walk(self, nodes: Seq<Node>) -> Result<Seq<DeviceInfoModel>, Seq<char>>
        decreases nodes.len(),
    {
        if nodes.len() == 0 {
            Ok(seq![])
        } else {
            let (next, outcome) = self.visit(nodes[0]);
            match (outcome, next.walk(nodes.drop_first())) {
                (Visit::Fail(e), _) => Err(e),
                (_, Err(e)) => Err(e),
                (Visit::Skip, Ok(more)) => Ok(more),
                (Visit::Device(d), Ok(more)) => Ok(seq![d] + more),
            }
        }
    }
}

fn other(message: &'static str) -> (r: Error)
    ensures
        r.is(ErrorKind::Other, None, message@),
{
    Error::new(ErrorKind::Other, message)
}

fn get_prop<'a>(tree: &'a StringMap<PropVal>, name: &str, node: &Node) -> (r: Option<&'a PropVal>)
    requires
        prop_models(tree@) == prop_tree(node.props@),
    ensures
        match r {
            Some(v) => node.prop(name@) == Some(v@),
            None => node.prop(name@) is None,
        },
{
    let r = tree.get(name);
    assert(tree@.dom().contains(name@) == prop_models(tree@).dom().contains(name@));
    r
}

fn get_string_prop(tree: &StringMap<PropVal>, name: &str, node: &Node) -> (r: Result<
    Option<String>,
    (),
>)
    requires
        prop_models(tree@) == prop_tree(node.props@),
    ensures
        match r {
            Ok(s) => string_prop(node.prop(name@)) == Ok::<Option<Seq<char>>, ()>(
                enumeration::opt_text(s),
            ),
            Err(_) => string_prop(node.prop(name@)) is Err,
        },
{
    match get_prop(tree, name, node) {
        Some(PropVal::String(v)) => Ok(Some(v.clone())),
        None => Ok(None),
        _ => Err(()),
    }
}

/// Collect the links to the minor nodes by file name.
fn collect_links(links: &[LinkItem]) -> (r: Result<StringMap<String>, Error>)
    ensures
        match r {
            Ok(paths) => link_paths(links@) == Ok::<Map<Seq<char>, Seq<char>>, Seq<char>>(
                enumeration::text_map(paths@),
            ),
            Err(e) => link_paths(links@) matches Err(message) && e.is(
                ErrorKind::Other,
                None,
                message,
            ),
        },
{
    let mut paths: StringMap<String> = StringMap::new();
    let mut i: usize = 0;
    assert(links@.take(0) =~= seq![]);
    assert(enumeration::text_map(paths@) =~= Map::empty());
    while i < links.len()
        invariant
            i <= links@.len(),
            link_paths(links@.take(i as int)) == Ok::<Map<Seq<char>, Seq<char>>, Seq<char>>(
                enumeration::text_map(paths@),
            ),
        decreases links@.len() - i,
    {
        let ghost before = paths@;
        let ghost upto = links@.take(i + 1);
        proof {
            assert(upto.drop_last() =~= links@.take(i as int));
            assert(upto.last() == links@[i as int]);
            assert(upto.is_prefix_of(links@));
            if link_paths(upto) is Err {
                lemma_link_error_stays(links@, i + 1);
            }
        }
        match &links[i] {
            LinkItem::Link { file_name: Some(name), path } => {
                paths.insert(name.clone(), path.clone());
                assert(enumeration::text_map(paths@) =~= enumeration::text_map(before).insert(
                    name@,
                    path@,
                ));
            },
            LinkItem::Link { file_name: None, path: _ } => return Err(other("bad link path")),
            LinkItem::MinorError => return Err(other("transpose err")),
            LinkItem::MinorPathError => return Err(other("devfs path err")),
            LinkItem::LinksError => return Err(other("links for path err")),
        }
        i = i + 1;
    }
    assert(links@.take(i as int) =~= links@);
    Ok(paths)
}

/// What follows the first thing that is wrong with the links changes nothing.
proof fn lemma_link_error_stays(links: Seq<LinkItem>, i: int)
    requires
        0 <= i <= links.len(),
        link_paths(links.take(i)) is Err,
    ensures
        link_paths(links) == link_paths(links.take(i)),
    decreases links.len(),
{
    if i < links.len() {
        assert(links.drop_last().take(i) =~= links.take(i));
        lemma_link_error_stays(links.drop_last(), i);
    } else {
        assert(links.take(i) =~= links);
    }
}

/// Find the string with an index among those that were read.
fn try_get_interface_string(
    has_control: bool,
    strings: &[(u8, Vec<u8>)],
    index: Option<u8>,
) -> (r: Option<String>)
    ensures
        enumeration::opt_text(r) == interface_string(has_control, strings@, index),
{
    let wanted: u8 = match index {
        Some(wanted) => wanted,
        None => return None,
    };
    if !has_control {
        return None;
    }
    let mut i: usize = 0;
    assert(strings@.skip(0) =~= strings@);
    while i < strings.len()
        invariant
            i <= strings@.len(),
            index == Some(wanted),
            string_at(strings@, wanted) == string_at(strings@.skip(i as int), wanted),
            has_control,
        decreases strings@.len() - i,
    {
        assert(strings@.skip(i as int)[0] == strings@[i as int]);
        assert(strings@.skip(i as int).drop_first() =~= strings@.skip(i + 1));
        if strings[i].0 == wanted {
            return descriptors::decode_string_descriptor(strings[i].1.as_slice()).ok();
        }
        i = i + 1;
    }
    None
}

/// Summarise the interfaces of a configuration.
fn config_interfaces(cfg: &[u8], has_control: bool, strings: &[(u8, Vec<u8>)]) -> (r: Vec<
    InterfaceInfo,
>)
    requires
        descriptors::starts_with_config(cfg@),
    ensures
        enumeration::interface_infos(r@) == interfaces_of(cfg@, has_control, strings@),
{
    let total_len: usize = descriptors::read_le16(cfg, 2) as usize;
    let config = vstd::slice::slice_subrange(cfg, 0, total_len);
    assert(config@ =~= cfg@.take(total_len as int));
    let c = Configuration::new(config);
    let groups = c.interfaces();
    let ghost all = descriptors::group_views(groups@);
    let mut interfaces: Vec<InterfaceInfo> = Vec::new();
    let mut i: usize = 0;
    while i < groups.len()
        invariant
            i <= groups@.len(),
            all == descriptors::group_views(groups@),
            interfaces@.len() == i,
            forall|k: int|
                0 <= k < i ==> (#[trigger] interfaces@[k])@ == interface_of_group(
                    all[k],
                    has_control,
                    strings@,
                ),
        decreases groups@.len() - i,
    {
        assert(all[i as int] == groups@[i as int]@);
        let alt = groups[i].first_alt_setting();
        let interface_string = try_get_interface_string(has_control, strings, alt.string_index());
        interfaces.push(
            InterfaceInfo {
                interface_number: groups[i].interface_number(),
                class: alt.class(),
                subclass: alt.subclass(),
                protocol: alt.protocol(),
                interface_string,
            },
        );
        i = i + 1;
    }
    assert(enumeration::interface_infos(interfaces@) =~= interfaces_of(
        cfg@,
        has_control,
        strings@,
    ));
    interfaces
}

/// Whether what was returned for a node is what comes of it.
pub open spec fn is_outcome(r: Result<Option<DeviceInfo>, Error>, v: Visit) -> bool {
    match (r, v) {
        (Ok(None), Visit::Skip) => true,
        (Ok(Some(d)), Visit::Device(m)) => d@ == m,
        (Err(e), Visit::Fail(message)) => e.is(ErrorKind::Other, None, message),
        _ => false,
    }
}

/// A walk through the device tree.
#[derive(Debug)]
pub struct DeviceWalk {
    bus: Option<u8>,
    hubs: Vec<Hub>,
}

impl View for DeviceWalk {
    type V = WalkModel;

    closed spec fn view(&self) -> WalkModel {
        WalkModel { bus: self.bus, hubs: self.hubs@ }
    }
}

impl DeviceWalk {
    /// Begin a walk.
    pub fn new() -> (r: DeviceWalk)
        ensures
            r@ == WalkModel::start(),
    {
        let r = DeviceWalk { bus: None, hubs: Vec::new() };
        assert(r@ =~= WalkModel::start());
        r
    }

    fn leave_hubs(&mut self, depth: u32)
        ensures
            final(self)@ == (WalkModel { hubs: hubs_above(old(self)@.hubs, depth), ..old(self)@ }),
    {
        while self.hubs.len() > 0 && self.hubs[self.hubs.len() - 1].depth >= depth
            invariant
                self.bus == old(self).bus,
                hubs_above(self.hubs@, depth) == hubs_above(old(self).hubs@, depth),
            decreases self.hubs@.len(),
        {
            let ghost before = self.hubs@;
            let _ = self.hubs.pop();
            assert(self.hubs@ =~= before.drop_last());
        }
    }

    fn ports(&self, port: u8) -> (r: Vec<u8>)
        ensures
            r@ == port_chain(self@.hubs, port),
    {
        let mut ports: Vec<u8> = Vec::new();
        let mut i: usize = 0;
        while i < self.hubs.len()
            invariant
                i <= self.hubs@.len(),
                ports@.len() == i,
                forall|k: int| 0 <= k < i ==> ports@[k] == self.hubs@[k].port,
            decreases self.hubs@.len() - i,
        {
            ports.push(self.hubs[i].port);
            i = i + 1;
        }
        ports.push(port);
        assert(ports@ =~= port_chain(self@.hubs, port));
        ports
    }

    fn read_device(
        &self,
        node: &Node,
        tree: &StringMap<PropVal>,
        port: u8,
        path: &String,
        descriptor: &[u8],
    ) -> (r: Result<Option<DeviceInfo>, Error>)
        requires
            prop_models(tree@) == prop_tree(node.props@),
            visit_device(self@.bus, self@.hubs, port, path@, descriptor@, *node) is Device
                ==> node.has_valid_config(),
        ensures
            is_outcome(
                r,
                visit_device(self@.bus, self@.hubs, port, path@, descriptor@, *node),
            ),
    {
        let device_address: u8 = match get_prop(tree, "assigned-address", node) {
            Some(PropVal::Integer(v)) => {
                if *v < 255 {
                    *v as u8
                } else {
                    return Err(other("bad assigned-address"));
                }
            },
            _ => return Err(other("bad assigned-address")),
        };
        let manufacturer_string = match get_string_prop(tree, "usb-vendor-name", node) {
            Ok(Some(v)) => Some(v),
            Ok(None) => return Ok(None),
            Err(_) => return Err(other("bad usb-vendor-name")),
        };
        let product_string = match get_string_prop(tree, "usb-product-name", node) {
            Ok(v) => v,
            Err(_) => return Err(other("bad usb-product-name")),
        };
        let serial_number = match get_string_prop(tree, "usb-serialno", node) {
            Ok(v) => v,
            Err(_) => return Err(other("bad usb-serialno")),
        };
        let busnum: u8 = match self.bus {
            Some(busnum) => busnum,
            None => return Err(other("no root port")),
        };
        let d = match DeviceDescriptor::new(descriptor) {
            Some(d) => d,
            None => return Err(other("bad device descriptor")),
        };
        let device_paths = match collect_links(node.links.as_slice()) {
            Ok(device_paths) => device_paths,
            Err(e) => return Err(e),
        };
        let has_control: bool = device_paths.get("cntrl0").is_some();
        assert(has_control == enumeration::text_map(device_paths@).dom().contains("cntrl0"@));
        let interfaces = match get_prop(tree, "usb-raw-cfg-descriptors", node) {
            Some(PropVal::Bytes(cfg)) => config_interfaces(
                cfg.as_slice(),
                has_control,
                node.strings.as_slice(),
            ),
            _ => return Err(other("bad raw config decriptors")),
        };
        let info = DeviceInfo {
            platform: PlatformInfo::Illumos {
                devfs: DevfsPath { path: path.clone(), device_paths },
                busnum,
            },
            bus_id: text::write_padded(busnum as u64, 10, 3),
            device_address,
            port_chain: self.ports(port),
            vendor_id: d.vendor_id(),
            product_id: d.product_id(),
            device_version: d.device_version(),
            usb_version: d.usb_version(),
            class: d.class(),
            subclass: d.subclass(),
            protocol: d.protocol(),
            speed: None,
            manufacturer_string,
            product_string,
            serial_number,
            interfaces,
        };
        Ok(Some(info))
    }

    /// Visit the next node of the tree: the device that it is, if it is one.
    pub fn visit(&mut self, node: &Node) -> (r: Result<Option<DeviceInfo>, Error>)
        requires
            old(self)@.can_visit(*node),
        ensures
            final(self)@ == old(self)@.visit(*node).0,
            is_outcome(r, old(self)@.visit(*node).1),
            match r {
                Ok(None) => old(self)@.visit(*node).1 == Visit::Skip,
                Ok(Some(d)) => old(self)@.visit(*node).1 == Visit::Device(d@),
                Err(e) => old(self)@.visit(*node).1 == Visit::Fail(e.message@) && e.kind
                    == ErrorKind::Other && e.code is None,
            },
    {
        let tree = build_prop_tree(node.props.as_slice());
        let path = match &node.path {
            Some(path) => path,
            None => return Err(other("devfs path err")),
        };
        if let Some(PropVal::Boolean) = get_prop(&tree, "root-hub", node) {
            let bus: u8 = match self.bus {
                Some(bus) => bus + 1,
                None => 1,
            };
            self.bus = Some(bus);
            self.hubs = Vec::new();
            assert(self@ =~= old(self)@.visit(*node).0);
            return Ok(None);
        }
        let port: u8 = match get_prop(&tree, "reg", node) {
            Some(PropVal::Integer(port)) => *port as u8,
            None => return Ok(None),
            _ => return Err(other("unexpected value in reg")),
        };
        self.leave_hubs(node.depth);
        let is_hub: bool = match &node.driver_name {
            Some(name) => text::same_text(name.as_str(), "hubd"),
            None => false,
        };
        if is_hub {
            // Keep track of the port that the hub is at.
            self.hubs.push(Hub { depth: node.depth, port });
            return Ok(None);
        }
        match get_prop(&tree, "usb-dev-descriptor", node) {
            Some(PropVal::Bytes(b)) => self.read_device(node, &tree, port, path, b.as_slice()),
            _ => Ok(None),
        }
    }
}

/// What is known of each of several devices.
pub open spec fn device_infos(v: Seq<DeviceInfo>) -> Seq<DeviceInfoModel> {
    v.map_values(|d: DeviceInfo| d@)
}

/// List the devices among the nodes of the device tree.
pub fn walk_devices(nodes: &[Node]) -> (r: Result<Vec<DeviceInfo>, Error>)
    requires
        WalkModel::start().can_walk(nodes@),
    ensures
        match r {
            Ok(devices) => WalkModel::start().walk(nodes@) == Ok::<
                Seq<DeviceInfoModel>,
                Seq<char>,
            >(device_infos(devices@)),
            Err(e) => WalkModel::start().walk(nodes@) matches Err(message) && e.is(
                ErrorKind::Other,
                None,
                message,
            ),
        },
        r matches Ok(devices) ==> (WalkModel::start().walk(nodes@) matches Ok(all) && all.len()
            == devices@.len() && forall|i: int|
            0 <= i < devices@.len() ==> (#[trigger] devices@[i])@ == all[i]),
        r matches Err(e) ==> WalkModel::start().walk(nodes@) == Err::<
            Seq<DeviceInfoModel>,
            Seq<char>,
        >(e.message@) && e.kind == ErrorKind::Other && e.code is None,
{
    let mut walk = DeviceWalk::new();
    let mut devices: Vec<DeviceInfo> = Vec::new();
    let mut i: usize = 0;
    let ghost all = WalkModel::start().walk(nodes@);
    assert(nodes@.skip(0) =~= nodes@);
    assert(device_infos(devices@) =~= seq![]);
    while i < nodes.len()
        invariant
            i <= nodes@.len(),
            all == WalkModel::start().walk(nodes@),
            walk@.can_walk(nodes@.skip(i as int)),
            all == match walk@.walk(nodes@.skip(i as int)) {
                Ok(more) => Ok::<Seq<DeviceInfoModel>, Seq<char>>(device_infos(devices@) + more),
                Err(e) => Err(e),
            },
        decreases nodes@.len() - i,
    {
        let ghost left = nodes@.skip(i as int);
        let ghost before = walk@;
        assert(left[0] == nodes@[i as int]);
        assert(left.drop_first() =~= nodes@.skip(i + 1));
        match walk.visit(&nodes[i]) {
            Ok(Some(device)) => {
                let ghost listed = device_infos(devices@);
                devices.push(device);
                assert(device_infos(devices@) =~= listed.push(device@));
                assert(forall|more: Seq<DeviceInfoModel>|
                    #![trigger listed.push(device@) + more]
                    listed.push(device@) + more =~= listed + (seq![device@] + more));
            },
            Ok(None) => {},
            Err(e) => return Err(e),
        }
        i = i + 1;
    }
    assert(device_infos(devices@) + seq![] =~= device_infos(devices@));
    Ok(devices)
}

/// Whether the hubs lie one below the other.
pub open spec fn nested(hubs: Seq<Hub>) -> bool {
    forall|i: int, j: int|
        0 <= i < j < hubs.len() ==> (#[trigger] hubs[i]).depth < (#[trigger] hubs[j]).depth
}

/// At every point of a walk the hubs lie one below the other, and the way to a device goes only
/// through hubs that lie above it.
pub proof fn law_hubs_stay_nested(m: WalkModel, node: Node)
    requires
        nested(m.hubs),
    ensures
        nested(m.visit(node).0.hubs),
        forall|i: int|
            0 <= i < hubs_above(m.hubs, node.depth).len() ==> (#[trigger] hubs_above(
                m.hubs,
                node.depth,
            )[i]).depth < node.depth,
{
    lemma_hubs_above(m.hubs, node.depth);
}

proof fn lemma_hubs_above(hubs: Seq<Hub>, depth: u32)
    requires
        nested(hubs),
    ensures
        nested(hubs_above(hubs, depth)),
        forall|i: int|
            0 <= i < hubs_above(hubs, depth).len() ==> (#[trigger] hubs_above(
                hubs,
                depth,
            )[i]).depth < depth,
    decreases hubs.len(),
{
    if hubs.len() > 0 && hubs.last().depth >= depth {
        lemma_hubs_above(hubs.drop_last(), depth);
    } else {
        assert forall|i: int| 0 <= i < hubs.len() implies (#[trigger] hubs[i]).depth < depth by {
            if i < hubs.len() - 1 {
                assert(hubs[i].depth < hubs[hubs.len() - 1].depth);
            }
        }
    }
}

/// A property that a node has several times has the value that came last, which is an integer if it can
/// be read as one, else bytes, else a string; and one that it has not is not found.
pub proof fn law_last_property_counts(node: Node, name: Seq<char>, i: int)
    requires
        -1 <= i < node.props@.len(),
        i >= 0 ==> node.props@[i].name@ == name,
        forall|j: int| i < j < node.props@.len() ==> (#[trigger] node.props@[j]).name@ != name,
    ensures
        i < 0 ==> node.prop(name) is None,
        i >= 0 ==> {
            let p = node.props@[i];
            &&& p.integer matches Some(v) ==> node.prop(name) == Some(PropModel::Integer(v))
            &&& p.integer is None ==> (p.bytes matches Some(b) ==> node.prop(name) == Some(
                PropModel::Bytes(b@),
            ))
            &&& p.integer is None && p.bytes is None ==> (p.string matches Some(t) ==> node.prop(name)
                == Some(PropModel::String(t@)))
            &&& p.integer is None && p.bytes is None && p.string is None ==> node.prop(name) == Some(
                if p.is_boolean {
                    PropModel::Boolean
                } else {
                    PropModel::Unknown
                },
            )
        },
        node.is_root_hub() <==> node.prop("root-hub"@) == Some(PropModel::Boolean),
{
    lemma_last_property(node.props@, name, i);
}

/// The value of a property is shown as it is.
pub proof fn law_values_are_shown(v: PropVal)
    ensures
        v matches PropVal::String(t) ==> v@ == PropModel::String(t@),
        v matches PropVal::Bytes(b) ==> v@ == PropModel::Bytes(b@),
        v matches PropVal::Integer(i) ==> v@ == PropModel::Integer(i),
        v is Boolean <==> v@ is Boolean,
        v is Unknown <==> v@ is Unknown,
{
}

proof fn lemma_last_property(props: Seq<Property>, name: Seq<char>, i: int)
    requires
        -1 <= i < props.len(),
        i >= 0 ==> props[i].name@ == name,
        forall|j: int| i < j < props.len() ==> (#[trigger] props[j]).name@ != name,
    ensures
        prop_tree(props).dom().contains(name) == (i >= 0),
        i >= 0 ==> prop_tree(props)[name] == prop_value(props[i]),
    decreases props.len(),
{
    if props.len() > 0 && i < props.len() - 1 {
        assert(props[props.len() - 1].name@ != name);
        lemma_last_property(props.drop_last(), name, i);
    }
}

/// What is known of a device is what its node says: the address and the names that are among its
/// properties, the identifiers in its device descriptor, the paths of its links, and the ports of the
/// hubs on the way to it with its own as the last. It is on the bus whose root hub was last.
pub proof fn law_device_has_its_properties(m: WalkModel, node: Node, d: DeviceInfoModel)
    requires
        m.visit(node).1 == Visit::Device(d),
    ensures
        d.platform matches PlatformModel::Illumos { path, device_paths, busnum } && (node.path
            matches Some(p) && path == p@) && m.bus == Some(busnum) && link_paths(node.links@) == Ok::<
            Map<Seq<char>, Seq<char>>,
            Seq<char>,
        >(device_paths) && d.bus_id == text::zero_padded(text::decimal(busnum as nat), 3) && (
        node.prop("usb-raw-cfg-descriptors"@) matches Some(PropModel::Bytes(cfg)) && d.interfaces
            == interfaces_of(cfg, device_paths.dom().contains("cntrl0"@), node.strings@)),
        node.prop("assigned-address"@) matches Some(PropModel::Integer(v)) && v < 255
            && d.device_address == v as u8,
        node.prop("reg"@) matches Some(PropModel::Integer(v)) && d.port_chain.len() == hubs_above(
            m.hubs,
            node.depth,
        ).len() + 1 && d.port_chain.last() == v as u8,
        forall|i: int|
            0 <= i < hubs_above(m.hubs, node.depth).len() ==> #[trigger] d.port_chain[i]
                == hubs_above(m.hubs, node.depth)[i].port,
        node.prop("usb-vendor-name"@) matches Some(PropModel::String(t)) && d.manufacturer_string
            == Some(t),
        node.prop("usb-product-name"@) is None ==> d.product_string is None,
        node.prop("usb-product-name"@) is Some ==> (node.prop("usb-product-name"@) matches Some(
            PropModel::String(t),
        ) && d.product_string == Some(t)),
        node.prop("usb-serialno"@) is None ==> d.serial_number is None,
        node.prop("usb-serialno"@) is Some ==> (node.prop("usb-serialno"@) matches Some(
            PropModel::String(t),
        ) && d.serial_number == Some(t)),
        node.prop("usb-dev-descriptor"@) matches Some(PropModel::Bytes(b)) && b.len() >= 18 && b[0]
            >= 18 && b[1] == 1 && d.usb_version == b[2] + 256 * b[3] && d.class == b[4]
            && d.subclass == b[5] && d.protocol == b[6] && d.vendor_id == b[8] + 256 * b[9]
            && d.product_id == b[10] + 256 * b[11] && d.device_version == b[12] + 256 * b[13],
        d.speed is None,
        node.prop("root-hub"@) != Some(PropModel::Boolean),
        node.driver_name matches Some(name) ==> name@ != "hubd"@,
{
}

/// A node that has a manufacturer's name, and all else that a device has to have, is a device.
pub proof fn law_complete_node_is_device(
    m: WalkModel,
    node: Node,
    vendor: Seq<char>,
    address: i64,
    reg: i64,
    b: Seq<u8>,
    cfg: Seq<u8>,
)
    requires
        m.bus is Some,
        node.path is Some,
        node.prop("root-hub"@) != Some(PropModel::Boolean),
        node.prop("reg"@) == Some(PropModel::Integer(reg)),
        node.driver_name matches Some(name) ==> name@ != "hubd"@,
        node.prop("usb-dev-descriptor"@) == Some(PropModel::Bytes(b)),
        b.len() >= 18 && b[0] >= 18 && b[1] == 1,
        node.prop("assigned-address"@) == Some(PropModel::Integer(address)),
        address < 255,
        node.prop("usb-vendor-name"@) == Some(PropModel::String(vendor)),
        node.prop("usb-product-name"@) is None || node.prop("usb-product-name"@)->0 is String,
        node.prop("usb-serialno"@) is None || node.prop("usb-serialno"@)->0 is String,
        node.prop("usb-raw-cfg-descriptors"@) == Some(PropModel::Bytes(cfg)),
        link_paths(node.links@) is Ok,
    ensures
        m.visit(node).1 is Device,
{
}

/// A node that is not a device is passed over, or is not as it has to be in the way that is said of it
/// first: its place in the tree, then its address, the names, the bus, the descriptor, the links and
/// the configuration.
pub proof fn law_other_nodes_are_passed_over(m: WalkModel, node: Node)
    ensures
        node.path is None ==> m.visit(node) == (m, Visit::Fail("devfs path err"@)),
        node.path is Some && node.prop("root-hub"@) == Some(PropModel::Boolean) ==> m.visit(node).1
            == Visit::Skip,
        node.path is Some && node.prop("root-hub"@) != Some(PropModel::Boolean) ==> {
            &&& node.prop("reg"@) is None ==> m.visit(node) == (m, Visit::Skip)
            &&& node.prop("reg"@) is Some && !(node.prop("reg"@)->0 is Integer) ==> m.visit(node)
                == (m, Visit::Fail("unexpected value in reg"@))
            &&& node.prop("reg"@) is Some && node.prop("reg"@)->0 is Integer ==> {
                let is_hub = node.driver_name is Some && node.driver_name->0@ == "hubd"@;
                let descriptor = node.prop("usb-dev-descriptor"@);
                let address = node.prop("assigned-address"@);
                let vendor = node.prop("usb-vendor-name"@);
                let product = node.prop("usb-product-name"@);
                let serial = node.prop("usb-serialno"@);
                let outcome = m.visit(node).1;
                if is_hub || !(descriptor is Some && descriptor->0 is Bytes) {
                    outcome == Visit::Skip
                } else if !(address is Some && address->0 is Integer && address->0->Integer_0
                    < 255) {
                    outcome == Visit::Fail("bad assigned-address"@)
                } else if vendor is Some && !(vendor->0 is String) {
                    outcome == Visit::Fail("bad usb-vendor-name"@)
                } else if vendor is None {
                    outcome == Visit::Skip
                } else if product is Some && !(product->0 is String) {
                    outcome == Visit::Fail("bad usb-product-name"@)
                } else if serial is Some && !(serial->0 is String) {
                    outcome == Visit::Fail("bad usb-serialno"@)
                } else if m.bus is None {
                    outcome == Visit::Fail("no root port"@)
                } else if descriptor->0->Bytes_0.len() < 18 || descriptor->0->Bytes_0[0] < 18
                    || descriptor->0->Bytes_0[1] != 1 {
                    outcome == Visit::Fail("bad device descriptor"@)
                } else if link_paths(node.links@) is Err {
                    outcome == Visit::Fail(link_paths(node.links@)->Err_0)
                } else {
                    outcome is Device || outcome == Visit::Fail("bad raw config decriptors"@)
                }
            }
        },
{
}

/// A root hub begins the next bus, with no hubs on the way; any other node leaves the hubs that are not
/// above it, and a hub is then the last one on the way, at its own port.
pub proof fn law_walk_keeps_its_place(m: WalkModel, node: Node)
    requires
        node.path is Some,
    ensures
        WalkModel::start().bus is None && WalkModel::start().hubs.len() == 0,
        node.prop("root-hub"@) == Some(PropModel::Boolean) ==> {
            &&& m.visit(node).0.hubs.len() == 0
            &&& m.bus is None ==> m.visit(node).0.bus == Some(1u8)
            &&& m.bus matches Some(n) ==> (n < 255 ==> m.visit(node).0.bus == Some((n + 1) as u8))
        },
        node.prop("root-hub"@) != Some(PropModel::Boolean) ==> m.visit(node).0.bus == m.bus,
        node.prop("root-hub"@) != Some(PropModel::Boolean) ==> (node.prop("reg"@) matches Some(
            PropModel::Integer(reg),
        ) ==> {
            let is_hub = node.driver_name is Some && node.driver_name->0@ == "hubd"@;
            let hubs = m.visit(node).0.hubs;
            &&& !is_hub ==> hubs == hubs_above(m.hubs, node.depth)
            &&& is_hub ==> hubs.len() > 0 && hubs.drop_last() == hubs_above(m.hubs, node.depth)
                && hubs.last().depth == node.depth && hubs.last().port == reg as u8
        }),
{
    let hubs = hubs_above(m.hubs, node.depth);
    assert(forall|h: Hub| #[trigger] hubs.push(h).drop_last() =~= hubs);
}

/// The hubs that a node is below are those up to the last that lies above it.
pub proof fn law_hubs_above_come_first(hubs: Seq<Hub>, depth: u32)
    ensures
        hubs_above(hubs, depth).len() <= hubs.len(),
        forall|i: int|
            0 <= i < hubs_above(hubs, depth).len() ==> #[trigger] hubs_above(hubs, depth)[i]
                == hubs[i],
        forall|i: int|
            hubs_above(hubs, depth).len() <= i < hubs.len() ==> (#[trigger] hubs[i]).depth >= depth,
        hubs_above(hubs, depth).len() > 0 ==> hubs_above(hubs, depth).last().depth < depth,
    decreases hubs.len(),
{
    if hubs.len() > 0 && hubs.last().depth >= depth {
        let before = hubs.drop_last();
        law_hubs_above_come_first(before, depth);
        assert forall|i: int| hubs_above(hubs, depth).len() <= i < hubs.len() implies (
        #[trigger] hubs[i]).depth >= depth by {
            if i < before.len() {
                assert(before[i].depth >= depth);
            }
        }
    }
}

/// The links have their paths by file name, the last one of a name counting; and the first thing that is
/// wrong with them is what is said of them.
pub proof fn law_links_have_their_paths(links: Seq<LinkItem>, link: LinkItem)
    ensures
        link_paths(Seq::empty()) == Ok::<Map<Seq<char>, Seq<char>>, Seq<char>>(Map::empty()),
        link_paths(links) matches Err(e) ==> link_paths(links.push(link)) == Err::<
            Map<Seq<char>, Seq<char>>,
            Seq<char>,
        >(e),
        link_paths(links) matches Ok(paths) ==> link_paths(links.push(link)) == match link {
            LinkItem::Link { file_name: Some(name), path } => Ok::<
                Map<Seq<char>, Seq<char>>,
                Seq<char>,
            >(paths.insert(name@, path@)),
            LinkItem::Link { file_name: None, path } => Err("bad link path"@),
            LinkItem::MinorError => Err("transpose err"@),
            LinkItem::MinorPathError => Err("devfs path err"@),
            LinkItem::LinksError => Err("links for path err"@),
        },
{
    assert(links.push(link).drop_last() =~= links);
}

/// An interface is described by its first alternate setting. It has a string if that names one, there is
/// a control node, and the first descriptor that was read for that index is a whole string descriptor.
pub proof fn law_interfaces_have_their_strings(
    cfg: Seq<u8>,
    has_control: bool,
    strings: Seq<(u8, Vec<u8>)>,
    i: int,
    k: int,
)
    ensures
        ({
            let groups = descriptors::interface_groups(
                descriptors::descriptor_groups(cfg.take(cfg[2] + 256 * cfg[3]), 4, 9),
            );
            let shown = interfaces_of(cfg, has_control, strings);
            &&& shown.len() == groups.len()
            &&& 0 <= i < groups.len() ==> {
                let alt = groups[i].1[0];
                &&& shown[i].interface_number == groups[i].0
                &&& shown[i].class == alt[5] && shown[i].subclass == alt[6] && shown[i].protocol
                    == alt[7]
                &&& !has_control || alt[8] == 0 ==> shown[i].interface_string is None
                &&& (forall|j: int| 0 <= j < strings.len() ==> (#[trigger] strings[j]).0 != alt[8])
                    ==> shown[i].interface_string is None
                &&& has_control && alt[8] != 0 && 0 <= k < strings.len() && strings[k].0 == alt[8]
                    && (forall|j: int| 0 <= j < k ==> (#[trigger] strings[j]).0 != alt[8]) ==> {
                    let raw = strings[k].1@;
                    if raw.len() >= 2 && raw[0] == raw.len() && raw[1] == 3 {
                        shown[i].interface_string == Some(
                            descriptors::utf16_chars(descriptors::string_units(raw)),
                        )
                    } else {
                        shown[i].interface_string is None
                    }
                }
            }
        }),
{
    let groups = descriptors::interface_groups(
        descriptors::descriptor_groups(cfg.take(cfg[2] + 256 * cfg[3]), 4, 9),
    );
    let alt = groups[i].1[0];
    if forall|j: int| 0 <= j < strings.len() ==> (#[trigger] strings[j]).0 != alt[8] {
        lemma_first_string(strings, alt[8], strings.len() as int);
    }
    if 0 <= k < strings.len() && strings[k].0 == alt[8] && (forall|j: int|
        0 <= j < k ==> (#[trigger] strings[j]).0 != alt[8]) {
        lemma_first_string(strings, alt[8], k);
    }
}

proof fn lemma_first_string(strings: Seq<(u8, Vec<u8>)>, index: u8, k: int)
    requires
        0 <= k <= strings.len(),
        k < strings.len() ==> strings[k].0 == index,
        forall|j: int| 0 <= j < k ==> (#[trigger] strings[j]).0 != index,
    ensures
        string_at(strings, index) == if k < strings.len() {
            Some(strings[k].1@)
        } else {
            None
        },
    decreases strings.len(),
{
    if k > 0 {
        let rest = strings.drop_first();
        assert(strings[0].0 != index);
        assert forall|j: int| 0 <= j < k - 1 implies (#[trigger] rest[j]).0 != index by {
            assert(rest[j] == strings[j + 1]);
        }
        lemma_first_string(rest, index, k - 1);
    }
}

/// The devices are listed in the order of their nodes, up to the first node that is not as it has to be:
/// then there are none, but what is said of that node.
pub proof fn law_devices_are_in_order(m: WalkModel, node: Node, rest: Seq<Node>)
    ensures
        m.walk(Seq::empty()) == Ok::<Seq<DeviceInfoModel>, Seq<char>>(Seq::empty()),
        m.visit(node).1 matches Visit::Fail(e) ==> m.walk(seq![node] + rest) == Err::<
            Seq<DeviceInfoModel>,
            Seq<char>,
        >(e),
        m.visit(node).1 == Visit::Skip ==> m.walk(seq![node] + rest) == m.visit(node).0.walk(rest),
        m.visit(node).1 matches Visit::Device(d) ==> match m.visit(node).0.walk(rest) {
            Ok(more) => m.walk(seq![node] + rest) == Ok::<Seq<DeviceInfoModel>, Seq<char>>(
                seq![d] + more,
            ),
            Err(e) => m.walk(seq![node] + rest) == Err::<Seq<DeviceInfoModel>, Seq<char>>(e),
        },
        m.can_visit(node) <==> !(node.path is Some && node.prop("root-hub"@) == Some(
            PropModel::Boolean,
        ) && m.bus == Some(255u8)) && (m.visit(node).1 is Device ==> (node.prop(
            "usb-raw-cfg-descriptors"@,
        ) matches Some(PropModel::Bytes(b)) ==> b.len() >= 9 && b[0] >= 9 && b[1] == 2 && b[0]
            <= b[2] + 256 * b[3] <= b.len())),
        m.can_walk(Seq::empty()),
        m.can_walk(seq![node] + rest) <==> m.can_visit(node) && (m.visit(node).1 is Fail || m.visit(
            node,
        ).0.can_walk(rest)),
{
    assert((seq![node] + rest).drop_first() =~= rest);
}

/// Each root hub is a bus, with the next number as its ID and the driver of the root hub.
pub proof fn law_root_hubs_are_buses(node: Node, rest: Seq<Node>, number: nat)
    ensures
        buses_of(Seq::empty(), number).len() == 0,
        node.prop("root-hub"@) != Some(PropModel::Boolean) ==> buses_of(seq![node] + rest, number)
            == buses_of(rest, number),
        node.prop("root-hub"@) == Some(PropModel::Boolean) ==> {
            let buses = buses_of(seq![node] + rest, number);
            &&& buses.len() > 0 && buses.drop_first() == buses_of(rest, number + 1)
            &&& buses[0].platform == PlatformBusModel::Illumos
            &&& node.driver_name is None ==> buses[0].driver is None
            &&& node.driver_name matches Some(name) ==> buses[0].driver == Some(name@)
            &&& buses[0].bus_id == text::zero_padded(text::decimal(number), 3)
            &&& buses[0].controller_type == enumeration::controller_type_of(buses[0].driver)
        },
{
    assert((seq![node] + rest).drop_first() =~= rest);
    let buses = buses_of(seq![node] + rest, number);
    assert(node.is_root_hub() ==> buses.drop_first() =~= buses_of(rest, number + 1));
}

/// The bus with this number whose root hub has this driver.
pub open spec fn bus_of(driver: Option<Seq<char>>, number: nat) -> BusInfoModel {
    BusInfoModel {
        platform: PlatformBusModel::Illumos,
        driver,
        bus_id: text::zero_padded(text::decimal(number), 3),
        controller_type: enumeration::controller_type_of(driver),
    }
}

/// The buses of the root hubs among `nodes`, numbered from `number` on.
pub open spec fn buses_of(nodes: Seq<Node>, number: nat) -> Seq<BusInfoModel>
    decreases nodes.len(),
{
    if nodes.len() == 0 {
        seq![]
    } else if nodes[0].is_root_hub() {
        seq![bus_of(enumeration::opt_text(nodes[0].driver_name), number)] + buses_of(
            nodes.drop_first(),
            number + 1,
        )
    } else {
        buses_of(nodes.drop_first(), number)
    }
}

/// The number of root hubs among `nodes`.
pub open spec fn root_hubs(nodes: Seq<Node>) -> nat
    decreases nodes.len(),
{
    if nodes.len() == 0 {
        0
    } else if nodes[0].is_root_hub() {
        1 + root_hubs(nodes.drop_first())
    } else {
        root_hubs(nodes.drop_first())
    }
}

/// Whether a device is what comes of node `i`.
pub open spec fn is_device_at(d: DeviceInfoModel, nodes: Seq<Node>, i: int) -> bool {
    &&& 0 <= i < nodes.len()
    &&& WalkModel::start().after(nodes.take(i)).visit(nodes[i]).1 == Visit::Device(d)
}

/// Whether a device is what comes of some node.
pub open spec fn is_device_among(d: DeviceInfoModel, nodes: Seq<Node>) -> bool {
    exists|i: int| is_device_at(d, nodes, i)
}

/// Devices can be grouped by bus: every device that is listed comes of some node, and a device has
/// the ID of the bus of the root hub that was last before its node. That bus is listed at the place
/// that the root hub has among the root hubs.
pub proof fn law_devices_are_on_listed_buses(nodes: Seq<Node>, devices: Seq<DeviceInfoModel>)
    requires
        WalkModel::start().can_walk(nodes),
        WalkModel::start().walk(nodes) == Ok::<Seq<DeviceInfoModel>, Seq<char>>(devices),
    ensures
        forall|k: int| 0 <= k < devices.len() ==> is_device_among(#[trigger] devices[k], nodes),
        forall|d: DeviceInfoModel, i: int| #[trigger]
            is_device_at(d, nodes, i) ==> {
                &&& 1 <= root_hubs(nodes.take(i)) <= buses_of(nodes, 1).len()
                &&& d.bus_id == buses_of(nodes, 1)[root_hubs(nodes.take(i)) - 1].bus_id
            },
{
    assert forall|k: int| 0 <= k < devices.len() implies is_device_among(
        #[trigger] devices[k],
        nodes,
    ) by {
        let i = lemma_device_at(WalkModel::start(), nodes, k);
        assert(is_device_at(devices[k], nodes, i));
    }
    assert forall|d: DeviceInfoModel, i: int| #[trigger] is_device_at(d, nodes, i) implies {
        &&& 1 <= root_hubs(nodes.take(i)) <= buses_of(nodes, 1).len()
        &&& d.bus_id == buses_of(nodes, 1)[root_hubs(nodes.take(i)) - 1].bus_id
    } by {
        lemma_bus_is_counted(WalkModel::start(), nodes, i);
        lemma_nth_bus(nodes, 1, i);
    }
}

/// The node that a device comes of.
proof fn lemma_device_at(m: WalkModel, nodes: Seq<Node>, k: int) -> (i: int)
    requires
        m.can_walk(nodes),
        m.walk(nodes) is Ok,
        0 <= k < m.walk(nodes)->Ok_0.len(),
    ensures
        0 <= i < nodes.len(),
        m.after(nodes.take(i)).visit(nodes[i]).1 == Visit::Device(m.walk(nodes)->Ok_0[k]),
    decreases nodes.len(),
{
    let (next, outcome) = m.visit(nodes[0]);
    let rest = nodes.drop_first();
    if outcome is Device && k == 0 {
        assert(nodes.take(0) =~= seq![]);
        0
    } else {
        let j = lemma_device_at(
            next,
            rest,
            if outcome is Device {
                k - 1
            } else {
                k
            },
        );
        assert(nodes.take(j + 1).drop_first() =~= rest.take(j));
        j + 1
    }
}

/// The number of the bus is how many root hubs there were.
proof fn lemma_bus_is_counted(m: WalkModel, nodes: Seq<Node>, i: int)
    requires
        m.can_walk(nodes),
        m.walk(nodes) is Ok,
        0 <= i <= nodes.len(),
        m.bus != Some(0u8),
    ensures
        m.after(nodes.take(i)).bus == {
            let before = match m.bus {
                Some(bus) => bus as nat,
                None => 0,
            };
            if before + root_hubs(nodes.take(i)) == 0 {
                None
            } else {
                Some((before + root_hubs(nodes.take(i))) as u8)
            }
        },
        ({
            let before = match m.bus {
                Some(bus) => bus as nat,
                None => 0,
            };
            before + root_hubs(nodes.take(i)) <= 255
        }),
    decreases nodes.len(),
{
    if i > 0 {
        assert(nodes.take(i).drop_first() =~= nodes.drop_first().take(i - 1));
        lemma_bus_is_counted(m.visit(nodes[0]).0, nodes.drop_first(), i - 1);
    }
}

/// The bus of the root hub that is last before node `i`.
proof fn lemma_nth_bus(nodes: Seq<Node>, number: nat, i: int)
    requires
        0 <= i <= nodes.len(),
    ensures
        root_hubs(nodes.take(i)) <= buses_of(nodes, number).len(),
        root_hubs(nodes.take(i)) > 0 ==> buses_of(nodes, number)[root_hubs(nodes.take(i))
            - 1].bus_id == text::zero_padded(
            text::decimal((number + root_hubs(nodes.take(i)) - 1) as nat),
            3,
        ),
    decreases nodes.len(),
{
    if i > 0 {
        let rest = nodes.drop_first();
        assert(nodes.take(i).drop_first() =~= rest.take(i - 1));
        if nodes[0].is_root_hub() {
            lemma_nth_bus(rest, number + 1, i - 1);
        } else {
            lemma_nth_bus(rest, number, i - 1);
        }
    }
}

/// List the buses among the nodes of the device tree, numbered from 1 on.
pub fn walk_buses(nodes: &[Node]) -> (r: Vec<BusInfo>)
    requires
        buses_of(nodes@, 1).len() < i32::MAX,
    ensures
        enumeration::bus_infos(r@) == buses_of(nodes@, 1),
        r@.len() == buses_of(nodes@, 1).len(),
        forall|i: int| 0 <= i < r@.len() ==> (#[trigger] r@[i])@ == buses_of(nodes@, 1)[i],
{
    let mut bus: u32 = 1;
    let mut buses: Vec<BusInfo> = Vec::new();
    let mut i: usize = 0;
    assert(nodes@.skip(0) =~= nodes@);
    assert(enumeration::bus_infos(buses@) =~= seq![]);
    while i < nodes.len()
        invariant
            i <= nodes@.len(),
            buses_of(nodes@, 1).len() < i32::MAX,
            bus == buses@.len() + 1,
            enumeration::bus_infos(buses@) + buses_of(nodes@.skip(i as int), bus as nat)
                == buses_of(nodes@, 1),
        decreases nodes@.len() - i,
    {
        let node = &nodes[i];
        let ghost left = nodes@.skip(i as int);
        assert(left[0] == nodes@[i as int]);
        assert(left.drop_first() =~= nodes@.skip(i + 1));
        let tree = build_prop_tree(node.props.as_slice());
        if let Some(PropVal::Boolean) = get_prop(&tree, "root-hub", node) {
            let ghost listed = enumeration::bus_infos(buses@);
            let info = BusInfo {
                platform: PlatformBusInfo::Illumos,
                driver: node.driver_name.clone(),
                bus_id: text::write_padded(bus as u64, 10, 3),
                controller_type: enumeration::find_controller_type(&node.driver_name),
            };
            buses.push(info);
            bus = bus + 1;
            proof {
                assert(info@ =~= bus_of(
                    enumeration::opt_text(node.driver_name),
                    (bus - 1) as nat,
                ));
                assert(enumeration::bus_infos(buses@) =~= listed.push(info@));
                assert(listed.push(info@) + buses_of(left.drop_first(), bus as nat) =~= listed + (
                seq![info@] + buses_of(left.drop_first(), bus as nat)));
            }
        }
        i = i + 1;
    }
    assert(enumeration::bus_infos(buses@) + seq![] =~= enumeration::bus_infos(buses@));
    buses
}

} // verus!
