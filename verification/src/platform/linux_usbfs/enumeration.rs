//! Finding devices and buses in sysfs.

use vstd::prelude::*;

use crate::enumeration::{
    self, BusInfo, BusInfoModel, DeviceInfo, DeviceInfoModel, InterfaceInfo, InterfaceInfoModel,
    PlatformBusInfo, PlatformBusModel, PlatformInfo, PlatformModel, Speed,
};
use crate::error::{Error, ErrorKind, IoErrorKind};
use crate::text;

pub use crate::enumeration::SysfsPath;

verus! {

/// What reading an attribute came to: its content, or a description of why it could not be read.
pub type Attr = Result<String, String>;

/// Why an attribute could not be used.
#[derive(Debug)]
pub enum SysfsErrorKind {
    /// It could not be read, for the reason described.
    Io(String),
    /// Its content is not what it has to be.
    Parse(String),
}

/// An attribute that could not be used, with its path.
#[derive(Debug)]
pub struct SysfsError(pub String, pub SysfsErrorKind);

/// [`SysfsError`] with its texts as sequences.
#[verifier::ext_equal]
pub enum SysfsFailure {
    Io { path: Seq<char>, reason: Seq<char> },
    Parse { path: Seq<char>, content: Seq<char> },
}

impl View for SysfsError {
    type V = SysfsFailure;

    open spec fn view(&self) -> SysfsFailure {
        match self.1 {
            SysfsErrorKind::Io(reason) => SysfsFailure::Io { path: self.0@, reason: reason@ },
            SysfsErrorKind::Parse(content) => SysfsFailure::Parse {
                path: self.0@,
                content: content@,
            },
        }
    }
}

/// How an error is described: what comes first, and the value that follows it in quotes, if any.
#[derive(Debug)]
pub struct SysfsMessage {
    pub head: String,
    pub quoted: Option<String>,
}

impl SysfsError {
    /// Describe the error.
    pub fn message(&self) -> (r: SysfsMessage)
        ensures
            match self@ {
                SysfsFailure::Io { path, reason } => r.head@
                    == "failed to read sysfs attribute "@ + path + ": "@ + reason
                    && r.quoted is None,
                SysfsFailure::Parse { path, content } => r.head@
                    == "failed to read sysfs attribute "@ + path + ": "@ + "couldn't parse value "@
                    && enumeration::opt_text(r.quoted) == Some(text::trimmed(content)),
            },
    {
        let mut head = String::from_str("failed to read sysfs attribute ");
        head.append(self.0.as_str());
        head.append(": ");
        match &self.1 {
            SysfsErrorKind::Io(reason) => {
                head.append(reason.as_str());
                SysfsMessage { head, quoted: None }
            },
            SysfsErrorKind::Parse(content) => {
                head.append("couldn't parse value ");
                let chars = text::chars_of(content.as_str());
                let value = text::string_of(text::trim(chars.as_slice()));
                SysfsMessage { head, quoted: Some(value) }
            },
        }
    }
}

/// The path of an entry of a directory.
pub open spec fn joined(dir: Seq<char>, name: Seq<char>) -> Seq<char> {
    if dir.len() == 0 || dir.last() == '/' {
        dir + name
    } else {
        dir + "/"@ + name
    }
}

fn join(dir: &str, name: &str) -> (r: String)
    ensures
        r@ == joined(dir@, name@),
{
    let chars = text::chars_of(dir);
    let mut out = String::from_str(dir);
    if chars.len() > 0 && chars[chars.len() - 1] != '/' {
        out.append("/");
    }
    out.append(name);
    out
}

/// A text without `0x` in front of it.
pub open spec fn without_0x(s: Seq<char>) -> Seq<char> {
    if s.len() >= 2 && s[0] == '0' && s[1] == 'x' {
        s.skip(2)
    } else {
        s
    }
}

/// The decimal number up to `max` that is the content of an attribute.
pub open spec fn decimal_content(content: Seq<char>, max: nat) -> Option<nat> {
    text::unsigned_value(text::trimmed(content), 10, max)
}

/// The hexadecimal number up to `max`, with or without `0x`, that is the content of an attribute.
pub open spec fn hex_content(content: Seq<char>, max: nat) -> Option<nat> {
    text::unsigned_value(without_0x(text::trimmed(content)), 16, max)
}

/// The number that the bytes of a version stand for, given as hexadecimal numbers, the first one
/// highest.
pub open spec fn version_of_parts(parts: Seq<Seq<char>>) -> Option<u16>
    decreases parts.len(),
{
    if parts.len() == 0 {
        Some(0)
    } else {
        match (
            version_of_parts(parts.drop_last()),
            text::unsigned_value(parts.last(), 16, 0xffff),
        ) {
            (Some(high), Some(low)) => Some((high << 8) | (low as u16)),
            _ => None,
        }
    }
}

/// The version that is the content of an attribute: `bcdUSB` as `%2x.%02x`.
pub open spec fn version_content(content: Seq<char>) -> Option<u16> {
    version_of_parts(text::parts(text::trimmed(content), '.'))
}

/// A version that is written as two hexadecimal numbers with a dot between them is read back as
/// what it was, with the first number in the high byte.
pub proof fn law_version_reads_back(high: Seq<char>, low: Seq<char>, content: Seq<char>)
    requires
        !high.contains('.'),
        !low.contains('.'),
        text::unsigned_value(high, 16, 0xff) is Some,
        text::unsigned_value(low, 16, 0xff) is Some,
        text::trimmed(content) == high.push('.') + low,
    ensures
        version_content(content) == Some(
            (256 * text::unsigned_value(high, 16, 0xff)->0 + text::unsigned_value(
                low,
                16,
                0xff,
            )->0) as u16,
        ),
{
    let h = text::unsigned_value(high, 16, 0xff)->0 as u16;
    let l = text::unsigned_value(low, 16, 0xff)->0 as u16;
    text::lemma_one_part(high, '.');
    text::lemma_one_more_part(high, '.', low);
    let parts = text::parts(text::trimmed(content), '.');
    assert(parts =~= seq![high, low]);
    assert(parts.drop_last() =~= seq![high]);
    assert(seq![high].drop_last() =~= seq![]);
    assert(version_of_parts(seq![]) == Some(0u16));
    assert(version_of_parts(seq![high]) == Some((0u16 << 8) | h));
    assert((0u16 << 8) | h == h && (h << 8) | l == 256 * h + l) by (bit_vector)
        requires
            h <= 0xff,
            l <= 0xff,
    ;
}

/// A version is hexadecimal numbers with dots between them: one more behind a dot moves those before it
/// up by a byte. What is no number between dots makes it no version.
pub proof fn law_versions_go_by_bytes(
    first: Seq<char>,
    longer: Seq<char>,
    path: Seq<char>,
    digits: Seq<char>,
)
    requires
        !digits.contains('.'),
    ensures
        text::trimmed(first) == digits ==> match text::unsigned_value(digits, 16, 0xffff) {
            Some(v) => version_content(first) == Some(v as u16),
            None => version_content(first) is None,
        },
        text::trimmed(first) == path && text::trimmed(longer) == path.push('.') + digits ==> match (
            version_content(first),
            text::unsigned_value(digits, 16, 0xffff),
        ) {
            (Some(high), Some(low)) => version_content(longer) == Some((high << 8) | (low as u16)),
            _ => version_content(longer) is None,
        },
{
    text::law_separators_make_parts(path, '.', digits);
    assert(seq![digits].drop_last() =~= Seq::<Seq<char>>::empty());
    assert(version_of_parts(Seq::empty()) == Some(0u16));
    if let Some(v) = text::unsigned_value(digits, 16, 0xffff) {
        let low = v as u16;
        assert((0u16 << 8) | low == low) by (bit_vector);
        assert(version_of_parts(seq![digits]) == Some((0u16 << 8) | low));
    }
    let parts = text::parts(path, '.');
    assert(parts.push(digits).drop_last() =~= parts);
}

/// What an attribute has to be, or why it is not: `value` is what its content stands for.
pub open spec fn read_as<T>(
    dir: Seq<char>,
    name: Seq<char>,
    attr: Attr,
    value: Option<T>,
) -> Result<T, SysfsFailure> {
    match attr {
        Ok(content) => match value {
            Some(v) => Ok(v),
            None => Err(SysfsFailure::Parse { path: joined(dir, name), content: content@ }),
        },
        Err(reason) => Err(SysfsFailure::Io { path: joined(dir, name), reason: reason@ }),
    }
}

/// The content of an attribute, or nothing if it could not be read.
pub open spec fn content_of(attr: Attr) -> Seq<char> {
    match attr {
        Ok(content) => content@,
        Err(_) => seq![],
    }
}

/// The text of an attribute, if it could be read.
pub open spec fn text_of(attr: Attr) -> Option<Seq<char>> {
    match attr {
        Ok(content) => Some(text::trimmed(content@)),
        Err(_) => None,
    }
}

fn fail(dir: &str, name: &str, attr: &Attr) -> (r: SysfsError)
    ensures
        r@ == match *attr {
            Ok(content) => SysfsFailure::Parse { path: joined(dir@, name@), content: content@ },
            Err(reason) => SysfsFailure::Io { path: joined(dir@, name@), reason: reason@ },
        },
{
    let path = join(dir, name);
    match attr {
        Ok(content) => SysfsError(path, SysfsErrorKind::Parse(content.clone())),
        Err(reason) => SysfsError(path, SysfsErrorKind::Io(reason.clone())),
    }
}

fn read_attr(dir: &str, name: &str, attr: &Attr) -> (r: Result<u8, SysfsError>)
    ensures
        match (r, read_as(dir@, name@, *attr, decimal_content(content_of(*attr), 255))) {
            (Ok(a), Ok(b)) => a == b,
            (Err(a), Err(b)) => a@ == b,
            _ => false,
        },
{
    if let Ok(content) = attr {
        let chars = text::chars_of(content.as_str());
        if let Some(v) = text::parse_unsigned(text::trim(chars.as_slice()), 10, 255) {
            return Ok(v as u8);
        }
    }
    Err(fail(dir, name, attr))
}

fn parse_hex(content: &String, max: u32) -> (r: Option<u32>)
    ensures
        r is Some <==> hex_content(content@, max as nat) is Some,
        r matches Some(v) ==> hex_content(content@, max as nat) == Some(v as nat) && v <= max,
{
    let chars = text::chars_of(content.as_str());
    let s = text::trim(chars.as_slice());
    if s.len() >= 2 && s[0] == '0' && s[1] == 'x' {
        let rest = vstd::slice::slice_subrange(s, 2, s.len());
        assert(rest@ =~= s@.skip(2));
        text::parse_unsigned(rest, 16, max)
    } else {
        text::parse_unsigned(s, 16, max)
    }
}

fn read_attr_hex(dir: &str, name: &str, attr: &Attr, max: u32) -> (r: Result<u32, SysfsError>)
    ensures
        match (r, read_as(dir@, name@, *attr, hex_content(content_of(*attr), max as nat))) {
            (Ok(a), Ok(b)) => a == b && a <= max,
            (Err(a), Err(b)) => a@ == b,
            _ => false,
        },
{
    if let Ok(content) = attr {
        if let Some(v) = parse_hex(content, max) {
            return Ok(v);
        }
    }
    Err(fail(dir, name, attr))
}

fn parse_version(content: &String) -> (r: Option<u16>)
    ensures
        r == version_content(content@),
{
    let chars = text::chars_of(content.as_str());
    let parts = text::split(text::trim(chars.as_slice()), '.');
    let ghost all = text::views(parts@);
    let mut version: u16 = 0;
    let mut i: usize = 0;
    assert(all.take(0) =~= seq![]);
    while i < parts.len()
        invariant
            i <= parts@.len(),
            all == text::views(parts@),
            all == text::parts(text::trimmed(content@), '.'),
            version_of_parts(all.take(i as int)) == Some(version),
        decreases parts@.len() - i,
    {
        let ghost upto = all.take(i + 1);
        assert(upto.drop_last() =~= all.take(i as int));
        assert(upto.last() == parts@[i as int]@);
        match text::parse_unsigned(parts[i].as_slice(), 16, 0xffff) {
            Some(low) => {
                version = (version << 8) | (low as u16);
            },
            None => {
                proof {
                    lemma_version_fails(all, i + 1);
                }
                return None;
            },
        }
        i = i + 1;
    }
    assert(all.take(i as int) =~= all);
    Some(version)
}

proof fn lemma_version_fails(parts: Seq<Seq<char>>, i: int)
    requires
        0 <= i <= parts.len(),
        version_of_parts(parts.take(i)) is None,
    ensures
        version_of_parts(parts) is None,
    decreases parts.len(),
{
    if i < parts.len() {
        assert(parts.drop_last().take(i) =~= parts.take(i));
        lemma_version_fails(parts.drop_last(), i);
    } else {
        assert(parts.take(i) =~= parts);
    }
}

fn read_version(dir: &str, name: &str, attr: &Attr) -> (r: Result<u16, SysfsError>)
    ensures
        match (r, read_as(dir@, name@, *attr, version_content(content_of(*attr)))) {
            (Ok(a), Ok(b)) => a == b,
            (Err(a), Err(b)) => a@ == b,
            _ => false,
        },
{
    if let Ok(content) = attr {
        if let Some(v) = parse_version(content) {
            return Ok(v);
        }
    }
    Err(fail(dir, name, attr))
}

fn read_text(attr: &Attr) -> (r: Option<String>)
    ensures
        enumeration::opt_text(r) == text_of(*attr),
{
    match attr {
        Ok(content) => {
            let chars = text::chars_of(content.as_str());
            Some(text::string_of(text::trim(chars.as_slice())))
        },
        Err(_) => None,
    }
}

/// The attributes of an interface of a device, by the name of its directory.
#[derive(Debug)]
pub struct InterfaceAttrs {
    pub name: String,
    pub interface_number: Attr,
    pub interface_class: Attr,
    pub interface_subclass: Attr,
    pub interface_protocol: Attr,
    pub interface: Attr,
}

/// The attributes of a device, and the directories in its own.
#[derive(Debug)]
pub struct DeviceAttrs {
    pub busnum: Attr,
    pub devnum: Attr,
    pub devpath: Attr,
    pub id_vendor: Attr,
    pub id_product: Attr,
    pub bcd_device: Attr,
    pub version: Attr,
    pub device_class: Attr,
    pub device_subclass: Attr,
    pub device_protocol: Attr,
    pub speed: Attr,
    pub manufacturer: Attr,
    pub product: Attr,
    pub serial: Attr,
    pub children: Vec<InterfaceAttrs>,
}

/// The numbers that the parts of a text are, if each is one.
pub open spec fn numbers_of(parts: Seq<Seq<char>>) -> Option<Seq<u8>>
    decreases parts.len(),
{
    if parts.len() == 0 {
        Some(seq![])
    } else {
        match (numbers_of(parts.drop_last()), text::unsigned_value(parts.last(), 10, 255)) {
            (Some(before), Some(n)) => Some(before.push(n as u8)),
            _ => None,
        }
    }
}

/// The port chain in `devpath`: the numbers between the dots. A root hub has none, though its
/// `devpath` is 0.
pub open spec fn port_chain_of(devpath: Attr) -> Seq<u8> {
    match text_of(devpath) {
        Some(path) => if path == "0"@ {
            seq![]
        } else {
            match numbers_of(text::parts(path, '.')) {
                Some(ports) => ports,
                None => seq![],
            }
        },
        None => seq![],
    }
}

fn read_port_chain(devpath: &Attr) -> (r: Vec<u8>)
    ensures
        r@ == port_chain_of(*devpath),
{
    let content = match devpath {
        Ok(content) => content,
        Err(_) => return Vec::new(),
    };
    let chars = text::chars_of(content.as_str());
    let path = text::trim(chars.as_slice());
    if text::is_word(path, "0") {
        return Vec::new();
    }
    let parts = text::split(path, '.');
    let ghost all = text::views(parts@);
    let mut ports: Vec<u8> = Vec::new();
    let mut i: usize = 0;
    assert(all.take(0) =~= seq![]);
    while i < parts.len()
        invariant
            i <= parts@.len(),
            all == text::views(parts@),
            all == text::parts(path@, '.'),
            Some(path@) == text_of(*devpath),
            path@ != "0"@,
            numbers_of(all.take(i as int)) == Some(ports@),
        decreases parts@.len() - i,
    {
        let ghost upto = all.take(i + 1);
        assert(upto.drop_last() =~= all.take(i as int));
        assert(upto.last() == parts@[i as int]@);
        match text::parse_unsigned(parts[i].as_slice(), 10, 255) {
            Some(n) => ports.push(n as u8),
            None => {
                proof {
                    lemma_numbers_fail(all, i + 1);
                }
                return Vec::new();
            },
        }
        i = i + 1;
    }
    assert(all.take(i as int) =~= all);
    ports
}

proof fn lemma_numbers_fail(parts: Seq<Seq<char>>, i: int)
    requires
        0 <= i <= parts.len(),
        numbers_of(parts.take(i)) is None,
    ensures
        numbers_of(parts) is None,
    decreases parts.len(),
{
    if i < parts.len() {
        assert(parts.drop_last().take(i) =~= parts.take(i));
        lemma_numbers_fail(parts.drop_last(), i);
    } else {
        assert(parts.take(i) =~= parts);
    }
}

/// A byte that is the content of an attribute, in hexadecimal.
pub open spec fn hex_byte(attr: Attr) -> Option<u8> {
    match attr {
        Ok(content) => match hex_content(content@, 255) {
            Some(v) => Some(v as u8),
            None => None,
        },
        Err(_) => None,
    }
}

/// The interface that a directory stands for, if it is one: there is a `:` in its name, and the
/// attributes that every interface has can be read.
pub open spec fn interface_in(a: InterfaceAttrs) -> Option<InterfaceInfoModel> {
    let number = hex_byte(a.interface_number);
    let class = hex_byte(a.interface_class);
    let subclass = hex_byte(a.interface_subclass);
    let protocol = hex_byte(a.interface_protocol);
    if a.name@.contains(':') && number is Some && class is Some && subclass is Some && protocol
        is Some {
        Some(
            InterfaceInfoModel {
                interface_number: number->0,
                class: class->0,
                subclass: subclass->0,
                protocol: protocol->0,
                interface_string: text_of(a.interface),
            },
        )
    } else {
        None
    }
}

/// The interfaces among the directories of a device.
pub open spec fn interfaces_in(children: Seq<InterfaceAttrs>) -> Seq<InterfaceInfoModel>
    decreases children.len(),
{
    if children.len() == 0 {
        seq![]
    } else {
        match interface_in(children.last()) {
            Some(i) => interfaces_in(children.drop_last()).push(i),
            None => interfaces_in(children.drop_last()),
        }
    }
}

/// Whether interfaces are in the order of their numbers.
pub open spec fn by_number(interfaces: Seq<InterfaceInfoModel>) -> bool {
    forall|i: int, j: int|
        0 <= i < j < interfaces.len() ==> (#[trigger] interfaces[i]).interface_number <= (
        #[trigger] interfaces[j]).interface_number
}

/// Interfaces are in order if none comes before one with a lower number.
pub proof fn law_order_is_by_number(interfaces: Seq<InterfaceInfoModel>)
    ensures
        by_number(interfaces) <==> forall|i: int, j: int|
            0 <= i < j < interfaces.len() ==> (#[trigger] interfaces[i]).interface_number <= (
            #[trigger] interfaces[j]).interface_number,
{
}

fn read_hex_byte(attr: &Attr) -> (r: Option<u8>)
    ensures
        r == hex_byte(*attr),
{
    match attr {
        Ok(content) => match parse_hex(content, 255) {
            Some(v) => Some(v as u8),
            None => None,
        },
        Err(_) => None,
    }
}

/// Whether a character occurs in a text.
fn has_char(s: &str, c: char) -> (r: bool)
    ensures
        r == s@.contains(c),
{
    let chars = text::chars_of(s);
    let mut i: usize = 0;
    while i < chars.len()
        invariant
            i <= chars@.len(),
            chars@ == s@,
            forall|k: int| 0 <= k < i ==> s@[k] != c,
        decreases chars@.len() - i,
    {
        if chars[i] == c {
            return true;
        }
        i = i + 1;
    }
    false
}

fn read_interface(a: &InterfaceAttrs) -> (r: Option<InterfaceInfo>)
    ensures
        match r {
            Some(i) => interface_in(*a) == Some(i@),
            None => interface_in(*a) is None,
        },
{
    // Skip subdirectories like `power` that aren't interfaces
    if !has_char(a.name.as_str(), ':') {
        return None;
    }
    match (
        read_hex_byte(&a.interface_number),
        read_hex_byte(&a.interface_class),
        read_hex_byte(&a.interface_subclass),
        read_hex_byte(&a.interface_protocol),
    ) {
        (Some(interface_number), Some(class), Some(subclass), Some(protocol)) => Some(
            InterfaceInfo {
                interface_number,
                class,
                subclass,
                protocol,
                interface_string: read_text(&a.interface),
            },
        ),
        _ => None,
    }
}

/// Add an interface where it keeps the order of the numbers, behind those of its own number.
pub(crate) fn insert_by_number(interfaces: &mut Vec<InterfaceInfo>, interface: InterfaceInfo)
    requires
        by_number(enumeration::interface_infos(old(interfaces)@)),
    ensures
        by_number(enumeration::interface_infos(final(interfaces)@)),
        enumeration::interface_infos(final(interfaces)@).to_multiset()
            == enumeration::interface_infos(old(interfaces)@).to_multiset().insert(interface@),
        final(interfaces)@.len() == old(interfaces)@.len() + 1,
{
    let ghost before = enumeration::interface_infos(interfaces@);
    let number: u8 = interface.interface_number;
    let mut at: usize = interfaces.len();
    while at > 0 && interfaces[at - 1].interface_number > number
        invariant
            at <= interfaces@.len(),
            before == enumeration::interface_infos(interfaces@),
            *interfaces == *old(interfaces),
            forall|k: int|
                at <= k < before.len() ==> (#[trigger] before[k]).interface_number > number,
        decreases at,
    {
        assert(before[at - 1] == interfaces@[at - 1]@);
        at = at - 1;
    }
    interfaces.insert(at, interface);
    proof {
        let after = enumeration::interface_infos(interfaces@);
        assert(after =~= before.insert(at as int, interface@));
        assert forall|i: int, j: int| 0 <= i < j < after.len() implies (
        #[trigger] after[i]).interface_number <= (#[trigger] after[j]).interface_number by {
            if at > 0 {
                assert(before[at - 1].interface_number <= number);
            }
            if i < at {
                assert(after[i] == before[i]);
                assert(before[i].interface_number <= before[at - 1].interface_number);
            } else if i > at {
                assert(after[i] == before[i - 1]);
            }
            if j < at {
                assert(after[j] == before[j]);
            } else if j > at {
                assert(after[j] == before[j - 1]);
            }
        }
        lemma_insert_multiset(before, at as int, interface@);
    }
}

proof fn lemma_insert_multiset<A>(s: Seq<A>, at: int, x: A)
    requires
        0 <= at <= s.len(),
    ensures
        s.insert(at, x).to_multiset() == s.to_multiset().insert(x),
{
    broadcast use vstd::seq_lib::group_to_multiset_ensures;

    let t = s.insert(at, x);
    assert(t.remove(at) =~= s);
    assert(t[at] == x);
    assert(t.contains(x));
    assert(s.to_multiset() =~= t.to_multiset().remove(x));
    assert(t.to_multiset() =~= s.to_multiset().insert(x));
}

fn read_interfaces(children: &[InterfaceAttrs]) -> (r: Vec<InterfaceInfo>)
    ensures
        by_number(enumeration::interface_infos(r@)),
        enumeration::interface_infos(r@).to_multiset() == interfaces_in(children@).to_multiset(),
{
    let mut interfaces: Vec<InterfaceInfo> = Vec::new();
    let mut i: usize = 0;
    assert(children@.take(0) =~= seq![]);
    assert(enumeration::interface_infos(interfaces@) =~= seq![]);
    while i < children.len()
        invariant
            i <= children@.len(),
            by_number(enumeration::interface_infos(interfaces@)),
            enumeration::interface_infos(interfaces@).to_multiset() == interfaces_in(
                children@.take(i as int),
            ).to_multiset(),
        decreases children@.len() - i,
    {
        proof {
            broadcast use vstd::seq_lib::group_to_multiset_ensures;

            assert(children@.take(i + 1).drop_last() =~= children@.take(i as int));
        }
        if let Some(interface) = read_interface(&children[i]) {
            insert_by_number(&mut interfaces, interface);
        }
        i = i + 1;
    }
    assert(children@.take(i as int) =~= children@);
    interfaces
}

/// What a device is, from its attributes, or the first attribute that is missing or wrong. The
/// interfaces are given, as any order among those of one number is as good as another.
pub open spec fn device_of(
    path: Seq<char>,
    a: DeviceAttrs,
    interfaces: Seq<InterfaceInfoModel>,
) -> Result<DeviceInfoModel, SysfsFailure> {
    let busnum = read_as(path, "busnum"@, a.busnum, decimal_content(content_of(a.busnum), 255));
    let devnum = read_as(path, "devnum"@, a.devnum, decimal_content(content_of(a.devnum), 255));
    let vendor = read_as(
        path,
        "idVendor"@,
        a.id_vendor,
        hex_content(content_of(a.id_vendor), 0xffff),
    );
    let product = read_as(
        path,
        "idProduct"@,
        a.id_product,
        hex_content(content_of(a.id_product), 0xffff),
    );
    let bcd_device = read_as(
        path,
        "bcdDevice"@,
        a.bcd_device,
        hex_content(content_of(a.bcd_device), 0xffff),
    );
    let version = read_as(path, "version"@, a.version, version_content(content_of(a.version)));
    let class = read_as(
        path,
        "bDeviceClass"@,
        a.device_class,
        hex_content(content_of(a.device_class), 255),
    );
    let subclass = read_as(
        path,
        "bDeviceSubClass"@,
        a.device_subclass,
        hex_content(content_of(a.device_subclass), 255),
    );
    let protocol = read_as(
        path,
        "bDeviceProtocol"@,
        a.device_protocol,
        hex_content(content_of(a.device_protocol), 255),
    );
    if busnum is Err {
        Err(busnum->Err_0)
    } else if devnum is Err {
        Err(devnum->Err_0)
    } else if vendor is Err {
        Err(vendor->Err_0)
    } else if product is Err {
        Err(product->Err_0)
    } else if bcd_device is Err {
        Err(bcd_device->Err_0)
    } else if version is Err {
        Err(version->Err_0)
    } else if class is Err {
        Err(class->Err_0)
    } else if subclass is Err {
        Err(subclass->Err_0)
    } else if protocol is Err {
        Err(protocol->Err_0)
    } else {
        Ok(
            DeviceInfoModel {
                platform: PlatformModel::Linux { path, busnum: busnum->Ok_0 as u8 },
                bus_id: text::zero_padded(text::decimal(busnum->Ok_0), 3),
                device_address: devnum->Ok_0 as u8,
                port_chain: port_chain_of(a.devpath),
                vendor_id: vendor->Ok_0 as u16,
                product_id: product->Ok_0 as u16,
                device_version: bcd_device->Ok_0 as u16,
                usb_version: version->Ok_0,
                class: class->Ok_0 as u8,
                subclass: subclass->Ok_0 as u8,
                protocol: protocol->Ok_0 as u8,
                speed: match text_of(a.speed) {
                    Some(s) => Speed::of_text(s),
                    None => None,
                },
                manufacturer_string: text_of(a.manufacturer),
                product_string: text_of(a.product),
                serial_number: text_of(a.serial),
                interfaces,
            },
        )
    }
}

/// A device is found if and only if every attribute that every device has can be read and is a
/// number. Otherwise the error names one that cannot or is not.
pub proof fn law_devices_have_their_attributes(
    path: Seq<char>,
    a: DeviceAttrs,
    interfaces: Seq<InterfaceInfoModel>,
)
    ensures
        device_of(path, a, interfaces) is Ok <==> {
            &&& a.busnum matches Ok(c) && text::unsigned_value(text::trimmed(c@), 10, 255) is Some
            &&& a.devnum matches Ok(c) && text::unsigned_value(text::trimmed(c@), 10, 255) is Some
            &&& a.id_vendor matches Ok(c) && hex_content(c@, 0xffff) is Some
            &&& a.id_product matches Ok(c) && hex_content(c@, 0xffff) is Some
            &&& a.bcd_device matches Ok(c) && hex_content(c@, 0xffff) is Some
            &&& a.version matches Ok(c) && version_content(c@) is Some
            &&& a.device_class matches Ok(c) && hex_content(c@, 255) is Some
            &&& a.device_subclass matches Ok(c) && hex_content(c@, 255) is Some
            &&& a.device_protocol matches Ok(c) && hex_content(c@, 255) is Some
        },
        device_of(path, a, interfaces) matches Err(e) ==> {
            ||| is_failure_of(e, path, "busnum"@, a.busnum)
            ||| is_failure_of(e, path, "devnum"@, a.devnum)
            ||| is_failure_of(e, path, "idVendor"@, a.id_vendor)
            ||| is_failure_of(e, path, "idProduct"@, a.id_product)
            ||| is_failure_of(e, path, "bcdDevice"@, a.bcd_device)
            ||| is_failure_of(e, path, "version"@, a.version)
            ||| is_failure_of(e, path, "bDeviceClass"@, a.device_class)
            ||| is_failure_of(e, path, "bDeviceSubClass"@, a.device_subclass)
            ||| is_failure_of(e, path, "bDeviceProtocol"@, a.device_protocol)
        },
        path.len() > 0 && path.last() != '/' ==> (a.busnum matches Err(reason) ==> device_of(
            path,
            a,
            interfaces,
        ) == Err::<DeviceInfoModel, SysfsFailure>(
            SysfsFailure::Io { path: path.push('/') + "busnum"@, reason: reason@ },
        )),
{
    reveal_strlit("/");
    if path.len() > 0 && path.last() != '/' {
        assert(path + "/"@ =~= path.push('/'));
    }
}

/// What is known of a device is what its attributes say: the numbers of the bus and the device in
/// decimal, the identifiers, the version and the classes in hexadecimal, and the strings without the
/// white space around them. A string that is no attribute is not there, and one that is, is.
pub proof fn law_devices_are_described_by_attributes(
    path: Seq<char>,
    a: DeviceAttrs,
    interfaces: Seq<InterfaceInfoModel>,
    d: DeviceInfoModel,
)
    requires
        device_of(path, a, interfaces) == Ok::<DeviceInfoModel, SysfsFailure>(d),
    ensures
        d.manufacturer_string is Some <==> a.manufacturer is Ok,
        a.manufacturer matches Ok(c) ==> d.manufacturer_string == Some(text::trimmed(c@)),
        d.product_string is Some <==> a.product is Ok,
        a.product matches Ok(c) ==> d.product_string == Some(text::trimmed(c@)),
        d.serial_number is Some <==> a.serial is Ok,
        a.serial matches Ok(c) ==> d.serial_number == Some(text::trimmed(c@)),
        a.busnum matches Ok(c) && {
            let n = text::unsigned_value(text::trimmed(c@), 10, 255);
            &&& n is Some
            &&& d.platform == (PlatformModel::Linux { path, busnum: n->0 as u8 })
            &&& d.bus_id == seq![
                (48 + n->0 / 100) as char,
                (48 + n->0 / 10 % 10) as char,
                (48 + n->0 % 10) as char,
            ]
        },
        a.devnum matches Ok(c) && text::unsigned_value(text::trimmed(c@), 10, 255) == Some(
            d.device_address as nat,
        ),
        a.id_vendor matches Ok(c) && {
            let t = text::trimmed(c@);
            let digits = if t.len() >= 2 && t[0] == '0' && t[1] == 'x' {
                t.skip(2)
            } else {
                t
            };
            text::unsigned_value(digits, 16, 0xffff) == Some(d.vendor_id as nat)
        },
        a.id_product matches Ok(c) && {
            let t = text::trimmed(c@);
            let digits = if t.len() >= 2 && t[0] == '0' && t[1] == 'x' {
                t.skip(2)
            } else {
                t
            };
            text::unsigned_value(digits, 16, 0xffff) == Some(d.product_id as nat)
        },
        a.bcd_device matches Ok(c) && {
            let t = text::trimmed(c@);
            let digits = if t.len() >= 2 && t[0] == '0' && t[1] == 'x' {
                t.skip(2)
            } else {
                t
            };
            text::unsigned_value(digits, 16, 0xffff) == Some(d.device_version as nat)
        },
        a.device_class matches Ok(c) && {
            let t = text::trimmed(c@);
            let digits = if t.len() >= 2 && t[0] == '0' && t[1] == 'x' {
                t.skip(2)
            } else {
                t
            };
            text::unsigned_value(digits, 16, 255) == Some(d.class as nat)
        },
        a.device_subclass matches Ok(c) && {
            let t = text::trimmed(c@);
            let digits = if t.len() >= 2 && t[0] == '0' && t[1] == 'x' {
                t.skip(2)
            } else {
                t
            };
            text::unsigned_value(digits, 16, 255) == Some(d.subclass as nat)
        },
        a.device_protocol matches Ok(c) && {
            let t = text::trimmed(c@);
            let digits = if t.len() >= 2 && t[0] == '0' && t[1] == 'x' {
                t.skip(2)
            } else {
                t
            };
            text::unsigned_value(digits, 16, 255) == Some(d.protocol as nat)
        },
        a.version matches Ok(c) && version_content(c@) == Some(d.usb_version),
        a.speed is Err ==> d.speed is None,
        a.speed matches Ok(c) ==> d.speed == Speed::of_text(text::trimmed(c@)),
        d.port_chain == port_chain_of(a.devpath),
        d.interfaces == interfaces,
{
    if let Ok(c) = a.busnum {
        if let Some(n) = text::unsigned_value(text::trimmed(c@), 10, 255) {
            text::law_three_digits_read_back(n, 255);
        }
    }
}

/// Of the attributes that every device has, the first that could not be read, or is no number, is the one
/// that is reported, in the order of the bus, the device, the identifiers, the versions and the classes.
pub proof fn law_first_bad_attribute_is_reported(
    path: Seq<char>,
    a: DeviceAttrs,
    interfaces: Seq<InterfaceInfoModel>,
)
    ensures
        ({
            let r = device_of(path, a, interfaces);
            if !(a.busnum matches Ok(c) && text::unsigned_value(text::trimmed(c@), 10, 255) is Some) {
                r matches Err(e) && is_failure_of(e, path, "busnum"@, a.busnum)
            } else if !(a.devnum matches Ok(c) && text::unsigned_value(text::trimmed(c@), 10, 255) is Some) {
                r matches Err(e) && is_failure_of(e, path, "devnum"@, a.devnum)
            } else if !(a.id_vendor matches Ok(c) && hex_content(c@, 0xffff) is Some) {
                r matches Err(e) && is_failure_of(e, path, "idVendor"@, a.id_vendor)
            } else if !(a.id_product matches Ok(c) && hex_content(c@, 0xffff) is Some) {
                r matches Err(e) && is_failure_of(e, path, "idProduct"@, a.id_product)
            } else if !(a.bcd_device matches Ok(c) && hex_content(c@, 0xffff) is Some) {
                r matches Err(e) && is_failure_of(e, path, "bcdDevice"@, a.bcd_device)
            } else if !(a.version matches Ok(c) && version_content(c@) is Some) {
                r matches Err(e) && is_failure_of(e, path, "version"@, a.version)
            } else if !(a.device_class matches Ok(c) && hex_content(c@, 255) is Some) {
                r matches Err(e) && is_failure_of(e, path, "bDeviceClass"@, a.device_class)
            } else if !(a.device_subclass matches Ok(c) && hex_content(c@, 255) is Some) {
                r matches Err(e) && is_failure_of(e, path, "bDeviceSubClass"@, a.device_subclass)
            } else if !(a.device_protocol matches Ok(c) && hex_content(c@, 255) is Some) {
                r matches Err(e) && is_failure_of(e, path, "bDeviceProtocol"@, a.device_protocol)
            } else {
                r is Ok
            }
        }),
{
}

/// An attribute is at its name in the directory, with one slash between them; and what is said of one
/// that could not be used is its path, and why it could not be read or what is in it.
pub proof fn law_failures_name_attribute(
    dir: Seq<char>,
    name: Seq<char>,
    path: String,
    reason: String,
    content: String,
)
    ensures
        dir.len() > 0 && dir.last() != '/' ==> joined(dir, name) == dir.push('/') + name,
        dir.len() == 0 || dir.last() == '/' ==> joined(dir, name) == dir + name,
        SysfsError(path, SysfsErrorKind::Io(reason))@ == (SysfsFailure::Io {
            path: path@,
            reason: reason@,
        }),
        SysfsError(path, SysfsErrorKind::Parse(content))@ == (SysfsFailure::Parse {
            path: path@,
            content: content@,
        }),
{
    reveal_strlit("/");
    assert(dir + "/"@ =~= dir.push('/'));
}

/// Whether an attribute could not be used for this reason.
pub open spec fn is_failure_of(
    e: SysfsFailure,
    dir: Seq<char>,
    name: Seq<char>,
    attr: Attr,
) -> bool {
    match attr {
        Ok(content) => e == (SysfsFailure::Parse { path: joined(dir, name), content: content@ }),
        Err(reason) => e == (SysfsFailure::Io { path: joined(dir, name), reason: reason@ }),
    }
}

/// The content of an attribute is a hexadecimal number with or without `0x` in front of it, and with
/// or without space around it.
pub proof fn law_hex_has_prefix_or_not(content: Seq<char>, digits: Seq<char>, max: nat)
    requires
        digits.len() >= 2 ==> !(digits[0] == '0' && digits[1] == 'x'),
    ensures
        text::trimmed(content) == digits ==> hex_content(content, max) == text::unsigned_value(
            digits,
            16,
            max,
        ),
        text::trimmed(content) == seq!['0', 'x'] + digits ==> hex_content(content, max)
            == text::unsigned_value(digits, 16, max),
{
    assert((seq!['0', 'x'] + digits).skip(2) =~= digits);
}

/// Ports in the path of a device are decimal numbers with dots between them, outermost first: one
/// more number behind a dot is one more port at the end. A root hub, whose path is 0, has none, and
/// neither has a device whose path cannot be read.
pub proof fn law_ports_are_between_dots(
    first: String,
    longer: String,
    reason: String,
    path: Seq<char>,
    digits: Seq<char>,
    port: u8,
)
    requires
        text::unsigned_value(digits, 10, 255) == Some(port as nat),
        !digits.contains('.'),
        digits != seq!['0'],
    ensures
        port_chain_of(Err(reason)) == Seq::<u8>::empty(),
        text::trimmed(first@) == digits ==> port_chain_of(Ok(first)) == seq![port],
        text::trimmed(first@) == seq!['0'] ==> port_chain_of(Ok(first)) == Seq::<u8>::empty(),
        text::trimmed(first@) == path && port_chain_of(Ok(first)).len() > 0 && text::trimmed(longer@)
            == path.push('.') + digits ==> port_chain_of(Ok(longer)) == port_chain_of(
            Ok(first),
        ).push(port),
{
    reveal_strlit("0");
    assert("0"@ =~= seq!['0']);
    text::law_separators_make_parts(path, '.', digits);
    assert(seq![digits].drop_last() =~= seq![]);
    assert(numbers_of(seq![]) == Some(Seq::<u8>::empty()));
    assert(numbers_of(seq![digits]) =~= Some(seq![port]));
    if text::trimmed(longer@) == path.push('.') + digits {
        let parts = text::parts(path, '.');
        assert(parts.push(digits).drop_last() =~= parts);
        assert(text::trimmed(longer@).contains('.')) by {
            assert(text::trimmed(longer@)[path.len() as int] == '.');
        }
        assert(text::trimmed(longer@) != "0"@) by {
            assert(text::trimmed(longer@).len() > path.len());
            if text::trimmed(longer@) == "0"@ {
                assert(text::trimmed(longer@)[0] == '0');
                assert(path.len() == 0);
            }
        }
    }
}

/// A device whose path has something between its dots that is no number has no ports.
pub proof fn law_bad_ports_are_none(devpath: String, path: Seq<char>, part: Seq<char>)
    requires
        text::unsigned_value(part, 10, 255) is None,
        !part.contains('.'),
        text::trimmed(devpath@) == part || text::trimmed(devpath@) == path.push('.') + part,
    ensures
        port_chain_of(Ok(devpath)).len() == 0,
{
    text::law_separators_make_parts(path, '.', part);
    let parts = text::parts(path, '.');
    assert(parts.push(part).drop_last() =~= parts);
    assert(seq![part].drop_last() =~= Seq::<Seq<char>>::empty());
}

/// A directory is an interface if there is a `:` in its name and the four numbers that every
/// interface has can be read, and then it is the interface with these numbers. Directories are taken
/// one after the other, and those that are none are left out.
pub proof fn law_interfaces_have_their_attributes(
    children: Seq<InterfaceAttrs>,
    a: InterfaceAttrs,
    number: u8,
    class: u8,
    subclass: u8,
    protocol: u8,
)
    ensures
        interfaces_in(seq![]) == Seq::<InterfaceInfoModel>::empty(),
        a.name@.contains(':') && (a.interface_number matches Ok(c) && hex_content(c@, 255) == Some(
            number as nat,
        )) && (a.interface_class matches Ok(c) && hex_content(c@, 255) == Some(class as nat)) && (
        a.interface_subclass matches Ok(c) && hex_content(c@, 255) == Some(subclass as nat)) && (
        a.interface_protocol matches Ok(c) && hex_content(c@, 255) == Some(protocol as nat)) ==> {
            let all = interfaces_in(children.push(a));
            &&& all.drop_last() == interfaces_in(children)
            &&& all.len() > 0
            &&& all.last().interface_number == number
            &&& all.last().class == class
            &&& all.last().subclass == subclass
            &&& all.last().protocol == protocol
            &&& all.last().interface_string is Some <==> a.interface is Ok
            &&& a.interface matches Ok(c) ==> all.last().interface_string == Some(
                text::trimmed(c@),
            )
        },
        !a.name@.contains(':') || !(a.interface_number matches Ok(c) && hex_content(c@, 255) is Some)
            || !(a.interface_class matches Ok(c) && hex_content(c@, 255) is Some) || !(
        a.interface_subclass matches Ok(c) && hex_content(c@, 255) is Some) || !(
        a.interface_protocol matches Ok(c) && hex_content(c@, 255) is Some) ==> interfaces_in(
            children.push(a),
        ) == interfaces_in(children),
{
    assert(children.push(a).drop_last() =~= children);
    assert(interfaces_in(children).push(interface_in(a)->0).drop_last() =~= interfaces_in(children));
}

/// Find out what a device is from its attributes.
///
/// It is an error if an attribute is missing or wrong that every device has. The interfaces are in
/// the order of their numbers.
pub fn probe_device(path: SysfsPath, a: &DeviceAttrs) -> (r: Result<DeviceInfo, SysfsError>)
    ensures
        match r {
            Ok(d) => {
                &&& device_of(path.0@, *a, d@.interfaces) == Ok::<DeviceInfoModel, SysfsFailure>(d@)
                &&& by_number(d@.interfaces)
                &&& d@.interfaces.to_multiset() == interfaces_in(a.children@).to_multiset()
            },
            Err(e) => device_of(path.0@, *a, seq![]) == Err::<DeviceInfoModel, SysfsFailure>(e@),
        },
        r matches Ok(d) ==> {
            &&& d.manufacturer_string is Some <==> a.manufacturer is Ok
            &&& a.manufacturer matches Ok(c) ==> (d.manufacturer_string matches Some(t) && t@ == text::trimmed(
                c@,
            ))
            &&& d.product_string is Some <==> a.product is Ok
            &&& a.product matches Ok(c) ==> (d.product_string matches Some(t) && t@ == text::trimmed(
                c@,
            ))
            &&& d.serial_number is Some <==> a.serial is Ok
            &&& a.serial matches Ok(c) ==> (d.serial_number matches Some(t) && t@ == text::trimmed(
                c@,
            ))
            &&& a.busnum matches Ok(c) && {
                let n = text::unsigned_value(text::trimmed(c@), 10, 255);
                &&& n is Some
                &&& d.platform matches PlatformInfo::Linux { path: p, busnum } && p.0@ == path.0@
                    && busnum == n->0
                &&& d.bus_id@ == seq![
                    (48 + n->0 / 100) as char,
                    (48 + n->0 / 10 % 10) as char,
                    (48 + n->0 % 10) as char,
                ]
            }
            &&& a.devnum matches Ok(c) && text::unsigned_value(text::trimmed(c@), 10, 255)
                == Some(d.device_address as nat)
            &&& a.id_vendor matches Ok(c) && {
                let t = text::trimmed(c@);
                let digits = if t.len() >= 2 && t[0] == '0' && t[1] == 'x' {
                    t.skip(2)
                } else {
                    t
                };
                text::unsigned_value(digits, 16, 0xffff) == Some(d.vendor_id as nat)
            }
            &&& a.id_product matches Ok(c) && {
                let t = text::trimmed(c@);
                let digits = if t.len() >= 2 && t[0] == '0' && t[1] == 'x' {
                    t.skip(2)
                } else {
                    t
                };
                text::unsigned_value(digits, 16, 0xffff) == Some(d.product_id as nat)
            }
            &&& a.bcd_device matches Ok(c) && {
                let t = text::trimmed(c@);
                let digits = if t.len() >= 2 && t[0] == '0' && t[1] == 'x' {
                    t.skip(2)
                } else {
                    t
                };
                text::unsigned_value(digits, 16, 0xffff) == Some(d.device_version as nat)
            }
            &&& a.version matches Ok(c) && version_content(c@) == Some(d.usb_version)
            &&& a.device_class matches Ok(c) && {
                let t = text::trimmed(c@);
                let digits = if t.len() >= 2 && t[0] == '0' && t[1] == 'x' {
                    t.skip(2)
                } else {
                    t
                };
                text::unsigned_value(digits, 16, 255) == Some(d.class as nat)
            }
            &&& a.device_subclass matches Ok(c) && {
                let t = text::trimmed(c@);
                let digits = if t.len() >= 2 && t[0] == '0' && t[1] == 'x' {
                    t.skip(2)
                } else {
                    t
                };
                text::unsigned_value(digits, 16, 255) == Some(d.subclass as nat)
            }
            &&& a.device_protocol matches Ok(c) && {
                let t = text::trimmed(c@);
                let digits = if t.len() >= 2 && t[0] == '0' && t[1] == 'x' {
                    t.skip(2)
                } else {
                    t
                };
                text::unsigned_value(digits, 16, 255) == Some(d.protocol as nat)
            }
            &&& d.speed == match a.speed {
                Ok(c) => Speed::of_text(text::trimmed(c@)),
                Err(_) => None,
            }
            &&& d.port_chain@ == port_chain_of(a.devpath)
            &&& forall|i: int, j: int|
                0 <= i < j < d.interfaces@.len() ==> (#[trigger] d.interfaces@[i]).interface_number
                    <= (#[trigger] d.interfaces@[j]).interface_number
        },
{
    let dir = path.0.as_str();
    let busnum: u8 = match read_attr(dir, "busnum", &a.busnum) {
        Ok(v) => v,
        Err(e) => return Err(e),
    };
    let device_address: u8 = match read_attr(dir, "devnum", &a.devnum) {
        Ok(v) => v,
        Err(e) => return Err(e),
    };
    let port_chain = read_port_chain(&a.devpath);
    let vendor_id: u32 = match read_attr_hex(dir, "idVendor", &a.id_vendor, 0xffff) {
        Ok(v) => v,
        Err(e) => return Err(e),
    };
    let product_id: u32 = match read_attr_hex(dir, "idProduct", &a.id_product, 0xffff) {
        Ok(v) => v,
        Err(e) => return Err(e),
    };
    let device_version: u32 = match read_attr_hex(dir, "bcdDevice", &a.bcd_device, 0xffff) {
        Ok(v) => v,
        Err(e) => return Err(e),
    };
    let usb_version: u16 = match read_version(dir, "version", &a.version) {
        Ok(v) => v,
        Err(e) => return Err(e),
    };
    let class: u32 = match read_attr_hex(dir, "bDeviceClass", &a.device_class, 255) {
        Ok(v) => v,
        Err(e) => return Err(e),
    };
    let subclass: u32 = match read_attr_hex(dir, "bDeviceSubClass", &a.device_subclass, 255) {
        Ok(v) => v,
        Err(e) => return Err(e),
    };
    let protocol: u32 = match read_attr_hex(dir, "bDeviceProtocol", &a.device_protocol, 255) {
        Ok(v) => v,
        Err(e) => return Err(e),
    };
    let speed = match read_text(&a.speed) {
        Some(s) => Speed::from_str(s.as_str()),
        None => None,
    };
    proof {
        text::law_three_digits_read_back(busnum as nat, 255);
    }
    let ghost dir = path.0@;
    let r = Ok(
        DeviceInfo {
            platform: PlatformInfo::Linux { path, busnum },
            bus_id: text::write_padded(busnum as u64, 10, 3),
            device_address,
            port_chain,
            vendor_id: vendor_id as u16,
            product_id: product_id as u16,
            device_version: device_version as u16,
            usb_version,
            class: class as u8,
            subclass: subclass as u8,
            protocol: protocol as u8,
            speed,
            manufacturer_string: read_text(&a.manufacturer),
            product_string: read_text(&a.product),
            serial_number: read_text(&a.serial),
            interfaces: read_interfaces(a.children.as_slice()),
        },
    );
    proof {
        let d = r->Ok_0;
        assert(d@.platform == (PlatformModel::Linux { path: dir, busnum }));
        assert forall|i: int, j: int| 0 <= i < j < d.interfaces@.len() implies (
        #[trigger] d.interfaces@[i]).interface_number <= (
        #[trigger] d.interfaces@[j]).interface_number by {
            let shown = enumeration::interface_infos(d.interfaces@);
            assert(shown[i].interface_number <= shown[j].interface_number);
        }
    }
    r
}

/// Whether the name of a directory is that of a device: it looks like `1-6` or `1-6.4.2`. Root hubs
/// (`usb1`) and interfaces (`1-6:1.0`) have other names.
pub open spec fn names_device(name: Seq<u8>) -> bool {
    forall|i: int|
        0 <= i < name.len() ==> 0x30 <= #[trigger] name[i] <= 0x39 || name[i] == 0x2d || name[i]
            == 0x2e
}

/// The name of a device has only digits, dashes and dots in it.
pub proof fn law_device_names_are_numbers(name: Seq<u8>, b: u8)
    ensures
        names_device(Seq::empty()),
        names_device(name.push(b)) <==> names_device(name) && (48 <= b <= 57 || b == 45 || b == 46),
{
    let more = name.push(b);
    assert(more[name.len() as int] == b);
    if names_device(more) {
        assert forall|i: int| 0 <= i < name.len() implies 0x30 <= #[trigger] name[i] <= 0x39
            || name[i] == 0x2d || name[i] == 0x2e by {
            assert(more[i] == name[i]);
        }
    }
}

/// Whether the name of a directory is that of a device.
pub fn is_device_name(name: &[u8]) -> (r: bool)
    ensures
        r == names_device(name@),
        r == (forall|i: int|
            0 <= i < name@.len() ==> 48 <= #[trigger] name@[i] <= 57 || name@[i] == 45 || name@[i]
                == 46),
{
    let mut i: usize = 0;
    while i < name.len()
        invariant
            i <= name@.len(),
            names_device(name@.take(i as int)),
        decreases name@.len() - i,
    {
        let c: u8 = name[i];
        if !((0x30 <= c && c <= 0x39) || c == 0x2d || c == 0x2e) {
            return false;
        }
        i = i + 1;
        assert forall|k: int| 0 <= k < i implies 0x30 <= #[trigger] name@.take(i as int)[k] <= 0x39
            || name@.take(i as int)[k] == 0x2d || name@.take(i as int)[k] == 0x2e by {
            if k < i - 1 {
                assert(name@.take(i as int)[k] == name@.take(i - 1)[k]);
            }
        }
    }
    assert(name@.take(i as int) =~= name@);
    true
}

/// Whether the name of a directory is that of a root hub: `usb` and the number of the bus.
pub fn is_root_hub_name(name: &[u8]) -> (r: bool)
    ensures
        r == (name@.len() >= 3 && name@[0] == 0x75 && name@[1] == 0x73 && name@[2] == 0x62),
{
    name.len() >= 3 && name[0] == 0x75 && name[1] == 0x73 && name[2] == 0x62
}

/// The bus of a root hub, given the driver of the device that the root hub belongs to.
pub fn bus_of_root_hub(root_hub: DeviceInfo, driver: Option<String>) -> (r: Option<BusInfo>)
    ensures
        match r {
            Some(b) => root_hub@.platform matches PlatformModel::Linux { path, busnum } && b@ == (
            BusInfoModel {
                platform: PlatformBusModel::Linux { path, root_hub: root_hub@, busnum },
                driver: enumeration::opt_text(driver),
                bus_id: root_hub@.bus_id,
                controller_type: enumeration::controller_type_of(enumeration::opt_text(driver)),
            }),
            None => !(root_hub@.platform is Linux),
        },
{
    let bus_id = root_hub.bus_id.clone();
    let (path, busnum) = match &root_hub.platform {
        PlatformInfo::Linux { path, busnum } => (SysfsPath(path.0.clone()), *busnum),
        _ => return None,
    };
    let controller_type = enumeration::find_controller_type(&driver);
    Some(
        BusInfo {
            platform: PlatformBusInfo::Linux { path, root_hub, busnum },
            driver,
            bus_id,
            controller_type,
        },
    )
}

/// The error for when the devices in sysfs cannot be listed.
pub fn sysfs_list_error(kind: IoErrorKind, code: Option<u32>) -> (r: Error)
    ensures
        match kind {
            IoErrorKind::NotFound => r.is(
                ErrorKind::Other,
                crate::error::io_code(code),
                "/sys/bus/usb/devices/ not found"@,
            ),
            IoErrorKind::PermissionDenied => r.is(
                ErrorKind::PermissionDenied,
                crate::error::io_code(code),
                "/sys/bus/usb/devices/ permission denied"@,
            ),
            _ => r.is(
                ErrorKind::Other,
                crate::error::io_code(code),
                "failed to open /sys/bus/usb/devices/"@,
            ),
        },
{
    match kind {
        IoErrorKind::NotFound => Error::new_io(
            ErrorKind::Other,
            "/sys/bus/usb/devices/ not found",
            code,
        ),
        IoErrorKind::PermissionDenied => Error::new_io(
            ErrorKind::PermissionDenied,
            "/sys/bus/usb/devices/ permission denied",
            code,
        ),
        _ => Error::new_io(ErrorKind::Other, "failed to open /sys/bus/usb/devices/", code),
    }
}

} // verus!
