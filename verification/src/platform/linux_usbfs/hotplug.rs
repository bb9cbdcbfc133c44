//! Reading the messages that udev sends when a device comes or goes.

use vstd::prelude::*;

use crate::enumeration::{
    self, DeviceId, DeviceInfoModel, PlatformDeviceId, PlatformInfo, SysfsPath,
};
use crate::hotplug::HotplugEvent;
use crate::text;

use super::enumeration::{probe_device, DeviceAttrs};

verus! {

/// The multicast group of udev, which only root can send to.
pub const UDEV_MULTICAST_GROUP: u32 = 2;

/// The bytes that a message of udev begins with.
pub open spec fn udev_magic() -> Seq<u8> {
    seq![0x6c, 0x69, 0x62, 0x75, 0x64, 0x65, 0x76, 0, 0xfe, 0xed, 0xca, 0xfe]
}

/// The number with these bytes, the lowest first.
pub open spec fn le32(b: Seq<u8>) -> u32 {
    (b[0] + 0x100 * b[1] + 0x1_0000 * b[2] + 0x100_0000 * b[3]) as u32
}

/// The number with these bytes, the highest first.
pub open spec fn be32(b: Seq<u8>) -> u32 {
    (b[3] + 0x100 * b[2] + 0x1_0000 * b[1] + 0x100_0000 * b[0]) as u32
}

/// `u32::from_ne_bytes` gives the number with these bytes in the order of the machine, which is
/// one of the two.
#[verifier::external_body]
fn from_ne_bytes(b: [u8; 4]) -> (r: u32)
    ensures
        r == le32(b@) || r == be32(b@),
{
    u32::from_ne_bytes(b)
}

/// A device that came, with its path in sysfs, or went.
#[derive(Debug)]
pub enum Uevent {
    Add(SysfsPath),
    Remove { bus: u8, addr: u8 },
}

/// [`Uevent`] with its path as a sequence.
#[verifier::ext_equal]
pub enum UeventModel {
    Add(Seq<char>),
    Remove { bus: u8, addr: u8 },
}

impl View for Uevent {
    type V = UeventModel;

    open spec fn view(&self) -> UeventModel {
        match self {
            Uevent::Add(path) => UeventModel::Add(path.0@),
            Uevent::Remove { bus, addr } => UeventModel::Remove { bus: *bus, addr: *addr },
        }
    }
}

/// The key and the value in an entry: what stands before and behind the first `=`, if the entry is
/// text and there is one.
pub open spec fn property_of(entry: Seq<u8>) -> Option<(Seq<char>, Seq<char>)> {
    if vstd::utf8::valid_utf8(entry) {
        split_at_first(vstd::utf8::decode_utf8(entry), '=')
    } else {
        None
    }
}

/// What stands before and behind the first occurrence of a character.
pub open spec fn split_at_first(s: Seq<char>, c: char) -> Option<(Seq<char>, Seq<char>)>
    decreases s.len(),
{
    if s.len() == 0 {
        None
    } else if s[0] == c {
        Some((seq![], s.drop_first()))
    } else {
        match split_at_first(s.drop_first(), c) {
            Some((before, after)) => Some((seq![s[0]] + before, after)),
            None => None,
        }
    }
}

proof fn lemma_split_at_first(s: Seq<char>, c: char, at: int)
    requires
        0 <= at <= s.len(),
        forall|k: int| 0 <= k < at ==> s[k] != c,
        at < s.len() ==> s[at] == c,
    ensures
        split_at_first(s, c) == if at < s.len() {
            Some((s.take(at), s.skip(at + 1)))
        } else {
            None
        },
    decreases s.len(),
{
    if s.len() > 0 {
        if at == 0 {
            assert(s.take(0) =~= seq![]);
            assert(s.skip(1) =~= s.drop_first());
        } else {
            assert(s[0] != c);
            lemma_split_at_first(s.drop_first(), c, at - 1);
            if at < s.len() {
                assert(seq![s[0]] + s.drop_first().take(at - 1) =~= s.take(at));
                assert(s.drop_first().skip(at) =~= s.skip(at + 1));
            }
        }
    }
}

/// What the properties of a message say so far.
#[verifier::ext_equal]
pub struct Seen {
    pub is_add: Option<bool>,
    pub busnum: Option<u8>,
    pub devnum: Option<u8>,
    pub devpath: Option<Seq<char>>,
}

/// A decimal number that fits into a byte.
pub open spec fn byte_of(s: Seq<char>) -> Option<u8> {
    match text::unsigned_value(s, 10, 255) {
        Some(v) => Some(v as u8),
        None => None,
    }
}

impl Seen {
    /// What the properties say with one more, or nothing if the message is not about a USB device
    /// that comes or goes.
    pub open spec fn with(self, key: Seq<char>, value: Seq<char>) -> Option<Seen> {
        if key == "SUBSYSTEM"@ {
            if value == "usb"@ {
                Some(self)
            } else {
                None
            }
        } else if key == "DEVTYPE"@ {
            if value == "usb_device"@ {
                Some(self)
            } else {
                None
            }
        } else if key == "ACTION"@ {
            if value == "add"@ {
                Some(Seen { is_add: Some(true), ..self })
            } else if value == "remove"@ {
                Some(Seen { is_add: Some(false), ..self })
            } else {
                None
            }
        } else if key == "BUSNUM"@ {
            Some(Seen { busnum: byte_of(value), ..self })
        } else if key == "DEVNUM"@ {
            Some(Seen { devnum: byte_of(value), ..self })
        } else if key == "DEVPATH"@ {
            Some(Seen { devpath: Some(value), ..self })
        } else {
            Some(self)
        }
    }
}

/// What the properties in these entries say.
pub open spec fn seen_in(entries: Seq<Seq<u8>>) -> Option<Seen>
    decreases entries.len(),
{
    if entries.len() == 0 {
        Some(Seen { is_add: None, busnum: None, devnum: None, devpath: None })
    } else {
        match seen_in(entries.drop_last()) {
            Some(seen) => match property_of(entries.last()) {
                Some((key, value)) => seen.with(key, value),
                None => Some(seen),
            },
            None => None,
        }
    }
}

/// A path without slashes in front of it.
pub open spec fn without_slashes(s: Seq<char>) -> Seq<char>
    decreases s.len(),
{
    if s.len() > 0 && s[0] == '/' {
        without_slashes(s.drop_first())
    } else {
        s
    }
}

/// What happened, by the properties of a message: all four of them have to be there.
pub open spec fn uevent_of(seen: Seen) -> Option<UeventModel> {
    if seen.is_add is Some && seen.busnum is Some && seen.devnum is Some && seen.devpath is Some {
        if seen.is_add->0 {
            Some(UeventModel::Add("/sys/"@ + without_slashes(seen.devpath->0)))
        } else {
            Some(UeventModel::Remove { bus: seen.busnum->0, addr: seen.devnum->0 })
        }
    } else {
        None
    }
}

/// Whether a message has a header of udev.
pub open spec fn has_header(buf: Seq<u8>) -> bool {
    buf.len() >= 24 && buf.take(12) == udev_magic()
}

/// What happened, by a message of udev whose properties are at the place given.
pub open spec fn event_at(buf: Seq<u8>, off: u32, len: u32) -> Option<UeventModel> {
    if off + len <= buf.len() {
        match seen_in(text::parts(buf.subrange(off as int, off + len), 0u8)) {
            Some(seen) => uevent_of(seen),
            None => None,
        }
    } else {
        None
    }
}

/// An optional event with its path as a sequence.
pub open spec fn opt_uevent(e: Option<Uevent>) -> Option<UeventModel> {
    match e {
        Some(e) => Some(e@),
        None => None,
    }
}

/// What is known of an event is its path, or its bus and number.
pub proof fn law_event_shows_its_parts(path: SysfsPath, bus: u8, addr: u8)
    ensures
        opt_uevent(None) is None,
        opt_uevent(Some(Uevent::Add(path))) == Some(UeventModel::Add(path.0@)),
        opt_uevent(Some(Uevent::Remove { bus, addr })) == Some((UeventModel::Remove { bus, addr })),
{
}

/// A message that says that a USB device went names it by its bus and its number there, which are
/// three decimal digits each, wherever they stand among the properties.
pub proof fn law_removal_names_device(
    buf: Seq<u8>,
    off: u32,
    len: u32,
    entries: Seq<Seq<u8>>,
    keys: Seq<Seq<char>>,
    values: Seq<Seq<char>>,
    bus: u8,
    addr: u8,
)
    requires
        off + len <= buf.len(),
        text::parts(buf.subrange(off as int, off + len), 0u8) == entries,
        keys.len() == values.len() <= entries.len(),
        forall|i: int|
            #![trigger keys[i]]
            0 <= i < keys.len() ==> !keys[i].contains('=') && entries[i]
                == vstd::utf8::encode_utf8(keys[i].push('=') + values[i]),
        forall|i: int| keys.len() <= i < entries.len() ==> (#[trigger] entries[i]).len() == 0,
        forall|i: int|
            #![trigger keys[i]]
            0 <= i < keys.len() ==> {
                &&& keys[i] == "SUBSYSTEM"@ ==> values[i] == "usb"@
                &&& keys[i] == "DEVTYPE"@ ==> values[i] == "usb_device"@
                &&& keys[i] == "ACTION"@ ==> values[i] == "remove"@
                &&& keys[i] == "BUSNUM"@ ==> values[i] == seq![
                    (48 + bus / 100) as char,
                    (48 + bus / 10 % 10) as char,
                    (48 + bus % 10) as char,
                ]
                &&& keys[i] == "DEVNUM"@ ==> values[i] == seq![
                    (48 + addr / 100) as char,
                    (48 + addr / 10 % 10) as char,
                    (48 + addr % 10) as char,
                ]
            },
        keys.contains("ACTION"@),
        keys.contains("BUSNUM"@),
        keys.contains("DEVNUM"@),
        keys.contains("DEVPATH"@),
    ensures
        event_at(buf, off, len) == Some(UeventModel::Remove { bus, addr }),
{
    lemma_seen(entries, keys, values, false, bus, addr, keys.len() as int);
    lemma_rest_is_empty(entries, keys.len() as int, entries.len() as int);
    assert(entries.take(entries.len() as int) =~= entries);
    let seen = seen_in(entries)->0;
    assert(seen.is_add == Some(false));
    assert(seen.busnum == Some(bus));
    assert(seen.devnum == Some(addr));
    assert(seen.devpath is Some);
}

/// A message that says that a USB device came tells where it is in sysfs: below `/sys`, at the path
/// that is among the properties.
pub proof fn law_arrival_has_path(
    buf: Seq<u8>,
    off: u32,
    len: u32,
    entries: Seq<Seq<u8>>,
    keys: Seq<Seq<char>>,
    values: Seq<Seq<char>>,
    bus: u8,
    addr: u8,
    path: Seq<char>,
)
    requires
        off + len <= buf.len(),
        text::parts(buf.subrange(off as int, off + len), 0u8) == entries,
        keys.len() == values.len() <= entries.len(),
        forall|i: int|
            #![trigger keys[i]]
            0 <= i < keys.len() ==> !keys[i].contains('=') && entries[i]
                == vstd::utf8::encode_utf8(keys[i].push('=') + values[i]),
        forall|i: int| keys.len() <= i < entries.len() ==> (#[trigger] entries[i]).len() == 0,
        forall|i: int|
            #![trigger keys[i]]
            0 <= i < keys.len() ==> {
                &&& keys[i] == "SUBSYSTEM"@ ==> values[i] == "usb"@
                &&& keys[i] == "DEVTYPE"@ ==> values[i] == "usb_device"@
                &&& keys[i] == "ACTION"@ ==> values[i] == "add"@
                &&& keys[i] == "BUSNUM"@ ==> values[i] == seq![
                    (48 + bus / 100) as char,
                    (48 + bus / 10 % 10) as char,
                    (48 + bus % 10) as char,
                ]
                &&& keys[i] == "DEVNUM"@ ==> values[i] == seq![
                    (48 + addr / 100) as char,
                    (48 + addr / 10 % 10) as char,
                    (48 + addr % 10) as char,
                ]
                &&& keys[i] == "DEVPATH"@ ==> values[i] == seq!['/'] + path
            },
        path.len() > 0 ==> path[0] != '/',
        keys.contains("ACTION"@),
        keys.contains("BUSNUM"@),
        keys.contains("DEVNUM"@),
        keys.contains("DEVPATH"@),
    ensures
        event_at(buf, off, len) == Some(UeventModel::Add("/sys/"@ + path)),
{
    lemma_seen(entries, keys, values, true, bus, addr, keys.len() as int);
    lemma_rest_is_empty(entries, keys.len() as int, entries.len() as int);
    assert(entries.take(entries.len() as int) =~= entries);
    let seen = seen_in(entries)->0;
    assert(seen.is_add == Some(true));
    assert(seen.busnum == Some(bus));
    assert(seen.devnum == Some(addr));
    let i = choose|i: int| 0 <= i < keys.len() && keys[i] == "DEVPATH"@;
    assert(seen.devpath == Some(values[i]));
    assert((seq!['/'] + path).drop_first() =~= path);
    assert(without_slashes(seq!['/'] + path) == without_slashes(path));
    assert(without_slashes(path) == path);
}

/// A message is about no USB device that comes or goes if it is about another subsystem, another
/// type of device or another action, or if one of the properties that tell the device is missing.
pub proof fn law_other_messages_are_ignored(
    buf: Seq<u8>,
    off: u32,
    len: u32,
    entries: Seq<Seq<u8>>,
    keys: Seq<Seq<char>>,
    values: Seq<Seq<char>>,
    k: int,
)
    requires
        off + len <= buf.len(),
        text::parts(buf.subrange(off as int, off + len), 0u8) == entries,
        keys.len() == values.len() <= entries.len(),
        forall|i: int|
            #![trigger keys[i]]
            0 <= i < keys.len() ==> !keys[i].contains('=') && entries[i]
                == vstd::utf8::encode_utf8(keys[i].push('=') + values[i]),
        forall|i: int| keys.len() <= i < entries.len() ==> (#[trigger] entries[i]).len() == 0,
    ensures
        0 <= k < keys.len() && keys[k] == "SUBSYSTEM"@ && values[k] != "usb"@ ==> event_at(
            buf,
            off,
            len,
        ) is None,
        0 <= k < keys.len() && keys[k] == "DEVTYPE"@ && values[k] != "usb_device"@ ==> event_at(
            buf,
            off,
            len,
        ) is None,
        0 <= k < keys.len() && keys[k] == "ACTION"@ && values[k] != "add"@ && values[k] != "remove"@
            ==> event_at(buf, off, len) is None,
        !keys.contains("ACTION"@) ==> event_at(buf, off, len) is None,
        !keys.contains("BUSNUM"@) ==> event_at(buf, off, len) is None,
        !keys.contains("DEVNUM"@) ==> event_at(buf, off, len) is None,
        !keys.contains("DEVPATH"@) ==> event_at(buf, off, len) is None,
{
    lemma_names_differ();
    if 0 <= k < keys.len() {
        assert(entries.take(k + 1).drop_last() =~= entries.take(k));
        assert(entries.take(k + 1).last() == entries[k]);
        lemma_property(keys[k], values[k]);
        if seen_in(entries.take(k + 1)) is None {
            lemma_rejected_stays(entries, k + 1);
        }
    }
    lemma_missing_stays(entries, keys, values, keys.len() as int);
    if seen_in(entries.take(keys.len() as int)) is None {
        lemma_rejected_stays(entries, keys.len() as int);
    } else {
        lemma_rest_is_empty(entries, keys.len() as int, entries.len() as int);
        assert(entries.take(entries.len() as int) =~= entries);
    }
}

/// Properties are taken one after the other, and of several of one name the last counts. The numbers of
/// the bus and the device are decimal and fit into a byte, or are not there; and a property of another
/// subsystem, type of device or action makes the whole message one about something else.
pub proof fn law_each_property_counts(
    entries: Seq<Seq<u8>>,
    key: Seq<char>,
    value: Seq<char>,
    seen: Seen,
)
    requires
        !key.contains('='),
    ensures
        seen_in(Seq::empty()) matches Some(none) && none.is_add is None && none.busnum is None
            && none.devnum is None && none.devpath is None,
        ({
            let more = entries.push(vstd::utf8::encode_utf8(key.push('=') + value));
            &&& seen_in(entries) is None ==> seen_in(more) is None
            &&& seen_in(entries) == Some(seen) ==> {
                let after = seen_in(more);
                &&& key == "SUBSYSTEM"@ ==> after == if value == "usb"@ {
                    Some(seen)
                } else {
                    None
                }
                &&& key == "DEVTYPE"@ ==> after == if value == "usb_device"@ {
                    Some(seen)
                } else {
                    None
                }
                &&& key == "ACTION"@ ==> after == if value == "add"@ {
                    Some(Seen { is_add: Some(true), ..seen })
                } else if value == "remove"@ {
                    Some(Seen { is_add: Some(false), ..seen })
                } else {
                    None
                }
                &&& key == "BUSNUM"@ ==> (after matches Some(x) && x.is_add == seen.is_add && x.devnum
                    == seen.devnum && x.devpath == seen.devpath && match text::unsigned_value(
                    value,
                    10,
                    255,
                ) {
                    Some(n) => x.busnum == Some(n as u8),
                    None => x.busnum is None,
                })
                &&& key == "DEVNUM"@ ==> (after matches Some(x) && x.is_add == seen.is_add && x.busnum
                    == seen.busnum && x.devpath == seen.devpath && match text::unsigned_value(
                    value,
                    10,
                    255,
                ) {
                    Some(n) => x.devnum == Some(n as u8),
                    None => x.devnum is None,
                })
                &&& key == "DEVPATH"@ ==> after == Some(Seen { devpath: Some(value), ..seen })
                &&& key != "SUBSYSTEM"@ && key != "DEVTYPE"@ && key != "ACTION"@ && key != "BUSNUM"@
                    && key != "DEVNUM"@ && key != "DEVPATH"@ ==> after == Some(seen)
            }
        }),
        !value.contains('=') ==> seen_in(entries.push(vstd::utf8::encode_utf8(value))) == seen_in(
            entries,
        ),
        forall|e: Seq<u8>|
            !vstd::utf8::valid_utf8(e) ==> seen_in(#[trigger] entries.push(e)) == seen_in(entries),
{
    lemma_names_differ();
    lemma_property(key, value);
    let entry = vstd::utf8::encode_utf8(key.push('=') + value);
    assert(entries.push(entry).drop_last() =~= entries);
    let text_only = vstd::utf8::encode_utf8(value);
    assert(entries.push(text_only).drop_last() =~= entries);
    if !value.contains('=') {
        vstd::utf8::encode_utf8_valid_utf8(value);
        vstd::utf8::encode_utf8_decode_utf8(value);
        lemma_split_at_first(value, '=', value.len() as int);
    }
    assert forall|e: Seq<u8>| !vstd::utf8::valid_utf8(e) implies seen_in(#[trigger] entries.push(e))
        == seen_in(entries) by {
        assert(entries.push(e).drop_last() =~= entries);
    }
}

/// What happened is told by all four of the properties: a device that came is at its path below `/sys`,
/// whatever number of slashes is in front of it, and one that went is named by its bus and number.
pub proof fn law_event_needs_all_properties(seen: Seen, path: Seq<char>, buf: Seq<u8>, off: u32, len: u32)
    ensures
        seen.is_add is None || seen.busnum is None || seen.devnum is None || seen.devpath is None
            ==> uevent_of(seen) is None,
        seen.busnum is Some && seen.devnum is Some && seen.devpath is Some && seen.is_add == Some(true)
            ==> uevent_of(seen) == Some(
            UeventModel::Add("/sys/"@ + without_slashes(seen.devpath->0)),
        ),
        seen.busnum is Some && seen.devnum is Some && seen.devpath is Some && seen.is_add == Some(false)
            ==> (uevent_of(seen) matches Some(UeventModel::Remove { bus, addr }) && Some(bus)
            == seen.busnum && Some(addr) == seen.devnum),
        without_slashes(seq!['/'] + path) == without_slashes(path),
        path.len() == 0 || path[0] != '/' ==> without_slashes(path) == path,
        off + len <= buf.len() ==> match seen_in(
            text::parts(buf.subrange(off as int, off + len), 0u8),
        ) {
            Some(x) => event_at(buf, off, len) == uevent_of(x),
            None => event_at(buf, off, len) is None,
        },
{
    assert((seq!['/'] + path).drop_first() =~= path);
}

proof fn lemma_names_differ()
    ensures
        "SUBSYSTEM"@ != "DEVTYPE"@,
        "SUBSYSTEM"@ != "ACTION"@,
        "SUBSYSTEM"@ != "BUSNUM"@,
        "SUBSYSTEM"@ != "DEVNUM"@,
        "SUBSYSTEM"@ != "DEVPATH"@,
        "DEVTYPE"@ != "ACTION"@,
        "DEVTYPE"@ != "BUSNUM"@,
        "DEVTYPE"@ != "DEVNUM"@,
        "DEVTYPE"@ != "DEVPATH"@,
        "ACTION"@ != "BUSNUM"@,
        "ACTION"@ != "DEVNUM"@,
        "ACTION"@ != "DEVPATH"@,
        "BUSNUM"@ != "DEVNUM"@,
        "BUSNUM"@ != "DEVPATH"@,
        "DEVNUM"@ != "DEVPATH"@,
        "add"@ != "remove"@,
{
    reveal_strlit("SUBSYSTEM");
    reveal_strlit("DEVTYPE");
    reveal_strlit("ACTION");
    reveal_strlit("BUSNUM");
    reveal_strlit("DEVNUM");
    reveal_strlit("DEVPATH");
    reveal_strlit("add");
    reveal_strlit("remove");
    assert("SUBSYSTEM"@.len() == 9 && "DEVTYPE"@.len() == 7 && "ACTION"@.len() == 6);
    assert("BUSNUM"@.len() == 6 && "DEVNUM"@.len() == 6 && "DEVPATH"@.len() == 7);
    assert("DEVTYPE"@[3] == 'T' && "DEVPATH"@[3] == 'P');
    assert("ACTION"@[0] == 'A' && "BUSNUM"@[0] == 'B' && "DEVNUM"@[0] == 'D');
    assert("add"@.len() == 3 && "remove"@.len() == 6);
}

proof fn lemma_property(key: Seq<char>, value: Seq<char>)
    requires
        !key.contains('='),
    ensures
        property_of(vstd::utf8::encode_utf8(key.push('=') + value)) == Some((key, value)),
{
    let whole = key.push('=') + value;
    vstd::utf8::encode_utf8_valid_utf8(whole);
    vstd::utf8::encode_utf8_decode_utf8(whole);
    assert forall|k: int| 0 <= k < key.len() implies whole[k] != '=' by {
        assert(whole[k] == key[k]);
    }
    lemma_split_at_first(whole, '=', key.len() as int);
    assert(whole.take(key.len() as int) =~= key);
    assert(whole.skip(key.len() as int + 1) =~= value);
}

proof fn lemma_rest_is_empty(entries: Seq<Seq<u8>>, from: int, to: int)
    requires
        0 <= from <= to <= entries.len(),
        forall|i: int| from <= i < entries.len() ==> (#[trigger] entries[i]).len() == 0,
    ensures
        seen_in(entries.take(to)) == seen_in(entries.take(from)),
    decreases to,
{
    if from < to {
        lemma_rest_is_empty(entries, from, to - 1);
        assert(entries.take(to).drop_last() =~= entries.take(to - 1));
        let last = entries.take(to).last();
        assert(last == entries[to - 1]);
        assert(last.len() == 0);
        assert(property_of(last) is None) by {
            if vstd::utf8::valid_utf8(last) {
                assert(vstd::utf8::decode_utf8(last).len() == 0);
            }
        }
    }
}

proof fn lemma_seen(
    entries: Seq<Seq<u8>>,
    keys: Seq<Seq<char>>,
    values: Seq<Seq<char>>,
    add: bool,
    bus: u8,
    addr: u8,
    n: int,
)
    requires
        0 <= n <= keys.len() == values.len() <= entries.len(),
        forall|i: int|
            #![trigger keys[i]]
            0 <= i < keys.len() ==> !keys[i].contains('=') && entries[i]
                == vstd::utf8::encode_utf8(keys[i].push('=') + values[i]),
        forall|i: int|
            #![trigger keys[i]]
            0 <= i < keys.len() ==> {
                &&& keys[i] == "SUBSYSTEM"@ ==> values[i] == "usb"@
                &&& keys[i] == "DEVTYPE"@ ==> values[i] == "usb_device"@
                &&& keys[i] == "ACTION"@ ==> values[i] == if add {
                    "add"@
                } else {
                    "remove"@
                }
                &&& keys[i] == "BUSNUM"@ ==> values[i] == seq![
                    (48 + bus / 100) as char,
                    (48 + bus / 10 % 10) as char,
                    (48 + bus % 10) as char,
                ]
                &&& keys[i] == "DEVNUM"@ ==> values[i] == seq![
                    (48 + addr / 100) as char,
                    (48 + addr / 10 % 10) as char,
                    (48 + addr % 10) as char,
                ]
            },
    ensures
        seen_in(entries.take(n)) matches Some(seen) && {
            &&& forall|i: int| 0 <= i < n && #[trigger] keys[i] == "ACTION"@ ==> seen.is_add == Some(add)
            &&& forall|i: int| 0 <= i < n && #[trigger] keys[i] == "BUSNUM"@ ==> seen.busnum == Some(bus)
            &&& forall|i: int| 0 <= i < n && #[trigger] keys[i] == "DEVNUM"@ ==> seen.devnum == Some(addr)
            &&& forall|i: int|
                0 <= i < n && #[trigger] keys[i] == "DEVPATH"@ ==> seen.devpath is Some && exists|
                    j: int,
                |
                    0 <= j < n && keys[j] == "DEVPATH"@ && seen.devpath == Some(#[trigger] values[j])
        },
    decreases n,
{
    lemma_names_differ();
    if n == 0 {
        assert(entries.take(0) =~= seq![]);
    } else {
        lemma_seen(entries, keys, values, add, bus, addr, n - 1);
        assert(entries.take(n).drop_last() =~= entries.take(n - 1));
        assert(entries.take(n).last() == entries[n - 1]);
        let (key, value) = (keys[n - 1], values[n - 1]);
        lemma_property(key, value);
        text::law_three_digits_read_back(bus as nat, 255);
        text::law_three_digits_read_back(addr as nat, 255);
        let before = seen_in(entries.take(n - 1))->0;
        assert(before.with(key, value) is Some);
        let seen = before.with(key, value)->0;
        assert forall|i: int| 0 <= i < n && #[trigger] keys[i] == "DEVPATH"@ implies seen.devpath
            is Some && exists|j: int|
            0 <= j < n && keys[j] == "DEVPATH"@ && seen.devpath == Some(#[trigger] values[j]) by {
            if key == "DEVPATH"@ {
                assert(seen.devpath == Some(values[n - 1]));
            } else {
                let j = choose|j: int|
                    0 <= j < n - 1 && keys[j] == "DEVPATH"@ && before.devpath == Some(
                        #[trigger] values[j],
                    );
                assert(seen.devpath == Some(values[j]));
            }
        }
    }
}

proof fn lemma_missing_stays(
    entries: Seq<Seq<u8>>,
    keys: Seq<Seq<char>>,
    values: Seq<Seq<char>>,
    n: int,
)
    requires
        0 <= n <= keys.len() == values.len() <= entries.len(),
        forall|i: int|
            #![trigger keys[i]]
            0 <= i < keys.len() ==> !keys[i].contains('=') && entries[i]
                == vstd::utf8::encode_utf8(keys[i].push('=') + values[i]),
    ensures
        seen_in(entries.take(n)) matches Some(seen) ==> {
            &&& !keys.contains("ACTION"@) ==> seen.is_add is None
            &&& !keys.contains("BUSNUM"@) ==> seen.busnum is None
            &&& !keys.contains("DEVNUM"@) ==> seen.devnum is None
            &&& !keys.contains("DEVPATH"@) ==> seen.devpath is None
        },
    decreases n,
{
    if n == 0 {
        assert(entries.take(0) =~= seq![]);
    } else {
        lemma_missing_stays(entries, keys, values, n - 1);
        assert(entries.take(n).drop_last() =~= entries.take(n - 1));
        assert(entries.take(n).last() == entries[n - 1]);
        lemma_property(keys[n - 1], values[n - 1]);
        assert(keys.contains(keys[n - 1]));
    }
}

/// Split an entry at the first `=`.
fn parse_property(entry: &[u8]) -> (r: Option<(Vec<char>, Vec<char>)>)
    ensures
        match r {
            Some((key, value)) => property_of(entry@) == Some((key@, value@)),
            None => property_of(entry@) is None,
        },
{
    let chars = match text::from_utf8(entry) {
        Some(s) => text::chars_of(s),
        None => return None,
    };
    let mut at: usize = 0;
    while at < chars.len() && chars[at] != '='
        invariant
            at <= chars@.len(),
            forall|k: int| 0 <= k < at ==> chars@[k] != '=',
        decreases chars@.len() - at,
    {
        at = at + 1;
    }
    proof {
        lemma_split_at_first(chars@, '=', at as int);
    }
    if at < chars.len() {
        let all = chars.as_slice();
        let key = vstd::slice::slice_to_vec(vstd::slice::slice_subrange(all, 0, at));
        let value = vstd::slice::slice_to_vec(
            vstd::slice::slice_subrange(all, at + 1, all.len()),
        );
        assert(key@ =~= chars@.take(at as int));
        assert(value@ =~= chars@.skip(at + 1));
        Some((key, value))
    } else {
        None
    }
}

fn parse_byte(s: &[char]) -> (r: Option<u8>)
    ensures
        r == byte_of(s@),
{
    match text::parse_unsigned(s, 10, 255) {
        Some(v) => Some(v as u8),
        None => None,
    }
}

/// The path in sysfs of a device.
fn sysfs_path(devpath: &[char]) -> (r: SysfsPath)
    ensures
        r.0@ == "/sys/"@ + without_slashes(devpath@),
{
    let mut start: usize = 0;
    assert(devpath@.skip(0) =~= devpath@);
    while start < devpath.len() && devpath[start] == '/'
        invariant
            start <= devpath@.len(),
            without_slashes(devpath@.skip(start as int)) == without_slashes(devpath@),
        decreases devpath@.len() - start,
    {
        assert(devpath@.skip(start as int).drop_first() =~= devpath@.skip(start + 1));
        start = start + 1;
    }
    let rest = vstd::slice::slice_subrange(devpath, start, devpath.len());
    assert(rest@ =~= devpath@.skip(start as int));
    let mut path = String::from_str("/sys/");
    let tail = text::string_of(rest);
    path.append(tail.as_str());
    SysfsPath(path)
}

proof fn lemma_rejected_stays(entries: Seq<Seq<u8>>, i: int)
    requires
        0 <= i <= entries.len(),
        seen_in(entries.take(i)) is None,
    ensures
        seen_in(entries) is None,
    decreases entries.len(),
{
    if i < entries.len() {
        assert(entries.drop_last().take(i) =~= entries.take(i));
        lemma_rejected_stays(entries.drop_last(), i);
    } else {
        assert(entries.take(i) =~= entries);
    }
}

/// Find out what happened from the properties of a message, which are at the place given.
#[verifier::loop_isolation(false)]
pub fn parse_packet_at(buf: &[u8], off: u32, len: u32) -> (r: Option<Uevent>)
    ensures
        opt_uevent(r) == event_at(buf@, off, len),
{
    if off as u64 + len as u64 > buf.len() as u64 {
        return None;
    }
    let properties = vstd::slice::slice_subrange(
        buf,
        off as usize,
        (off as u64 + len as u64) as usize,
    );
    let entries = text::split_bytes(properties, 0);
    let ghost all = text::views(entries@);
    let mut is_add: Option<bool> = None;
    let mut busnum: Option<u8> = None;
    let mut devnum: Option<u8> = None;
    let mut devpath: Option<Vec<char>> = None;
    let mut i: usize = 0;
    assert(all.take(0) =~= seq![]);
    while i < entries.len()
        invariant
            i <= entries@.len(),
            all == text::views(entries@),
            seen_in(all.take(i as int)) == Some(
                (Seen {
                    is_add,
                    busnum,
                    devnum,
                    devpath: match devpath {
                        Some(p) => Some(p@),
                        None => None,
                    },
                }),
            ),
        decreases entries@.len() - i,
    {
        let ghost upto = all.take(i + 1);
        proof {
            assert(upto.drop_last() =~= all.take(i as int));
            assert(upto.last() == entries@[i as int]@);
            if seen_in(upto) is None {
                lemma_rejected_stays(all, i + 1);
            }
        }
        if let Some((key, value)) = parse_property(entries[i].as_slice()) {
            let k = key.as_slice();
            let v = value.as_slice();
            if text::is_word(k, "SUBSYSTEM") {
                if !text::is_word(v, "usb") {
                    return None;
                }
            } else if text::is_word(k, "DEVTYPE") {
                if !text::is_word(v, "usb_device") {
                    return None;
                }
            } else if text::is_word(k, "ACTION") {
                if text::is_word(v, "add") {
                    is_add = Some(true);
                } else if text::is_word(v, "remove") {
                    is_add = Some(false);
                } else {
                    return None;
                }
            } else if text::is_word(k, "BUSNUM") {
                busnum = parse_byte(v);
            } else if text::is_word(k, "DEVNUM") {
                devnum = parse_byte(v);
            } else if text::is_word(k, "DEVPATH") {
                devpath = Some(value);
            }
        }
        i = i + 1;
    }
    assert(all.take(i as int) =~= all);
    match (is_add, busnum, devnum, devpath) {
        (Some(true), Some(_), Some(_), Some(devpath)) => Some(
            Uevent::Add(sysfs_path(devpath.as_slice())),
        ),
        (Some(false), Some(bus), Some(addr), Some(_)) => Some(Uevent::Remove { bus, addr }),
        _ => None,
    }
}

fn starts_with_magic(buf: &[u8]) -> (r: bool)
    requires
        buf@.len() >= 12,
    ensures
        r == (buf@.take(12) == udev_magic()),
{
    let r: bool = buf[0] == 0x6c && buf[1] == 0x69 && buf[2] == 0x62 && buf[3] == 0x75 && buf[4]
        == 0x64 && buf[5] == 0x65 && buf[6] == 0x76 && buf[7] == 0 && buf[8] == 0xfe && buf[9]
        == 0xed && buf[10] == 0xca && buf[11] == 0xfe;
    proof {
        if r {
            assert(buf@.take(12) =~= udev_magic());
        } else {
            let t = buf@.take(12);
            assert(t[0] == buf@[0] && t[1] == buf@[1] && t[2] == buf@[2] && t[3] == buf@[3] && t[4]
                == buf@[4] && t[5] == buf@[5] && t[6] == buf@[6] && t[7] == buf@[7] && t[8]
                == buf@[8] && t[9] == buf@[9] && t[10] == buf@[10] && t[11] == buf@[11]);
        }
    }
    r
}

/// The number that is stored in these bytes, with the lowest byte first or last.
pub open spec fn stored(b: Seq<u8>, little: bool) -> u32 {
    if little {
        le32(b)
    } else {
        be32(b)
    }
}

/// What happened, by a message of udev from a machine of a byte order: the header says where the
/// properties are, in that order.
pub open spec fn event_in(buf: Seq<u8>, little: bool) -> Option<UeventModel> {
    if has_header(buf) {
        event_at(buf, stored(buf.subrange(16, 20), little), stored(buf.subrange(20, 24), little))
    } else {
        None
    }
}

/// A message of udev begins with its name and a number, and then says where its properties are, with
/// the lowest byte of the place and of the length first or last. Any other message is none of it.
pub proof fn law_header_says_where(buf: Seq<u8>)
    ensures
        buf.len() < 24 ==> event_in(buf, true) is None && event_in(buf, false) is None,
        buf.len() >= 24 ==> if buf.take(12) == seq![
            0x6cu8,
            0x69,
            0x62,
            0x75,
            0x64,
            0x65,
            0x76,
            0,
            0xfe,
            0xed,
            0xca,
            0xfe,
        ] {
            &&& event_in(buf, true) == event_at(
                buf,
                (buf[16] + 256 * buf[17] + 65536 * buf[18] + 16777216 * buf[19]) as u32,
                (buf[20] + 256 * buf[21] + 65536 * buf[22] + 16777216 * buf[23]) as u32,
            )
            &&& event_in(buf, false) == event_at(
                buf,
                (buf[19] + 256 * buf[18] + 65536 * buf[17] + 16777216 * buf[16]) as u32,
                (buf[23] + 256 * buf[22] + 65536 * buf[21] + 16777216 * buf[20]) as u32,
            )
        } else {
            event_in(buf, true) is None && event_in(buf, false) is None
        },
        forall|off: u32, len: u32| off + len > buf.len() ==> (#[trigger] event_at(buf, off, len))
            is None,
{
}

/// Whether this machine has the lowest byte of a number first.
fn is_little_endian() -> bool {
    from_ne_bytes([1, 0, 0, 0]) == 1
}

fn read_stored(buf: &[u8], at: usize, little: bool) -> (r: u32)
    requires
        at + 4 <= buf@.len(),
    ensures
        r == stored(buf@.subrange(at as int, at + 4), little),
{
    let (a, b, c, d): (u32, u32, u32, u32) = (
        buf[at] as u32,
        buf[at + 1] as u32,
        buf[at + 2] as u32,
        buf[at + 3] as u32,
    );
    if little {
        a + 0x100 * b + 0x1_0000 * c + 0x100_0000 * d
    } else {
        d + 0x100 * c + 0x1_0000 * b + 0x100_0000 * a
    }
}

/// Find out what happened from a message of udev, from a machine of the byte order given.
pub fn parse_packet_in(buf: &[u8], little: bool) -> (r: Option<Uevent>)
    ensures
        opt_uevent(r) == event_in(buf@, little),
{
    if buf.len() < 24 {
        return None;
    }
    if !starts_with_magic(buf) {
        return None;
    }
    let off: u32 = read_stored(buf, 16, little);
    let len: u32 = read_stored(buf, 20, little);
    parse_packet_at(buf, off, len)
}

/// Find out what happened from a message of udev, in the byte order of this machine.
pub fn parse_packet(buf: &[u8]) -> (r: Option<Uevent>)
    ensures
        exists|little: bool| opt_uevent(r) == #[trigger] event_in(buf@, little),
{
    let little: bool = is_little_endian();
    let r = parse_packet_in(buf, little);
    assert(opt_uevent(r) == event_in(buf@, little));
    r
}

/// Find out what happened from a message of udev that was sent to the multicast groups given. Any
/// that was not sent to the group of udev may be from anywhere, and is rejected.
pub fn receive(data: &[u8], groups: Option<u32>) -> (r: Option<Uevent>)
    ensures
        groups != Some(UDEV_MULTICAST_GROUP) ==> r is None,
        groups != Some(2u32) ==> r is None,
        groups == Some(UDEV_MULTICAST_GROUP) ==> exists|little: bool|
            opt_uevent(r) == #[trigger] event_in(data@, little),
{
    match groups {
        Some(groups) => if groups == UDEV_MULTICAST_GROUP {
            parse_packet(data)
        } else {
            None
        },
        None => None,
    }
}

/// The event for what happened. For a device that came, its attributes are needed; there is no
/// event if they are not those of a device.
pub fn event_of(event: Uevent, attrs: &DeviceAttrs) -> (r: Option<HotplugEvent>)
    ensures
        match event {
            Uevent::Remove { bus, addr } => r matches Some(HotplugEvent::Disconnected(id)) && id
                == DeviceId(PlatformDeviceId::Bus(bus, addr)),
            Uevent::Add(path) => match r {
                Some(HotplugEvent::Connected(d)) => super::enumeration::device_of(
                    path.0@,
                    *attrs,
                    d@.interfaces,
                ) == Ok::<DeviceInfoModel, super::enumeration::SysfsFailure>(d@)
                    && super::enumeration::by_number(d@.interfaces)
                    && d@.interfaces.to_multiset() == super::enumeration::interfaces_in(
                    attrs.children@,
                ).to_multiset(),
                Some(_) => false,
                None => super::enumeration::device_of(path.0@, *attrs, seq![]) is Err,
            },
        },
        event is Add ==> (r matches Some(HotplugEvent::Connected(d)) ==> {
            &&& d.platform matches PlatformInfo::Linux { path, busnum } && path.0@ == event->Add_0.0@
                && (attrs.busnum matches Ok(c) && text::unsigned_value(text::trimmed(c@), 10, 255)
                == Some(busnum as nat))
            &&& attrs.devnum matches Ok(c) && text::unsigned_value(text::trimmed(c@), 10, 255)
                == Some(d.device_address as nat)
        }),
{
    match event {
        Uevent::Remove { bus, addr } => Some(
            HotplugEvent::Disconnected(DeviceId(PlatformDeviceId::Bus(bus, addr))),
        ),
        Uevent::Add(path) => match probe_device(path, attrs) {
            Ok(d) => Some(HotplugEvent::Connected(d)),
            Err(_) => None,
        },
    }
}

} // verus!
