//! macOS, through IOKit.

use vstd::prelude::*;

use crate::text;
use crate::transfer::TransferError;

pub mod device;
pub mod enumeration;
pub mod hotplug;
pub mod iokit;
pub mod iokit_c;
pub mod iokit_usb;
pub mod termination;
pub mod transfer;

verus! {

/// Device ID is the registry entry ID
pub type DeviceId = u64;

/// The condition that a return code of IOKit stands for, as far as it matters here.
#[derive(Debug, Copy, Clone, PartialEq, Eq, Structural)]
pub enum IoReturnKind {
    Success,
    Underrun,
    NoDevice,
    Aborted,
    PipeStalled,
    ExclusiveAccess,
    NoResources,
    Other,
}

/// A return code of IOKit, and the condition that it stands for.
#[derive(Debug, Copy, Clone, PartialEq, Eq, Structural)]
pub struct IoReturn {
    pub code: i32,
    pub kind: IoReturnKind,
}

/// What a transfer came to, by its return code.
pub open spec fn transfer_result_of(status: IoReturn) -> Result<(), TransferError> {
    match status.kind {
        IoReturnKind::Success | IoReturnKind::Underrun => Ok(()),
        IoReturnKind::NoDevice => Err(TransferError::Disconnected),
        IoReturnKind::Aborted => Err(TransferError::Cancelled),
        IoReturnKind::PipeStalled => Err(TransferError::Stall),
        _ => Err(TransferError::Unknown(status.code as u32)),
    }
}

/// A transfer went well if the return code says so, or that less was received than asked for; otherwise
/// the code stands for the transfer error that says the same, or comes out as it is.
pub proof fn law_return_codes_have_transfer_errors(status: IoReturn)
    ensures
        ({
            let r = transfer_result_of(status);
            &&& r is Ok <==> status.kind == IoReturnKind::Success || status.kind
                == IoReturnKind::Underrun
            &&& r == Err::<(), TransferError>(TransferError::Disconnected) <==> status.kind
                == IoReturnKind::NoDevice
            &&& r == Err::<(), TransferError>(TransferError::Cancelled) <==> status.kind
                == IoReturnKind::Aborted
            &&& r == Err::<(), TransferError>(TransferError::Stall) <==> status.kind
                == IoReturnKind::PipeStalled
            &&& r == Err::<(), TransferError>(TransferError::Unknown(status.code as u32)) <==> (
            status.kind == IoReturnKind::ExclusiveAccess || status.kind == IoReturnKind::NoResources
                || status.kind == IoReturnKind::Other)
        }),
{
}

/// What a transfer came to, by its return code.
pub fn status_to_transfer_result(status: IoReturn) -> (r: Result<(), TransferError>)
    ensures
        r == transfer_result_of(status),
        r is Ok <==> status.kind == IoReturnKind::Success || status.kind == IoReturnKind::Underrun,
        r == Err::<(), TransferError>(TransferError::Disconnected) <==> status.kind
            == IoReturnKind::NoDevice,
        r == Err::<(), TransferError>(TransferError::Cancelled) <==> status.kind
            == IoReturnKind::Aborted,
        r == Err::<(), TransferError>(TransferError::Stall) <==> status.kind
            == IoReturnKind::PipeStalled,
        r == Err::<(), TransferError>(TransferError::Unknown(status.code as u32)) <==> status.kind
            == IoReturnKind::ExclusiveAccess || status.kind == IoReturnKind::NoResources
            || status.kind == IoReturnKind::Other,
{
    match status.kind {
        IoReturnKind::Success | IoReturnKind::Underrun => Ok(()),
        IoReturnKind::NoDevice => Err(TransferError::Disconnected),
        IoReturnKind::Aborted => Err(TransferError::Cancelled),
        IoReturnKind::PipeStalled => Err(TransferError::Stall),
        _ => Err(TransferError::Unknown(status.code as u32)),
    }
}

/// A version of the operating system.
#[derive(Debug, Copy, Clone, PartialEq, Eq, Structural)]
pub struct OsVersion {
    pub major: u8,
    pub minor: u8,
    pub patch: u8,
}

/// The number that a part of a version is.
pub open spec fn version_part(parts: Seq<Seq<char>>, i: int) -> Option<u8> {
    if i < parts.len() {
        match text::unsigned_value(parts[i], 10, 255) {
            Some(v) => Some(v as u8),
            None => None,
        }
    } else {
        None
    }
}

/// The version in `kern.osproductversion`, which has three parts.
pub open spec fn product_version(s: Seq<char>) -> Option<OsVersion> {
    let parts = text::parts(s, '.');
    match (version_part(parts, 0), version_part(parts, 1), version_part(parts, 2)) {
        (Some(major), Some(minor), Some(patch)) => Some(OsVersion { major, minor, patch }),
        _ => None,
    }
}

/// The version of macOS that has a version of Darwin.
pub open spec fn version_of_darwin(darwin_major: u8, darwin_minor: u8) -> OsVersion {
    if darwin_major == 1 && darwin_minor < 4 {
        OsVersion { major: 10, minor: 0, patch: 0 }
    } else if darwin_major < 6 {
        OsVersion { major: 10, minor: 1, patch: 0 }
    } else if darwin_major < 20 {
        OsVersion { major: 10, minor: (darwin_major - 4) as u8, patch: darwin_minor }
    } else {
        OsVersion { major: (darwin_major - 9) as u8, minor: darwin_minor, patch: 0 }
    }
}

/// The version by `kern.osrelease`, which is the version of Darwin.
pub open spec fn release_version(s: Seq<char>) -> Option<OsVersion> {
    let parts = text::parts(s, '.');
    match (version_part(parts, 0), version_part(parts, 1)) {
        (Some(major), Some(minor)) => Some(version_of_darwin(major, minor)),
        _ => None,
    }
}

/// A version has its numbers between dots: the first is the major, the second the minor and the third
/// the patch version. Without one of them, or with one that is no number of a byte, there is no version.
pub proof fn law_versions_are_between_dots(s: Seq<char>)
    ensures
        ({
            let parts = text::parts(s, '.');
            let number = |i: int| text::unsigned_value(parts[i], 10, 255);
            match product_version(s) {
                Some(v) => parts.len() >= 3 && number(0) == Some(v.major as nat) && number(1) == Some(
                    v.minor as nat,
                ) && number(2) == Some(v.patch as nat),
                None => parts.len() < 3 || number(0) is None || number(1) is None || number(2) is None,
            }
        }),
        ({
            let parts = text::parts(s, '.');
            let number = |i: int| text::unsigned_value(parts[i], 10, 255);
            match release_version(s) {
                Some(v) => parts.len() >= 2 && number(0) is Some && number(1) is Some && v
                    == version_of_darwin(number(0)->0 as u8, number(1)->0 as u8),
                None => parts.len() < 2 || number(0) is None || number(1) is None,
            }
        }),
{
    let parts = text::parts(s, '.');
    lemma_part_is_byte(parts, 0);
    lemma_part_is_byte(parts, 1);
    lemma_part_is_byte(parts, 2);
}

proof fn lemma_part_is_byte(parts: Seq<Seq<char>>, i: int)
    ensures
        text::unsigned_value(parts[i], 10, 255) matches Some(v) ==> v <= 255,
{
}

/// From Darwin 20 on, the major version of macOS is 9 less, and the minor version is that of Darwin.
/// Before, it is macOS 10, and the minor version is 4 less than the major version of Darwin, or 1 or 0
/// for the first few.
pub proof fn law_darwin_has_version(darwin_major: u8, darwin_minor: u8)
    ensures
        ({
            let v = version_of_darwin(darwin_major, darwin_minor);
            &&& darwin_major >= 20 ==> v.major == darwin_major - 9 && v.minor == darwin_minor
                && v.patch == 0
            &&& 6 <= darwin_major < 20 ==> v.major == 10 && v.minor == darwin_major - 4 && v.patch
                == darwin_minor
            &&& darwin_major < 6 ==> v.major == 10 && v.patch == 0 && v.minor == if darwin_major == 1
                && darwin_minor < 4 {
                0int
            } else {
                1
            }
        }),
{
}

fn read_part(parts: &Vec<Vec<char>>, i: usize) -> (r: Option<u8>)
    ensures
        r == version_part(text::views(parts@), i as int),
{
    let ghost all = text::views(parts@);
    if i < parts.len() {
        assert(all[i as int] == parts@[i as int]@);
        match text::parse_unsigned(parts[i].as_slice(), 10, 255) {
            Some(v) => Some(v as u8),
            None => None,
        }
    } else {
        None
    }
}

/// The version in `kern.osproductversion`.
pub fn read_osproductversion(s: &str) -> (r: Option<OsVersion>)
    ensures
        r == product_version(s@),
{
    let chars = text::chars_of(s);
    let parts = text::split(chars.as_slice(), '.');
    match (read_part(&parts, 0), read_part(&parts, 1), read_part(&parts, 2)) {
        (Some(major), Some(minor), Some(patch)) => Some(OsVersion { major, minor, patch }),
        _ => None,
    }
}

/// The version by `kern.osrelease`.
pub fn read_osrelease(s: &str) -> (r: Option<OsVersion>)
    ensures
        r == release_version(s@),
{
    let chars = text::chars_of(s);
    let parts = text::split(chars.as_slice(), '.');
    match (read_part(&parts, 0), read_part(&parts, 1)) {
        (Some(darwin_major), Some(darwin_minor)) => {
            let version = if darwin_major == 1 && darwin_minor < 4 {
                OsVersion { major: 10, minor: 0, patch: 0 }
            } else if darwin_major < 6 {
                OsVersion { major: 10, minor: 1, patch: 0 }
            } else if darwin_major < 20 {
                OsVersion { major: 10, minor: darwin_major - 4, patch: darwin_minor }
            } else {
                OsVersion { major: darwin_major - 9, minor: darwin_minor, patch: 0 }
            };
            Some(version)
        },
        _ => None,
    }
}

/// The version of the operating system, by what `kern.osproductversion` and `kern.osrelease` say,
/// where they could be read. If neither says it, it is taken to be 10.0.0.
pub fn os_version(product: Option<&str>, release: Option<&str>) -> (r: OsVersion)
    ensures
        r == match product {
            Some(p) if product_version(p@) is Some => product_version(p@)->0,
            _ => match release {
                Some(s) if release_version(s@) is Some => release_version(s@)->0,
                _ => OsVersion { major: 10, minor: 0, patch: 0 },
            },
        },
{
    if let Some(product) = product {
        if let Some(version) = read_osproductversion(product) {
            return version;
        }
    }
    if let Some(release) = release {
        if let Some(version) = read_osrelease(release) {
            return version;
        }
    }
    OsVersion { major: 10, minor: 0, patch: 0 }
}

} // verus!
