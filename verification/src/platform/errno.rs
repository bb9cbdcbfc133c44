//! Error numbers of Unix systems.

use rustix::io::Errno as RawErrno;
use vstd::prelude::*;

use crate::error::{Error, ErrorKind};
use crate::transfer::TransferError;

verus! {

/// The condition that an error number stands for, as far as it matters here.
#[derive(Debug, Copy, Clone, PartialEq, Eq, Structural)]
pub enum ErrnoKind {
    Again,
    Busy,
    Canceled,
    Comm,
    ConnReset,
    IlSeq,
    Inval,
    NoData,
    NoDev,
    NoEnt,
    Overflow,
    Perm,
    Pipe,
    Proto,
    Shutdown,
    Time,
    TimedOut,
    Other,
}

/// An error number, and the condition that it stands for.
#[derive(Debug, Copy, Clone, PartialEq, Eq, Structural)]
pub struct Errno {
    pub code: u32,
    pub kind: ErrnoKind,
}

/// The numbers that a system has for the conditions that matter here.
#[derive(Debug, Copy, Clone, PartialEq, Eq, Structural)]
pub struct ErrnoNumbers {
    pub again: i32,
    pub busy: i32,
    pub canceled: i32,
    pub comm: i32,
    pub conn_reset: i32,
    pub il_seq: i32,
    pub inval: i32,
    pub no_data: i32,
    pub no_dev: i32,
    pub no_ent: i32,
    pub overflow: i32,
    pub perm: i32,
    pub pipe: i32,
    pub proto: i32,
    pub shutdown: i32,
    pub time: i32,
    pub timed_out: i32,
}

/// The numbers that `rustix::io::Errno` has for its constants, by
/// `rustix::io::Errno::raw_os_error`. No two of them are the same on any system. Which number
/// stands for which condition differs from system to system, so nothing is claimed of that.
/// Not every Unix has all of these constants; Linux, Android and illumos do.
#[verifier::external_body]
fn system_numbers() -> (r: ErrnoNumbers)
    ensures
        r.are_distinct(),
{
    ErrnoNumbers {
        again: RawErrno::AGAIN.raw_os_error(), busy: RawErrno::BUSY.raw_os_error(),
        canceled: RawErrno::CANCELED.raw_os_error(), comm: RawErrno::COMM.raw_os_error(),
        conn_reset: RawErrno::CONNRESET.raw_os_error(), il_seq: RawErrno::ILSEQ.raw_os_error(),
        inval: RawErrno::INVAL.raw_os_error(), no_data: RawErrno::NODATA.raw_os_error(),
        no_dev: RawErrno::NODEV.raw_os_error(), no_ent: RawErrno::NOENT.raw_os_error(),
        overflow: RawErrno::OVERFLOW.raw_os_error(), perm: RawErrno::PERM.raw_os_error(),
        pipe: RawErrno::PIPE.raw_os_error(), proto: RawErrno::PROTO.raw_os_error(),
        shutdown: RawErrno::SHUTDOWN.raw_os_error(), time: RawErrno::TIME.raw_os_error(),
        timed_out: RawErrno::TIMEDOUT.raw_os_error(),
    }
}

impl ErrnoNumbers {
    /// The numbers, one after the other.
    pub open spec fn all(self) -> Seq<i32> {
        seq![
            self.again,
            self.busy,
            self.canceled,
            self.comm,
            self.conn_reset,
            self.il_seq,
            self.inval,
            self.no_data,
            self.no_dev,
            self.no_ent,
            self.overflow,
            self.perm,
            self.pipe,
            self.proto,
            self.shutdown,
            self.time,
            self.timed_out,
        ]
    }

    /// Whether every condition has a number of its own.
    pub open spec fn are_distinct(self) -> bool {
        self.all().no_duplicates()
    }

    /// The numbers of this system.
    pub fn of_system() -> (r: ErrnoNumbers)
        ensures
            r.are_distinct(),
    {
        system_numbers()
    }
}

/// The condition that a number stands for on a system with these numbers.
pub open spec fn kind_of(code: i32, n: ErrnoNumbers) -> ErrnoKind {
    if code == n.again {
        ErrnoKind::Again
    } else if code == n.busy {
        ErrnoKind::Busy
    } else if code == n.canceled {
        ErrnoKind::Canceled
    } else if code == n.comm {
        ErrnoKind::Comm
    } else if code == n.conn_reset {
        ErrnoKind::ConnReset
    } else if code == n.il_seq {
        ErrnoKind::IlSeq
    } else if code == n.inval {
        ErrnoKind::Inval
    } else if code == n.no_data {
        ErrnoKind::NoData
    } else if code == n.no_dev {
        ErrnoKind::NoDev
    } else if code == n.no_ent {
        ErrnoKind::NoEnt
    } else if code == n.overflow {
        ErrnoKind::Overflow
    } else if code == n.perm {
        ErrnoKind::Perm
    } else if code == n.pipe {
        ErrnoKind::Pipe
    } else if code == n.proto {
        ErrnoKind::Proto
    } else if code == n.shutdown {
        ErrnoKind::Shutdown
    } else if code == n.time {
        ErrnoKind::Time
    } else if code == n.timed_out {
        ErrnoKind::TimedOut
    } else {
        ErrnoKind::Other
    }
}

/// The error with a number on a system with these numbers.
pub open spec fn errno_of(code: i32, n: ErrnoNumbers) -> Errno {
    Errno { code: code as u32, kind: kind_of(code, n) }
}

impl Errno {
    /// The error with a number on a system with these numbers.
    pub fn from_raw_os_error(code: i32, n: &ErrnoNumbers) -> (r: Errno)
        ensures
            r == errno_of(code, *n),
            r.code == code as u32,
            r.kind == kind_of(code, *n),
    {
        let kind = if code == n.again {
            ErrnoKind::Again
        } else if code == n.busy {
            ErrnoKind::Busy
        } else if code == n.canceled {
            ErrnoKind::Canceled
        } else if code == n.comm {
            ErrnoKind::Comm
        } else if code == n.conn_reset {
            ErrnoKind::ConnReset
        } else if code == n.il_seq {
            ErrnoKind::IlSeq
        } else if code == n.inval {
            ErrnoKind::Inval
        } else if code == n.no_data {
            ErrnoKind::NoData
        } else if code == n.no_dev {
            ErrnoKind::NoDev
        } else if code == n.no_ent {
            ErrnoKind::NoEnt
        } else if code == n.overflow {
            ErrnoKind::Overflow
        } else if code == n.perm {
            ErrnoKind::Perm
        } else if code == n.pipe {
            ErrnoKind::Pipe
        } else if code == n.proto {
            ErrnoKind::Proto
        } else if code == n.shutdown {
            ErrnoKind::Shutdown
        } else if code == n.time {
            ErrnoKind::Time
        } else if code == n.timed_out {
            ErrnoKind::TimedOut
        } else {
            ErrnoKind::Other
        };
        Errno { code: code as u32, kind }
    }
}

/// Conditions are told apart by their numbers: on every system, the number that it has for a
/// condition stands for that condition alone, and any other number for none of them.
pub proof fn law_numbers_stand_for_conditions(n: ErrnoNumbers, code: i32)
    requires
        n.are_distinct(),
    ensures
        kind_of(code, n) == ErrnoKind::Again <==> code == n.again,
        kind_of(code, n) == ErrnoKind::Busy <==> code == n.busy,
        kind_of(code, n) == ErrnoKind::Canceled <==> code == n.canceled,
        kind_of(code, n) == ErrnoKind::Comm <==> code == n.comm,
        kind_of(code, n) == ErrnoKind::ConnReset <==> code == n.conn_reset,
        kind_of(code, n) == ErrnoKind::IlSeq <==> code == n.il_seq,
        kind_of(code, n) == ErrnoKind::Inval <==> code == n.inval,
        kind_of(code, n) == ErrnoKind::NoData <==> code == n.no_data,
        kind_of(code, n) == ErrnoKind::NoDev <==> code == n.no_dev,
        kind_of(code, n) == ErrnoKind::NoEnt <==> code == n.no_ent,
        kind_of(code, n) == ErrnoKind::Overflow <==> code == n.overflow,
        kind_of(code, n) == ErrnoKind::Perm <==> code == n.perm,
        kind_of(code, n) == ErrnoKind::Pipe <==> code == n.pipe,
        kind_of(code, n) == ErrnoKind::Proto <==> code == n.proto,
        kind_of(code, n) == ErrnoKind::Shutdown <==> code == n.shutdown,
        kind_of(code, n) == ErrnoKind::Time <==> code == n.time,
        kind_of(code, n) == ErrnoKind::TimedOut <==> code == n.timed_out,
        kind_of(code, n) == ErrnoKind::Other <==> !n.all().contains(code),
{
    let all = n.all();
    assert(all[0] == n.again);
    assert(all[1] == n.busy);
    assert(all[2] == n.canceled);
    assert(all[3] == n.comm);
    assert(all[4] == n.conn_reset);
    assert(all[5] == n.il_seq);
    assert(all[6] == n.inval);
    assert(all[7] == n.no_data);
    assert(all[8] == n.no_dev);
    assert(all[9] == n.no_ent);
    assert(all[10] == n.overflow);
    assert(all[11] == n.perm);
    assert(all[12] == n.pipe);
    assert(all[13] == n.proto);
    assert(all[14] == n.shutdown);
    assert(all[15] == n.time);
    assert(all[16] == n.timed_out);
}

/// The transfer error that an error number stands for on every system.
pub open spec fn common_transfer_error(e: Errno) -> TransferError {
    match e.kind {
        ErrnoKind::NoDev | ErrnoKind::Shutdown => TransferError::Disconnected,
        ErrnoKind::Pipe => TransferError::Stall,
        ErrnoKind::NoEnt | ErrnoKind::ConnReset | ErrnoKind::TimedOut => TransferError::Cancelled,
        ErrnoKind::Proto | ErrnoKind::IlSeq | ErrnoKind::Overflow | ErrnoKind::Comm
        | ErrnoKind::Time => TransferError::Fault,
        _ => TransferError::Unknown(e.code),
    }
}

/// An error number stands for the transfer error that says the same, on every system, and one that
/// stands for none comes out as it is.
pub proof fn law_conditions_have_transfer_errors(e: Errno)
    ensures
        ({
            let r = common_transfer_error(e);
            &&& r == TransferError::Disconnected <==> e.kind == ErrnoKind::NoDev || e.kind
                == ErrnoKind::Shutdown
            &&& r == TransferError::Stall <==> e.kind == ErrnoKind::Pipe
            &&& r == TransferError::Cancelled <==> e.kind == ErrnoKind::NoEnt || e.kind
                == ErrnoKind::ConnReset || e.kind == ErrnoKind::TimedOut
            &&& r == TransferError::Fault <==> e.kind == ErrnoKind::Proto || e.kind
                == ErrnoKind::IlSeq || e.kind == ErrnoKind::Overflow || e.kind == ErrnoKind::Comm
                || e.kind == ErrnoKind::Time
            &&& r != TransferError::InvalidArgument
            &&& r is Unknown ==> r == TransferError::Unknown(e.code)
        }),
{
}

/// A device that cannot be opened is gone if there is no such file, and may not be opened if there is no
/// permission; the error has the number that was given.
pub proof fn law_open_errors_tell_why(r: Error, e: Errno)
    requires
        is_open_error(r, e),
    ensures
        r.code == crate::error::os_code(e.code),
        r.kind == ErrorKind::Disconnected <==> e.kind == ErrnoKind::NoEnt,
        r.kind == ErrorKind::PermissionDenied <==> e.kind == ErrnoKind::Perm,
        r.kind == ErrorKind::Other <==> e.kind != ErrnoKind::NoEnt && e.kind != ErrnoKind::Perm,
{
}

/// The error for a device that could not be opened.
pub open spec fn is_open_error(r: Error, e: Errno) -> bool {
    match e.kind {
        ErrnoKind::NoEnt => r.is(ErrorKind::Disconnected, crate::error::os_code(e.code), "device not found"@),
        ErrnoKind::Perm => r.is(ErrorKind::PermissionDenied, crate::error::os_code(e.code), "permission denied"@),
        _ => r.is(ErrorKind::Other, crate::error::os_code(e.code), "failed to open device"@),
    }
}

/// The error for a device that could not be opened.
pub fn open_error(e: Errno) -> (r: Error)
    ensures
        is_open_error(r, e),
        r.code == crate::error::os_code(e.code),
        r.kind == ErrorKind::Disconnected <==> e.kind == ErrnoKind::NoEnt,
        r.kind == ErrorKind::PermissionDenied <==> e.kind == ErrnoKind::Perm,
        r.kind == ErrorKind::Other <==> e.kind != ErrnoKind::NoEnt && e.kind != ErrnoKind::Perm,
        r.message@ == if e.kind == ErrnoKind::NoEnt {
            "device not found"@
        } else if e.kind == ErrnoKind::Perm {
            "permission denied"@
        } else {
            "failed to open device"@
        },
{
    match e.kind {
        ErrnoKind::NoEnt => Error::new_os(ErrorKind::Disconnected, "device not found", e.code),
        ErrnoKind::Perm => Error::new_os(ErrorKind::PermissionDenied, "permission denied", e.code),
        _ => Error::new_os(ErrorKind::Other, "failed to open device", e.code),
    }
}

} // verus!
