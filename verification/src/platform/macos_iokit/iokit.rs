//! Objects of IOKit and the errors that it returns.

use vstd::prelude::*;

use crate::error::{Error, ErrorKind};

use super::{IoReturn, IoReturnKind};

verus! {

/// The handle of an object.
#[derive(Debug)]
pub struct IoObject(u32);

impl View for IoObject {
    type V = u32;

    closed spec fn view(&self) -> u32 {
        self.0
    }
}

impl IoObject {
    /// The object with a handle.
    pub fn new(handle: u32) -> (r: IoObject)
        ensures
            r@ == handle,
    {
        IoObject(handle)
    }

    /// The handle.
    pub fn get(&self) -> (r: u32)
        ensures
            r == self@,
    {
        self.0
    }
}

/// The handle of a service.
#[derive(Debug)]
pub struct IoService(IoObject);

impl View for IoService {
    type V = u32;

    closed spec fn view(&self) -> u32 {
        self.0@
    }
}

impl IoService {
    /// The service with a handle.
    pub fn new(handle: u32) -> (r: IoService)
        ensures
            r@ == handle,
    {
        IoService(IoObject::new(handle))
    }

    /// The service that an iterator gave as a handle: none if it is zero.
    pub fn from_iterator(handle: u32) -> (r: Option<IoService>)
        ensures
            handle == 0 ==> r is None,
            handle != 0 ==> r is Some && r->0@ == handle,
    {
        if handle != 0 {
            Some(IoService::new(handle))
        } else {
            None
        }
    }

    /// The handle.
    pub fn get(&self) -> (r: u32)
        ensures
            r == self@,
    {
        self.0.get()
    }
}

/// Whether an error is the one that a return code stands for.
pub open spec fn is_iokit_error(e: Error, r: IoReturn) -> bool {
    if r.kind == IoReturnKind::ExclusiveAccess {
        e.is(ErrorKind::Other, None, "Could not be opened for exclusive access"@)
    } else {
        e.is(ErrorKind::Other, crate::error::os_code(r.code as u32), "IOKit call failed"@)
    }
}

/// A device that another program has for itself cannot be opened; any other failure comes out with its
/// code.
pub proof fn law_errors_have_return_code(e: Error, r: IoReturn)
    requires
        is_iokit_error(e, r),
    ensures
        e.kind == ErrorKind::Other,
        r.kind == IoReturnKind::ExclusiveAccess ==> e.code is None && e.message@
            == "Could not be opened for exclusive access"@,
        r.kind != IoReturnKind::ExclusiveAccess ==> e.code == crate::error::os_code(r.code as u32)
            && e.message@ == "IOKit call failed"@,
{
}

/// The error that a return code stands for, if it does for one.
pub fn check_iokit_return(r: IoReturn) -> (res: Result<(), Error>)
    ensures
        match res {
            Ok(_) => r.kind == IoReturnKind::Success,
            Err(e) => r.kind != IoReturnKind::Success && is_iokit_error(e, r),
        },
        res matches Err(e) ==> e.kind == ErrorKind::Other && if r.kind
            == IoReturnKind::ExclusiveAccess {
            e.code is None && e.message@ == "Could not be opened for exclusive access"@
        } else {
            e.code == crate::error::os_code(r.code as u32) && e.message@ == "IOKit call failed"@
        },
{
    match r.kind {
        IoReturnKind::Success => Ok(()),
        IoReturnKind::ExclusiveAccess => Err(
            Error::new(ErrorKind::Other, "Could not be opened for exclusive access"),
        ),
        _ => Err(Error::new_os(ErrorKind::Other, "IOKit call failed", r.code as u32)),
    }
}

} // verus!
