//! Devices and interfaces of IOKit.

use vstd::prelude::*;

use crate::error::{Error, ErrorKind};

use super::iokit::{self, check_iokit_return};
use super::{IoReturn, IoReturnKind};

verus! {

/// How often the plug-in of a device is asked for.
pub const MAX_ATTEMPTS: u8 = 5;

/// What comes of asking for the plug-in of a device or interface.
#[derive(Debug, Clone, Copy)]
pub enum Attempt {
    /// Ask again, after a while.
    Retry,
    Done(Result<(), Error>),
}

/// Whether this comes of asking for a plug-in, by the return code and whether there is one.
pub open spec fn is_plugin_result(r: Result<(), Error>, rc: IoReturn, has_plugin: bool) -> bool {
    if rc.kind != IoReturnKind::Success {
        r matches Err(e) && iokit::is_iokit_error(e, rc)
    } else if !has_plugin {
        r matches Err(e) && e.is(ErrorKind::Other, None, "Could not create PlugInInterface"@)
    } else {
        r is Ok
    }
}

/// A plug-in is there if asking for it went well and gave one; a failure comes out as it is, and one that
/// gave none is an error of its own.
pub proof fn law_plugin_is_there_or_not(r: Result<(), Error>, rc: IoReturn, has_plugin: bool)
    requires
        is_plugin_result(r, rc, has_plugin),
    ensures
        r is Ok <==> rc.kind == IoReturnKind::Success && has_plugin,
        rc.kind != IoReturnKind::Success ==> (r matches Err(e) && iokit::is_iokit_error(e, rc)),
        rc.kind == IoReturnKind::Success && !has_plugin ==> (r matches Err(e) && e.kind
            == ErrorKind::Other && e.code is None && e.message@
            == "Could not create PlugInInterface"@),
{
}

/// What comes of asking for the plug-in of an interface.
pub fn plugin_result(rc: IoReturn, has_plugin: bool) -> (r: Result<(), Error>)
    ensures
        is_plugin_result(r, rc, has_plugin),
        r is Ok <==> rc.kind == IoReturnKind::Success && has_plugin,
        r matches Err(e) ==> (rc.kind == IoReturnKind::Success ==> e.kind == ErrorKind::Other
            && e.code is None && e.message@ == "Could not create PlugInInterface"@),
        r matches Err(e) ==> (rc.kind != IoReturnKind::Success ==> iokit::is_iokit_error(e, rc)),
{
    match check_iokit_return(rc) {
        Ok(_) => {},
        Err(e) => return Err(e),
    }
    if !has_plugin {
        return Err(Error::new(ErrorKind::Other, "Could not create PlugInInterface"));
    }
    Ok(())
}

/// Asking for the plug-in of a device. It will sometimes not be there when a device is freshly
/// plugged in, so this is allowed a few retries.
#[derive(Debug, Clone, Copy, PartialEq, Eq, Structural)]
pub struct DeviceAttempts {
    pub made: u8,
}

impl DeviceAttempts {
    /// Before the first attempt.
    pub fn new() -> (r: DeviceAttempts)
        ensures
            r.made == 0,
    {
        DeviceAttempts { made: 0 }
    }

    /// Go on after an attempt.
    pub fn after(&mut self, rc: IoReturn, has_plugin: bool) -> (r: Attempt)
        requires
            old(self).made < MAX_ATTEMPTS,
        ensures
            final(self).made == old(self).made + 1,
            if rc.kind == IoReturnKind::NoResources {
                if final(self).made < MAX_ATTEMPTS {
                    r is Retry
                } else {
                    r matches Attempt::Done(Err(e)) && e.is(
                        ErrorKind::NotFound,
                        None,
                        "Couldn't create device after retries"@,
                    )
                }
            } else {
                r matches Attempt::Done(res) && is_plugin_result(res, rc, has_plugin)
            },
            r is Retry <==> rc.kind == IoReturnKind::NoResources && old(self).made < 4,
            r matches Attempt::Done(res) ==> (res is Ok <==> rc.kind == IoReturnKind::Success
                && has_plugin),
    {
        self.made = self.made + 1;
        if let IoReturnKind::NoResources = rc.kind {
            if self.made < MAX_ATTEMPTS {
                return Attempt::Retry;
            }
            return Attempt::Done(
                Err(Error::new(ErrorKind::NotFound, "Couldn't create device after retries")),
            );
        }
        Attempt::Done(plugin_result(rc, has_plugin))
    }
}

/// What IOKit says of an endpoint, and the number of the pipe to it.
#[derive(Debug, Clone, Copy, PartialEq, Eq, Structural)]
pub struct EndpointInfo {
    pub pipe_ref: u8,
    pub direction: u8,
    pub number: u8,
    pub transfer_type: u8,
    pub max_packet_size: u16,
    pub interval: u8,
    pub max_burst: u8,
    pub mult: u8,
    pub bytes_per_interval: u16,
}

impl EndpointInfo {
    /// The number of the endpoint, with the highest bit set if it is an IN endpoint.
    pub open spec fn address_of(self) -> u8 {
        if self.direction == 0 {
            self.number
        } else {
            self.number | 0x80
        }
    }

    /// The address of the endpoint.
    pub fn address(&self) -> (r: u8)
        ensures
            r == self.address_of(),
            self.direction == 0 ==> r == self.number,
            self.direction != 0 ==> r == if self.number >= 128 {
                self.number as int
            } else {
                self.number + 128
            },
    {
        proof {
            let n = self.number;
            assert(n | 0x80 == if n >= 128 {
                n as int
            } else {
                n + 128
            }) by (bit_vector);
        }
        if self.direction == 0 {
            self.number
        } else {
            self.number | 0x80
        }
    }
}

/// The endpoint with an address: the last one that has it.
pub open spec fn endpoint_at(endpoints: Seq<EndpointInfo>, address: u8) -> Option<EndpointInfo>
    decreases endpoints.len(),
{
    if endpoints.len() == 0 {
        None
    } else if endpoints.last().address_of() == address {
        Some(endpoints.last())
    } else {
        endpoint_at(endpoints.drop_last(), address)
    }
}

/// An endpoint is found by its address, the last one counting where several have it, and there is none
/// if none has it.
pub proof fn law_endpoint_is_found_by_address(endpoints: Seq<EndpointInfo>, address: u8, i: int)
    requires
        -1 <= i < endpoints.len(),
        i >= 0 ==> endpoints[i].address_of() == address,
        forall|j: int| i < j < endpoints.len() ==> (#[trigger] endpoints[j]).address_of() != address,
    ensures
        endpoint_at(endpoints, address) == if i >= 0 {
            Some(endpoints[i])
        } else {
            None
        },
    decreases endpoints.len(),
{
    if endpoints.len() > 0 && i < endpoints.len() - 1 {
        let before = endpoints.drop_last();
        assert(endpoints[endpoints.len() - 1].address_of() != address);
        assert forall|j: int| i < j < before.len() implies (#[trigger] before[j]).address_of()
            != address by {
            assert(before[j] == endpoints[j]);
        }
        law_endpoint_is_found_by_address(before, address, i);
    }
}

/// Find the endpoint with an address.
pub fn find_endpoint(endpoints: &[EndpointInfo], address: u8) -> (r: Option<EndpointInfo>)
    ensures
        r == endpoint_at(endpoints@, address),
{
    let mut i: usize = endpoints.len();
    assert(endpoints@.take(i as int) =~= endpoints@);
    while i > 0
        invariant
            i <= endpoints@.len(),
            endpoint_at(endpoints@, address) == endpoint_at(endpoints@.take(i as int), address),
        decreases i,
    {
        i = i - 1;
        assert(endpoints@.take(i + 1).drop_last() =~= endpoints@.take(i as int));
        let e = endpoints[i];
        if e.address() == address {
            return Some(e);
        }
    }
    None
}

} // verus!
