//! Buffered reading and writing on Bulk and Interrupt endpoints.
//!
//! These types wrap an [`Endpoint`](crate::endpoint::Endpoint) and manage transfers to provide a
//! higher-level buffered API. No function here waits: where a transfer has to complete first, the
//! result is [`Poll::Pending`](crate::endpoint::Poll::Pending).

use vstd::prelude::*;

use crate::transfer::TransferError;

mod read;
mod write;

pub use read::{
    EndpointRead, EndpointReadUntilShortPacket, ExpectedShortPacket, ReadBuffer, ReadModel,
    ReaderModel,
};
pub use write::{EndpointWrite, WriterModel};

verus! {

/// Why reading or writing failed.
#[derive(Clone, Copy, Debug, PartialEq, Eq, Structural)]
pub enum IoError {
    /// A transfer failed.
    Transfer(TransferError),
    /// No transfer completed within the time limit.
    TimedOut,
    /// The data ended where a short packet was expected.
    UnexpectedEof,
}

/// The smallest multiple of the packet size that is no less than `size`, and at least one packet.
pub open spec fn rounded_up(size: nat, packet_size: nat) -> nat {
    if size == 0 {
        packet_size
    } else {
        (((size - 1) / packet_size as int + 1) * packet_size) as nat
    }
}

/// Round a transfer size up to the next multiple of the packet size.
fn round_up(size: usize, packet_size: usize) -> (r: usize)
    requires
        packet_size > 0,
        rounded_up(size as nat, packet_size as nat) <= usize::MAX,
    ensures
        r == rounded_up(size as nat, packet_size as nat),
{
    if size == 0 {
        packet_size
    } else {
        proof {
            assert(0 <= (size - 1) / packet_size as int <= size - 1) by (nonlinear_arith)
                requires
                    packet_size > 0,
                    size > 0,
            ;
            let n: int = (size - 1) / packet_size as int + 1;
            assert(0 <= n * packet_size);
            assert(n <= n * packet_size) by (nonlinear_arith)
                requires
                    packet_size > 0,
                    n >= 0,
            ;
        }
        ((size - 1) / packet_size + 1) * packet_size
    }
}

/// The rounded size is a whole number of packets, at least one, no less than what was asked for,
/// and no more than one packet beyond that.
pub proof fn law_rounded_up(size: nat, packet_size: nat)
    requires
        packet_size > 0,
    ensures
        rounded_up(size, packet_size) % packet_size == 0,
        rounded_up(size, packet_size) >= packet_size,
        rounded_up(size, packet_size) >= size,
        rounded_up(size, packet_size) < size + packet_size || size == 0,
        size == 0 ==> rounded_up(size, packet_size) == packet_size,
{
    if size == 0 {
        assert(packet_size % packet_size == 0) by (nonlinear_arith)
            requires
                packet_size > 0,
        ;
    } else {
        let k: int = (size - 1) / packet_size as int;
        vstd::arithmetic::div_mod::lemma_fundamental_div_mod(size - 1, packet_size as int);
        vstd::arithmetic::div_mod::lemma_mod_multiples_basic(k + 1, packet_size as int);
        assert((k + 1) * packet_size == packet_size * k + packet_size) by (nonlinear_arith);
        assert(0 <= packet_size * k) by (nonlinear_arith)
            requires
                k >= 0,
                packet_size > 0,
        ;
    }
}

} // verus!
