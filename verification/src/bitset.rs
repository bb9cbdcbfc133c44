//! A set of endpoint addresses packed into one word.

use vstd::prelude::*;

verus! {

/// The address that a byte stands for once the reserved bits 4 to 6 are dropped.
pub open spec fn canonical(endpoint_addr: u8) -> u8 {
    endpoint_addr & 0x8f
}

/// The bit that holds an endpoint address: twice the endpoint number, plus one for IN.
pub open spec fn slot(endpoint_addr: u8) -> u8 {
    ((endpoint_addr & 0x0f) << 1) | (endpoint_addr >> 7)
}

/// The endpoint address that a bit holds.
spec fn address_of_slot(bit: u8) -> u8 {
    (bit >> 1) | ((bit & 1) << 7)
}

/// What setting, clearing and testing one bit does to the word and to every bit in it.
proof fn lemma_word(w: u32, e: u8, a: u8)
    by (bit_vector)
    ensures
        slot(e) < 32,
        slot(e) == 2 * (e % 16) + e / 128,
        slot(canonical(e)) == slot(e),
        canonical(canonical(e)) == canonical(e),
        (w & (1u32 << slot(e)) != 0) == ((w >> slot(e)) & 1 == 1),
        (0u32 >> slot(a)) & 1 == 0,
        a == canonical(a) ==> (((w | (1u32 << slot(e))) >> slot(a)) & 1 == 1) == (((w >> slot(a))
            & 1 == 1) || a == canonical(e)),
        a == canonical(a) ==> (((w & !(1u32 << slot(e))) >> slot(a)) & 1 == 1) == (((w >> slot(a))
            & 1 == 1) && a != canonical(e)),
{
}

proof fn lemma_address_of_slot(bit: u8)
    by (bit_vector)
    requires
        bit < 32,
    ensures
        slot(address_of_slot(bit)) == bit,
        canonical(address_of_slot(bit)) == address_of_slot(bit),
{
}

/// Set of endpoint addresses
///
/// Capable of storing any endpoint address in the range `0x00..=0x0f` and `0x80..=0x8f`.
#[derive(Clone, Copy, Debug, PartialEq, Eq, Structural)]
pub struct EndpointBitSet(u32);

impl View for EndpointBitSet {
    type V = Set<u8>;

    /// The endpoint addresses in the set.
    closed spec fn view(&self) -> Set<u8> {
        Set::new(|a: u8| a == canonical(a) && (self.0 >> slot(a)) & 1 == 1)
    }
}

impl Default for EndpointBitSet {
    fn default() -> (r: Self)
        ensures
            r@ == Set::<u8>::empty(),
    {
        let r = EndpointBitSet(0);
        assert forall|a: u8| !r@.contains(a) by {
            lemma_word(0, a, a);
        }
        r
    }
}

impl EndpointBitSet {
    /// The word that has only the bit of an endpoint address set.
    pub fn mask(ep: u8) -> (r: u32)
        ensures
            r == 1u32 << slot(ep),
            slot(ep) == 2 * (ep % 16) + ep / 128,
    {
        proof {
            lemma_word(0, ep, ep);
        }
        let bit: u8 = ((ep & 0x0f) << 1) | (ep >> 7);
        1 << bit
    }

    /// Whether the set contains the endpoint address.
    pub fn is_set(&self, bit: u8) -> (r: bool)
        ensures
            r == self@.contains(canonical(bit)),
    {
        proof {
            lemma_word(self.0, bit, bit);
        }
        self.0 & Self::mask(bit) != 0
    }

    /// Whether no endpoint address is in the set.
    pub fn is_empty(&self) -> (r: bool)
        ensures
            r == (self@ == Set::<u8>::empty()),
    {
        proof {
            if self.0 == 0 {
                assert forall|a: u8| !self@.contains(a) by {
                    lemma_word(0, a, a);
                }
                assert(self@ =~= Set::<u8>::empty());
            } else {
                vstd::std_specs::bits::axiom_u32_trailing_zeros(self.0);
                let bit = vstd::std_specs::bits::u32_trailing_zeros(self.0) as u8;
                lemma_address_of_slot(bit);
                assert(self@.contains(address_of_slot(bit)));
            }
        }
        self.0 == 0
    }

    /// Insert an endpoint address.
    pub fn set(&mut self, bit: u8)
        ensures
            final(self)@ == old(self)@.insert(canonical(bit)),
    {
        let ghost w = self.0;
        self.0 = self.0 | Self::mask(bit);
        assert forall|a: u8| self@.contains(a) == old(self)@.insert(canonical(bit)).contains(a) by {
            lemma_word(w, bit, a);
        }
    }

    /// Remove an endpoint address.
    pub fn clear(&mut self, bit: u8)
        ensures
            final(self)@ == old(self)@.remove(canonical(bit)),
    {
        let ghost w = self.0;
        self.0 = self.0 & !Self::mask(bit);
        assert forall|a: u8| self@.contains(a) == old(self)@.remove(canonical(bit)).contains(a) by {
            lemma_word(w, bit, a);
        }
    }
}

/// The address that a byte stands for has its direction and the number of its endpoint, and nothing
/// else of it.
pub proof fn law_address_is_direction_and_number(a: u8)
    ensures
        canonical(a) == a % 16 + if a >= 128 {
            128int
        } else {
            0
        },
{
    assert(canonical(a) == a % 16 + if a >= 128 {
        128int
    } else {
        0
    }) by (bit_vector);
}

/// Every address that a transfer can have, `0x00..=0x0f` and `0x80..=0x8f`, is held as itself,
/// and two different ones never share a bit.
pub proof fn law_addresses_are_kept_apart(a: u8, b: u8)
    requires
        a <= 0x0f || 0x80 <= a <= 0x8f,
        b <= 0x0f || 0x80 <= b <= 0x8f,
    ensures
        canonical(a) == a,
        slot(a) < 32,
        a != b ==> slot(a) != slot(b),
{
    assert(canonical(a) == a && slot(a) < 32 && (a != b ==> slot(a) != slot(b))) by (bit_vector)
        requires
            a <= 0x0f || 0x80 <= a <= 0x8f,
            b <= 0x0f || 0x80 <= b <= 0x8f,
    ;
}

} // verus!
