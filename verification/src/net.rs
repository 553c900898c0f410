//! Addresses and identifiers shared by the protocol modules.
use vstd::prelude::*;
use crate::wire::{be32_at, lemma_u32_roundtrip, u32_bytes};

verus! {

/// An IPv4 address held as its four octets in network order.
#[derive(Clone, Copy, Debug, Hash)]
pub struct Ipv4Address(pub [u8; 4]);

impl PartialEq for Ipv4Address {
    fn eq(&self, other: &Self) -> (r: bool) {
        let r = self.0[0] == other.0[0] && self.0[1] == other.0[1] && self.0[2] == other.0[2]
            && self.0[3] == other.0[3];
        proof {
            if r {
                assert(self.0@ =~= other.0@);
            } else {
                assert(self.0@[0] == self.0[0] && other.0@[0] == other.0[0]);
            }
        }
        r
    }
}

impl vstd::std_specs::cmp::PartialEqSpecImpl for Ipv4Address {
    open spec fn obeys_eq_spec() -> bool {
        true
    }

    open spec fn eq_spec(&self, other: &Self) -> bool {
        self.0@ == other.0@
    }
}

impl Eq for Ipv4Address {}

impl Ipv4Address {
    /// The all-zero address 0.0.0.0.
    pub fn unspecified() -> (r: Ipv4Address)
        ensures
            r.0@ == seq![0u8, 0u8, 0u8, 0u8],
    {
        Ipv4Address([0, 0, 0, 0])
    }

    pub fn new(a: u8, b: u8, c: u8, d: u8) -> (r: Ipv4Address)
        ensures
            r.0@ == seq![a, b, c, d],
    {
        Ipv4Address([a, b, c, d])
    }

    /// The address as a big-endian 32-bit number.
    pub open spec fn value(self) -> int {
        be32_at(self.0@, 0)
    }

    pub fn to_u32(&self) -> (r: u32)
        ensures
            r == self.value(),
    {
        (self.0[0] as u32) * 16777216 + (self.0[1] as u32) * 65536 + (self.0[2] as u32) * 256
            + (self.0[3] as u32)
    }

    pub fn from_u32(v: u32) -> (r: Ipv4Address)
        ensures
            r.0@ == u32_bytes(v),
            r.value() == v,
    {
        proof {
            lemma_u32_roundtrip(v);
        }
        let r = Ipv4Address(
            [(v / 16777216) as u8, ((v / 65536) % 256) as u8, ((v / 256) % 256) as u8, (v
                % 256) as u8],
        );
        assert(r.0@ =~= u32_bytes(v));
        r
    }
}

/// An IPv6 address held as its sixteen octets in network order.
#[derive(Clone, Copy, Debug)]
pub struct Ipv6Address(pub [u8; 16]);

impl PartialEq for Ipv6Address {
    fn eq(&self, other: &Self) -> (r: bool) {
        let mut i: usize = 0;
        while i < 16
            invariant
                i <= 16,
                forall|j: int| 0 <= j < i ==> self.0@[j] == other.0@[j],
            decreases 16 - i,
        {
            if self.0[i] != other.0[i] {
                return false;
            }
            i = i + 1;
        }
        assert(self.0@ =~= other.0@);
        true
    }
}

impl vstd::std_specs::cmp::PartialEqSpecImpl for Ipv6Address {
    open spec fn obeys_eq_spec() -> bool {
        true
    }

    open spec fn eq_spec(&self, other: &Self) -> bool {
        self.0@ == other.0@
    }
}

impl Eq for Ipv6Address {}

/// An Ethernet MAC address held as its six octets.
#[derive(Clone, Copy, Debug, Hash)]
pub struct MacAddress(pub [u8; 6]);

impl PartialEq for MacAddress {
    fn eq(&self, other: &Self) -> (r: bool) {
        let mut i: usize = 0;
        while i < 6
            invariant
                i <= 6,
                forall|j: int| 0 <= j < i ==> self.0@[j] == other.0@[j],
            decreases 6 - i,
        {
            if self.0[i] != other.0[i] {
                return false;
            }
            i = i + 1;
        }
        assert(self.0@ =~= other.0@);
        true
    }
}

impl vstd::std_specs::cmp::PartialEqSpecImpl for MacAddress {
    open spec fn obeys_eq_spec() -> bool {
        true
    }

    open spec fn eq_spec(&self, other: &Self) -> bool {
        self.0@ == other.0@
    }
}

impl Eq for MacAddress {}

/// A PLMN identity: three octets holding the encoded MCC and MNC.
#[derive(Clone, Copy, Debug)]
pub struct PlmnId(pub [u8; 3]);

impl PartialEq for PlmnId {
    fn eq(&self, other: &Self) -> (r: bool) {
        let r = self.0[0] == other.0[0] && self.0[1] == other.0[1] && self.0[2] == other.0[2];
        proof {
            if r {
                assert(self.0@ =~= other.0@);
            }
        }
        r
    }
}

impl vstd::std_specs::cmp::PartialEqSpecImpl for PlmnId {
    open spec fn obeys_eq_spec() -> bool {
        true
    }

    open spec fn eq_spec(&self, other: &Self) -> bool {
        self.0@ == other.0@
    }
}

impl Eq for PlmnId {}

/// The RLC mode of a radio bearer.
#[derive(Clone, Copy, Debug, PartialEq, Eq, Structural)]
pub enum RlcMode {
    Am,
    UmBidirectional,
    UmUnidirectionalUl,
    UmUnidirectionalDl,
}

/// A network slice selector: slice/service type and optional slice differentiator.
#[derive(Clone, Copy, Debug, PartialEq, Eq, Structural)]
pub struct Snssai {
    pub sst: u8,
    pub sd: Option<u32>,
}

} // verus!
