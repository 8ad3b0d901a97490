//! Account addresses, and the network addresses of validators.

use crate::codec::{array_to_vec, lemma_split, u16_to_vec, u8_to_vec, Encode};
use crate::keys::{lemma_public_key_splits, same_array, PublicKey, StringEncoded};
use crate::table::Key;
use vstd::bytes::spec_u16_to_le_bytes;
use vstd::prelude::*;

verus! {

/// The address of an account that a transaction establishes.
#[derive(Clone, Copy, Debug, PartialEq, Eq)]
pub struct EstablishedAddress {
    pub hash: [u8; 20],
}

/// The address of the account that a public key stands for by itself.
#[derive(Clone, Copy, Debug, PartialEq, Eq)]
pub struct ImplicitAddress {
    pub hash: [u8; 20],
}

/// The address of an account that the protocol keeps, by its kind.
#[derive(Clone, Copy, Debug, PartialEq, Eq)]
pub enum InternalAddress {
    /// The only account of its kind.
    Single(u8),
    /// One of many accounts of its kind.
    Hashed(u8, [u8; 20]),
}

/// An address of an account.
#[derive(Clone, Copy, Debug, PartialEq, Eq)]
pub enum Address {
    Established(EstablishedAddress),
    Implicit(ImplicitAddress),
    Internal(InternalAddress),
}

/// How an account is named in the genesis files.
#[derive(Clone, Copy, Debug, PartialEq, Eq)]
pub enum GenesisAddress {
    /// By the address of an established account.
    EstablishedAddress(EstablishedAddress),
    /// By the public key of an implicit account.
    PublicKey(StringEncoded<PublicKey>),
}

/// An IP address with a port.
#[derive(Clone, Copy, Debug, PartialEq, Eq)]
pub enum SocketAddr {
    V4([u8; 4], u16),
    /// Besides the IP address and the port: the flow information and the scope.
    V6([u8; 16], u16, u32, u32),
}

impl View for EstablishedAddress {
    type V = EstablishedAddress;

    open spec fn view(&self) -> EstablishedAddress {
        *self
    }
}

impl View for ImplicitAddress {
    type V = ImplicitAddress;

    open spec fn view(&self) -> ImplicitAddress {
        *self
    }
}

impl View for InternalAddress {
    type V = InternalAddress;

    open spec fn view(&self) -> InternalAddress {
        *self
    }
}

impl View for Address {
    type V = Address;

    open spec fn view(&self) -> Address {
        *self
    }
}

impl View for GenesisAddress {
    type V = GenesisAddress;

    open spec fn view(&self) -> GenesisAddress {
        *self
    }
}

impl Key for EstablishedAddress {
    fn same(&self, other: &Self) -> (r: bool) {
        same_array(&self.hash, &other.hash)
    }
}

impl Key for ImplicitAddress {
    fn same(&self, other: &Self) -> (r: bool) {
        same_array(&self.hash, &other.hash)
    }
}

impl Key for InternalAddress {
    fn same(&self, other: &Self) -> (r: bool) {
        match (self, other) {
            (InternalAddress::Single(a), InternalAddress::Single(b)) => *a == *b,
            (InternalAddress::Hashed(a, h), InternalAddress::Hashed(b, i)) => *a == *b
                && same_array(h, i),
            _ => false,
        }
    }
}

impl Key for Address {
    fn same(&self, other: &Self) -> (r: bool) {
        match (self, other) {
            (Address::Established(a), Address::Established(b)) => a.same(b),
            (Address::Implicit(a), Address::Implicit(b)) => a.same(b),
            (Address::Internal(a), Address::Internal(b)) => a.same(b),
            _ => false,
        }
    }
}

impl Key for GenesisAddress {
    fn same(&self, other: &Self) -> (r: bool) {
        match (self, other) {
            (
                GenesisAddress::EstablishedAddress(a),
                GenesisAddress::EstablishedAddress(b),
            ) => a.same(b),
            (GenesisAddress::PublicKey(a), GenesisAddress::PublicKey(b)) => a.raw.same(&b.raw),
            _ => false,
        }
    }
}

impl Encode for Address {
    open spec fn encoding(&self) -> Seq<u8> {
        match self {
            Address::Established(a) => seq![0u8] + a.hash@,
            Address::Implicit(a) => seq![1u8] + a.hash@,
            Address::Internal(InternalAddress::Single(kind)) => seq![2u8] + seq![*kind],
            Address::Internal(InternalAddress::Hashed(kind, hash)) => seq![2u8] + seq![*kind]
                + hash@,
        }
    }

    open spec fn fits(&self) -> bool {
        true
    }

    fn serialize_to_vec(&self) -> (r: Vec<u8>) {
        match self {
            Address::Established(a) => {
                let mut r: Vec<u8> = u8_to_vec(0);
                r.append(&mut array_to_vec(&a.hash));
                r
            },
            Address::Implicit(a) => {
                let mut r: Vec<u8> = u8_to_vec(1);
                r.append(&mut array_to_vec(&a.hash));
                r
            },
            Address::Internal(InternalAddress::Single(kind)) => {
                let mut r: Vec<u8> = u8_to_vec(2);
                r.append(&mut u8_to_vec(*kind));
                r
            },
            Address::Internal(InternalAddress::Hashed(kind, hash)) => {
                let mut r: Vec<u8> = u8_to_vec(2);
                r.append(&mut u8_to_vec(*kind));
                r.append(&mut array_to_vec(hash));
                r
            },
        }
    }
}

impl Encode for GenesisAddress {
    open spec fn encoding(&self) -> Seq<u8> {
        match self {
            GenesisAddress::EstablishedAddress(a) => seq![0u8] + a.hash@,
            GenesisAddress::PublicKey(pk) => seq![1u8] + pk.raw.encoding(),
        }
    }

    open spec fn fits(&self) -> bool {
        true
    }

    fn serialize_to_vec(&self) -> (r: Vec<u8>) {
        match self {
            GenesisAddress::EstablishedAddress(a) => {
                let mut r: Vec<u8> = u8_to_vec(0);
                r.append(&mut array_to_vec(&a.hash));
                r
            },
            GenesisAddress::PublicKey(pk) => {
                let mut r: Vec<u8> = u8_to_vec(1);
                r.append(&mut pk.raw.serialize_to_vec());
                r
            },
        }
    }
}

impl SocketAddr {
    /// The IP address and the port alone.
    pub open spec fn endpoint(self) -> SocketAddr {
        match self {
            SocketAddr::V4(ip, port) => SocketAddr::V4(ip, port),
            SocketAddr::V6(ip, port, _, _) => SocketAddr::V6(ip, port, 0, 0),
        }
    }
}

// Flow information and scope are not encoded.
impl Encode for SocketAddr {
    open spec fn encoding(&self) -> Seq<u8> {
        match self {
            SocketAddr::V4(ip, port) => seq![0u8] + ip@ + spec_u16_to_le_bytes(*port),
            SocketAddr::V6(ip, port, _, _) => seq![1u8] + ip@ + spec_u16_to_le_bytes(*port),
        }
    }

    open spec fn fits(&self) -> bool {
        true
    }

    fn serialize_to_vec(&self) -> (r: Vec<u8>) {
        match self {
            SocketAddr::V4(ip, port) => {
                let mut r: Vec<u8> = u8_to_vec(0);
                r.append(&mut array_to_vec(ip));
                r.append(&mut u16_to_vec(*port));
                r
            },
            SocketAddr::V6(ip, port, _, _) => {
                let mut r: Vec<u8> = u8_to_vec(1);
                r.append(&mut array_to_vec(ip));
                r.append(&mut u16_to_vec(*port));
                r
            },
        }
    }
}

/// Different addresses have different encodings.
pub proof fn lemma_address_encoding_injective(a: Address, b: Address)
    requires
        a.encoding() == b.encoding(),
    ensures
        a == b,
{
    let (x, y) = (a.encoding(), b.encoding());
    assert(x[0] == y[0]);
    assert(x.skip(1) == y.skip(1));
    assert(x.skip(2) == y.skip(2));
    match (a, b) {
        (Address::Established(s), Address::Established(t)) => {
            assert(x.skip(1) =~= s.hash@);
            assert(y.skip(1) =~= t.hash@);
            assert(s.hash =~= t.hash);
        },
        (Address::Implicit(s), Address::Implicit(t)) => {
            assert(x.skip(1) =~= s.hash@);
            assert(y.skip(1) =~= t.hash@);
            assert(s.hash =~= t.hash);
        },
        (
            Address::Internal(InternalAddress::Hashed(k, s)),
            Address::Internal(InternalAddress::Hashed(l, t)),
        ) => {
            assert(x[1] == k && y[1] == l);
            assert(x.skip(2) =~= s@);
            assert(y.skip(2) =~= t@);
            assert(s =~= t);
        },
        (
            Address::Internal(InternalAddress::Single(k)),
            Address::Internal(InternalAddress::Single(l)),
        ) => {
            assert(x[1] == k && y[1] == l);
        },
        _ => {},
    }
}

/// The encoding of a genesis address ends where its first bytes say.
pub proof fn lemma_genesis_address_splits(
    a: GenesisAddress,
    x: Seq<u8>,
    b: GenesisAddress,
    y: Seq<u8>,
)
    requires
        a.encoding() + x == b.encoding() + y,
    ensures
        a == b,
        x == y,
{
    assert((a.encoding() + x)[0] == a.encoding()[0]);
    assert((b.encoding() + y)[0] == b.encoding()[0]);
    match (a, b) {
        (GenesisAddress::EstablishedAddress(s), GenesisAddress::EstablishedAddress(t)) => {
            lemma_split(a.encoding(), x, b.encoding(), y);
            lemma_split(seq![0u8], s.hash@, seq![0u8], t.hash@);
            assert(s.hash =~= t.hash);
        },
        (GenesisAddress::PublicKey(s), GenesisAddress::PublicKey(t)) => {
            assert(a.encoding() + x =~= seq![1u8] + (s.raw.encoding() + x));
            assert(b.encoding() + y =~= seq![1u8] + (t.raw.encoding() + y));
            lemma_split(seq![1u8], s.raw.encoding() + x, seq![1u8], t.raw.encoding() + y);
            lemma_public_key_splits(s.raw, x, t.raw, y);
        },
        _ => {},
    }
}

/// The encoding of a network address ends where its first byte says.
pub proof fn lemma_socket_addr_splits(a: SocketAddr, x: Seq<u8>, b: SocketAddr, y: Seq<u8>)
    requires
        a.encoding() + x == b.encoding() + y,
    ensures
        a.endpoint() == b.endpoint(),
        x == y,
{
    vstd::bytes::lemma_auto_spec_u16_to_from_le_bytes();
    assert((a.encoding() + x)[0] == a.encoding()[0]);
    assert((b.encoding() + y)[0] == b.encoding()[0]);
    lemma_split(a.encoding(), x, b.encoding(), y);
    match (a, b) {
        (SocketAddr::V4(s, p), SocketAddr::V4(t, q)) => {
            let (pb, qb) = (spec_u16_to_le_bytes(p), spec_u16_to_le_bytes(q));
            lemma_split(seq![0u8] + s@, pb, seq![0u8] + t@, qb);
            lemma_split(seq![0u8], s@, seq![0u8], t@);
            assert(s =~= t);
            assert(vstd::bytes::spec_u16_from_le_bytes(pb) == p);
        },
        (SocketAddr::V6(s, p, _, _), SocketAddr::V6(t, q, _, _)) => {
            let (pb, qb) = (spec_u16_to_le_bytes(p), spec_u16_to_le_bytes(q));
            lemma_split(seq![1u8] + s@, pb, seq![1u8] + t@, qb);
            lemma_split(seq![1u8], s@, seq![1u8], t@);
            assert(s =~= t);
            assert(vstd::bytes::spec_u16_from_le_bytes(pb) == p);
        },
        _ => {},
    }
}

} // verus!
