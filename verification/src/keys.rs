//! Keys, signatures and the wallets that hold keys.

use crate::codec::{array_to_vec, lemma_split, u8_to_vec, Encode};
use crate::table::Key;
use vstd::prelude::*;

verus! {

/// A value that is written as a string in the genesis files.
#[derive(Clone, Copy, Debug, PartialEq, Eq)]
pub struct StringEncoded<T> {
    pub raw: T,
}

impl<T> StringEncoded<T> {
    /// The value, to be written as a string.
    pub fn new(raw: T) -> (r: Self)
        ensures
            r.raw == raw,
    {
        StringEncoded { raw }
    }
}

/// A public key.
#[derive(Clone, Copy, Debug, PartialEq, Eq)]
pub enum PublicKey {
    Ed25519([u8; 32]),
    Secp256k1([u8; 33]),
}

/// A secret key.
#[derive(Clone, Copy, Debug, PartialEq, Eq)]
pub enum SecretKey {
    Ed25519([u8; 32]),
    Secp256k1([u8; 32]),
}

/// A signature.
#[derive(Clone, Copy, Debug, PartialEq, Eq)]
pub enum Signature {
    Ed25519([u8; 64]),
    Secp256k1([u8; 65]),
}

/// A secret key with its public key.
#[derive(Clone, Copy, Debug, PartialEq, Eq)]
pub struct KeyPair {
    pub secret: SecretKey,
    pub public: PublicKey,
}

/// The keys of a user.
#[derive(Clone, Debug)]
pub struct Wallet {
    pub keys: Vec<KeyPair>,
}

/// The keys of a genesis validator.
#[derive(Clone, Copy, Debug, PartialEq, Eq)]
pub struct ValidatorWallet {
    pub account_key: KeyPair,
    pub consensus_key: KeyPair,
    pub protocol_key: KeyPair,
    pub tendermint_node_key: KeyPair,
    pub eth_hot_key: KeyPair,
    pub eth_cold_key: KeyPair,
}

/// Whether two arrays hold the same bytes.
pub(crate) fn same_array<const N: usize>(a: &[u8; N], b: &[u8; N]) -> (r: bool)
    ensures
        r == (*a == *b),
{
    let mut i: usize = 0;
    while i < N
        invariant
            i <= N,
            forall|j: int| 0 <= j < i ==> a[j] == b[j],
        decreases N - i,
    {
        if a[i] != b[i] {
            return false;
        }
        i = i + 1;
    }
    assert(*a =~= *b);
    true
}

/// Whether two vectors hold the same bytes.
pub(crate) fn same_bytes(a: &Vec<u8>, b: &Vec<u8>) -> (r: bool)
    ensures
        r == (a@ == b@),
{
    if a.len() != b.len() {
        return false;
    }
    let mut i: usize = 0;
    while i < a.len()
        invariant
            i <= a@.len(),
            a@.len() == b@.len(),
            forall|j: int| 0 <= j < i ==> a@[j] == b@[j],
        decreases a@.len() - i,
    {
        if a[i] != b[i] {
            return false;
        }
        i = i + 1;
    }
    assert(a@ =~= b@);
    true
}

impl View for PublicKey {
    type V = PublicKey;

    open spec fn view(&self) -> PublicKey {
        *self
    }
}

impl View for SecretKey {
    type V = SecretKey;

    open spec fn view(&self) -> SecretKey {
        *self
    }
}

impl View for Signature {
    type V = Signature;

    open spec fn view(&self) -> Signature {
        *self
    }
}

impl Key for PublicKey {
    fn same(&self, other: &Self) -> (r: bool) {
        match (self, other) {
            (PublicKey::Ed25519(a), PublicKey::Ed25519(b)) => same_array(a, b),
            (PublicKey::Secp256k1(a), PublicKey::Secp256k1(b)) => same_array(a, b),
            _ => false,
        }
    }
}

impl Key for SecretKey {
    fn same(&self, other: &Self) -> (r: bool) {
        match (self, other) {
            (SecretKey::Ed25519(a), SecretKey::Ed25519(b)) => same_array(a, b),
            (SecretKey::Secp256k1(a), SecretKey::Secp256k1(b)) => same_array(a, b),
            _ => false,
        }
    }
}

impl Key for Signature {
    fn same(&self, other: &Self) -> (r: bool) {
        match (self, other) {
            (Signature::Ed25519(a), Signature::Ed25519(b)) => same_array(a, b),
            (Signature::Secp256k1(a), Signature::Secp256k1(b)) => same_array(a, b),
            _ => false,
        }
    }
}

impl Encode for PublicKey {
    open spec fn encoding(&self) -> Seq<u8> {
        match self {
            PublicKey::Ed25519(b) => seq![0u8] + b@,
            PublicKey::Secp256k1(b) => seq![1u8] + b@,
        }
    }

    open spec fn fits(&self) -> bool {
        true
    }

    fn serialize_to_vec(&self) -> (r: Vec<u8>) {
        match self {
            PublicKey::Ed25519(b) => {
                let mut r: Vec<u8> = u8_to_vec(0);
                r.append(&mut array_to_vec(b));
                r
            },
            PublicKey::Secp256k1(b) => {
                let mut r: Vec<u8> = u8_to_vec(1);
                r.append(&mut array_to_vec(b));
                r
            },
        }
    }
}

/// The encoding of a public key ends where its first byte says.
pub proof fn lemma_public_key_splits(a: PublicKey, x: Seq<u8>, b: PublicKey, y: Seq<u8>)
    requires
        a.encoding() + x == b.encoding() + y,
    ensures
        a == b,
        x == y,
{
    assert((a.encoding() + x)[0] == a.encoding()[0]);
    assert((b.encoding() + y)[0] == b.encoding()[0]);
    lemma_split(a.encoding(), x, b.encoding(), y);
    match (a, b) {
        (PublicKey::Ed25519(s), PublicKey::Ed25519(t)) => {
            lemma_split(seq![0u8], s@, seq![0u8], t@);
            assert(s =~= t);
        },
        (PublicKey::Secp256k1(s), PublicKey::Secp256k1(t)) => {
            lemma_split(seq![1u8], s@, seq![1u8], t@);
            assert(s =~= t);
        },
        _ => {},
    }
}

/// The first secret key that is kept for `pk`.
pub open spec fn secret_of(keys: Seq<KeyPair>, pk: PublicKey) -> Option<SecretKey>
    decreases keys.len(),
{
    if keys.len() == 0 {
        None
    } else if keys[0].public == pk {
        Some(keys[0].secret)
    } else {
        secret_of(keys.drop_first(), pk)
    }
}

impl Wallet {
    /// The secret key of the public key `pk`.
    pub fn find_key_by_pk(&self, pk: &PublicKey) -> (r: Option<SecretKey>)
        ensures
            r == secret_of(self.keys@, *pk),
    {
        let mut i: usize = 0;
        assert(self.keys@.skip(0) =~= self.keys@);
        while i < self.keys.len()
            invariant
                i <= self.keys@.len(),
                secret_of(self.keys@, *pk) == secret_of(self.keys@.skip(i as int), *pk),
            decreases self.keys@.len() - i,
        {
            let pair: KeyPair = self.keys[i];
            assert(self.keys@.skip(i as int).drop_first() =~= self.keys@.skip(i + 1));
            if pair.public.same(pk) {
                return Some(pair.secret);
            }
            i = i + 1;
        }
        None
    }
}

} // verus!
