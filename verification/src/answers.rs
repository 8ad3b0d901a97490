//! What the library asks of the cryptography around it, and the answers.
//!
//! Hashing, signing, checking signatures and converting stakes are done outside.
//! The functions of this library take the results as tables from questions to
//! answers. The questions come from the library too: see
//! [`DeriveEstablishedAddress::derivation`],
//! [`crate::signing::implicit_questions`],
//! [`crate::signing::delegation_signing_requests`],
//! [`crate::signing::genesis_validator_signing_requests`],
//! [`crate::checks::signature_checks`] and
//! [`crate::transactions::Transactions::stake_conversions`].

use crate::address::{Address, EstablishedAddress, ImplicitAddress};
use crate::amount::{Amount, Dec};
use crate::codec::Encode;
use crate::keys::{same_bytes, PublicKey, SecretKey, Signature};
use crate::table::{Key, Table};
use vstd::prelude::*;

verus! {

/// Which address is derived from `data` with the salt `salt`?
#[derive(Clone, Debug)]
pub struct Derivation {
    pub salt: String,
    pub data: Vec<u8>,
}

/// Which signature does `key` give to `message`?
#[derive(Clone, Debug)]
pub struct SigningRequest {
    pub key: SecretKey,
    pub message: Vec<u8>,
}

/// Is `signature` a signature of `message` by `key`?
#[derive(Clone, Debug)]
pub struct SignatureCheck {
    pub message: Vec<u8>,
    pub key: PublicKey,
    pub signature: Signature,
}

/// Which voting power does `stake` have at `votes_per_token`?
#[derive(Clone, Copy, Debug)]
pub struct StakeConversion {
    pub votes_per_token: Dec,
    pub stake: Amount,
}

/// The contents of a [`Derivation`].
pub struct DerivationView {
    pub salt: Seq<char>,
    pub data: Seq<u8>,
}

/// The contents of a [`SigningRequest`].
pub struct SigningRequestView {
    pub key: SecretKey,
    pub message: Seq<u8>,
}

/// The contents of a [`SignatureCheck`].
pub struct SignatureCheckView {
    pub message: Seq<u8>,
    pub key: PublicKey,
    pub signature: Signature,
}

impl View for Derivation {
    type V = DerivationView;

    open spec fn view(&self) -> DerivationView {
        DerivationView { salt: self.salt@, data: self.data@ }
    }
}

impl View for SigningRequest {
    type V = SigningRequestView;

    open spec fn view(&self) -> SigningRequestView {
        SigningRequestView { key: self.key, message: self.message@ }
    }
}

impl View for SignatureCheck {
    type V = SignatureCheckView;

    open spec fn view(&self) -> SignatureCheckView {
        SignatureCheckView {
            message: self.message@,
            key: self.key,
            signature: self.signature,
        }
    }
}

impl View for StakeConversion {
    type V = StakeConversion;

    open spec fn view(&self) -> StakeConversion {
        *self
    }
}

impl Key for Derivation {
    fn same(&self, other: &Self) -> (r: bool) {
        self.salt.same(&other.salt) && same_bytes(&self.data, &other.data)
    }
}

impl Key for SigningRequest {
    fn same(&self, other: &Self) -> (r: bool) {
        self.key.same(&other.key) && same_bytes(&self.message, &other.message)
    }
}

impl Key for SignatureCheck {
    fn same(&self, other: &Self) -> (r: bool) {
        self.key.same(&other.key) && self.signature.same(&other.signature) && same_bytes(
            &self.message,
            &other.message,
        )
    }
}

impl Key for StakeConversion {
    fn same(&self, other: &Self) -> (r: bool) {
        self.votes_per_token == other.votes_per_token && self.stake == other.stake
    }
}

/// The addresses derived from transactions.
pub type AddressBook = Table<Derivation, EstablishedAddress>;

/// The implicit addresses of public keys.
pub type ImplicitBook = Table<PublicKey, ImplicitAddress>;

/// The signatures that keys give.
pub type SignatureBook = Table<SigningRequest, Signature>;

/// Which signatures are valid. One that was not looked at counts as invalid.
pub type Verdicts = Table<SignatureCheck, bool>;

/// The voting power of stakes.
pub type VotingPowers = Table<StakeConversion, i64>;

/// Whether `signature` is known to be a signature of `message` by `key`.
pub open spec fn accepts(
    verdicts: Map<SignatureCheckView, bool>,
    message: Seq<u8>,
    key: PublicKey,
    signature: Signature,
) -> bool {
    let check = SignatureCheckView { message, key, signature };
    verdicts.contains_key(check) && verdicts[check]
}

/// Whether `check` is one of the questions.
pub open spec fn asks(checks: Seq<SignatureCheck>, check: SignatureCheckView) -> bool {
    exists|i: int| 0 <= i < checks.len() && (#[trigger] checks[i])@ == check
}

/// What the questions of two lists together are.
pub proof fn lemma_asks_concat(a: Seq<SignatureCheck>, b: Seq<SignatureCheck>)
    ensures
        forall|c: SignatureCheckView| #[trigger] asks(a + b, c) <==> asks(a, c) || asks(b, c),
{
    assert forall|c: SignatureCheckView| #[trigger] asks(a + b, c) <==> asks(a, c) || asks(
        b,
        c,
    ) by {
        if asks(a + b, c) {
            let i = choose|i: int| 0 <= i < (a + b).len() && (#[trigger] (a + b)[i])@ == c;
            if i < a.len() {
                assert(a[i]@ == c);
            } else {
                assert(b[i - a.len()]@ == c);
            }
        }
        if asks(a, c) {
            let i = choose|i: int| 0 <= i < a.len() && (#[trigger] a[i])@ == c;
            assert((a + b)[i]@ == c);
        }
        if asks(b, c) {
            let i = choose|i: int| 0 <= i < b.len() && (#[trigger] b[i])@ == c;
            assert((a + b)[a.len() + i]@ == c);
        }
    }
}

/// The signature that `key` gives to `message`.
pub open spec fn signature_by(
    signatures: Map<SigningRequestView, Signature>,
    key: SecretKey,
    message: Seq<u8>,
) -> Signature {
    signatures[SigningRequestView { key, message }]
}

/// Whether `request` is one of the questions.
pub open spec fn requests_signature(
    requests: Seq<SigningRequest>,
    request: SigningRequestView,
) -> bool {
    exists|i: int| 0 <= i < requests.len() && (#[trigger] requests[i])@ == request
}

/// Whether the signatures answer all the questions.
pub open spec fn answers_requests(
    signatures: Map<SigningRequestView, Signature>,
    requests: Seq<SigningRequest>,
) -> bool {
    forall|q: SigningRequestView| #[trigger]
        requests_signature(requests, q) ==> signatures.contains_key(q)
}

/// What the questions of two lists together are.
pub proof fn lemma_requests_concat(a: Seq<SigningRequest>, b: Seq<SigningRequest>)
    ensures
        forall|q: SigningRequestView| #[trigger]
            requests_signature(a + b, q) <==> requests_signature(a, q) || requests_signature(b, q),
{
    assert forall|q: SigningRequestView| #[trigger]
        requests_signature(a + b, q) <==> requests_signature(a, q) || requests_signature(b, q) by {
        if requests_signature(a + b, q) {
            let i = choose|i: int| 0 <= i < (a + b).len() && (#[trigger] (a + b)[i])@ == q;
            if i < a.len() {
                assert(a[i]@ == q);
            } else {
                assert(b[i - a.len()]@ == q);
            }
        }
        if requests_signature(a, q) {
            let i = choose|i: int| 0 <= i < a.len() && (#[trigger] a[i])@ == q;
            assert((a + b)[i]@ == q);
        }
        if requests_signature(b, q) {
            let i = choose|i: int| 0 <= i < b.len() && (#[trigger] b[i])@ == q;
            assert((a + b)[a.len() + i]@ == q);
        }
    }
}

/// Whether it is known which signature `key` gives to `message`.
pub open spec fn can_sign(
    signatures: Map<SigningRequestView, Signature>,
    key: SecretKey,
    message: Seq<u8>,
) -> bool {
    signatures.contains_key(SigningRequestView { key, message })
}

/// A transaction that establishes an account, at an address that is derived
/// from it.
pub trait DeriveEstablishedAddress: Encode + Sized {
    /// What keeps the addresses of different kinds of transactions apart.
    spec fn salt() -> Seq<char>;

    /// The salt as a string.
    fn salt_string() -> (r: String)
        ensures
            r@ == Self::salt(),
    ;

    /// What the address is derived from.
    fn derivation(&self) -> (r: Derivation)
        requires
            self.fits(),
        ensures
            r@ == (DerivationView { salt: Self::salt(), data: self.encoding() }),
    {
        Derivation { salt: Self::salt_string(), data: self.serialize_to_vec() }
    }

    /// The address of the account.
    fn derive_established_address(&self, addresses: &AddressBook) -> (r: EstablishedAddress)
        requires
            self.fits(),
            addresses@.contains_key((DerivationView { salt: Self::salt(), data: self.encoding() })),
        ensures
            r == addresses@[(DerivationView { salt: Self::salt(), data: self.encoding() })],
    {
        *addresses.get(&self.derivation()).unwrap()
    }

    /// The address of the account.
    fn derive_address(&self, addresses: &AddressBook) -> (r: Address)
        requires
            self.fits(),
            addresses@.contains_key((DerivationView { salt: Self::salt(), data: self.encoding() })),
        ensures
            r == Address::Established(
                addresses@[(DerivationView { salt: Self::salt(), data: self.encoding() })],
            ),
    {
        Address::Established(self.derive_established_address(addresses))
    }
}

/// Whether the address of the account that `tx` establishes is known.
pub open spec fn has_address<T: DeriveEstablishedAddress>(
    addresses: Map<DerivationView, EstablishedAddress>,
    tx: T,
) -> bool {
    addresses.contains_key(DerivationView { salt: T::salt(), data: tx.encoding() })
}

/// The address of the account that `tx` establishes.
pub open spec fn established_address_of<T: DeriveEstablishedAddress>(
    addresses: Map<DerivationView, EstablishedAddress>,
    tx: T,
) -> EstablishedAddress {
    addresses[DerivationView { salt: T::salt(), data: tx.encoding() }]
}

/// The address of the account that `tx` establishes, as any account's address.
pub open spec fn address_of<T: DeriveEstablishedAddress>(
    addresses: Map<DerivationView, EstablishedAddress>,
    tx: T,
) -> Address {
    Address::Established(established_address_of(addresses, tx))
}

} // verus!
