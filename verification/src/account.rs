//! Transactions that establish accounts and validator accounts.

use crate::address::{lemma_socket_addr_splits, SocketAddr};
use crate::amount::{lemma_uint_encoding, Dec};
use crate::answers::{
    answers_requests, can_sign, requests_signature, signature_by, DeriveEstablishedAddress,
    SignatureBook, SigningRequest, SigningRequestView,
};
use crate::codec::{
    concat, lemma_option_string_encoding_splits, lemma_split, lemma_string_encoding_splits,
    option_chars, option_string_encoding, option_string_fits, option_string_to_vec, string_encoding,
    string_fits, string_to_vec, u32_to_vec, u8_to_vec, Encode,
};
use crate::keys::{
    lemma_public_key_splits, PublicKey, SecretKey, Signature, StringEncoded, ValidatorWallet,
};
use vstd::bytes::spec_u32_to_le_bytes;
use vstd::prelude::*;

verus! {

/// A transaction that establishes an account.
#[derive(Clone, Debug, PartialEq, Eq)]
pub struct EstablishedAccountTx {
    /// The name of the account's validity predicate.
    pub vp: String,
    /// How many of the keys have to sign for the account.
    pub threshold: u8,
    pub public_keys: Vec<StringEncoded<PublicKey>>,
}

/// A transaction that establishes a validator account, with keys of type `PK`.
#[derive(Clone, Debug, PartialEq, Eq)]
pub struct ValidatorAccountTx<PK> {
    pub vp: String,
    /// Commission rate charged on rewards for delegators (bounded inside 0-1)
    pub commission_rate: Dec,
    /// Maximum change in commission rate permitted per epoch
    pub max_commission_rate_change: Dec,
    /// Validator metadata
    pub email: String,
    pub description: Option<String>,
    pub website: Option<String>,
    pub discord_handle: Option<String>,
    /// P2P IP:port
    pub net_address: SocketAddr,
    pub account_key: PK,
    pub consensus_key: PK,
    pub protocol_key: PK,
    pub tendermint_node_key: PK,
    pub eth_hot_key: PK,
    pub eth_cold_key: PK,
}

/// A public key with a signature that authorizes its use.
#[derive(Clone, Copy, Debug, PartialEq, Eq)]
pub struct SignedPk {
    pub pk: StringEncoded<PublicKey>,
    pub authorization: StringEncoded<Signature>,
}

/// A validator account whose keys have not been authorized yet.
pub type UnsignedValidatorAccountTx = ValidatorAccountTx<StringEncoded<PublicKey>>;

/// A validator account whose keys are authorized.
pub type SignedValidatorAccountTx = ValidatorAccountTx<SignedPk>;

/// The number of signatures that an account asks for where its transaction
/// does not say.
pub fn default_threshold() -> (r: u8)
    ensures
        r == 1,
{
    1
}

/// The keys of an account, which may be written as a list or as a single key:
/// `single` and `list` are the results of reading them in the one way and in the
/// other.
pub fn deserialize_single_or_vec<T, E>(single: Result<T, E>, list: Result<Vec<T>, E>) -> (r: Result<
    Vec<T>,
    E,
>)
    ensures
        match single {
            Ok(t) => r matches Ok(v) && v@ == seq![t],
            Err(_) => r == list,
        },
{
    match single {
        Ok(t) => {
            let mut v: Vec<T> = Vec::new();
            v.push(t);
            assert(v@ =~= seq![t]);
            Ok(v)
        },
        Err(_) => list,
    }
}

/// The encodings of public keys, one after the other.
pub open spec fn keys_encoding(keys: Seq<StringEncoded<PublicKey>>) -> Seq<u8>
    decreases keys.len(),
{
    if keys.len() == 0 {
        Seq::empty()
    } else {
        keys[0].raw.encoding() + keys_encoding(keys.drop_first())
    }
}

proof fn lemma_keys_encoding_push(keys: Seq<StringEncoded<PublicKey>>, key: StringEncoded<PublicKey>)
    ensures
        keys_encoding(keys.push(key)) == keys_encoding(keys) + key.raw.encoding(),
    decreases keys.len(),
{
    if keys.len() == 0 {
        assert(keys.push(key).drop_first() =~= keys);
        assert(keys_encoding(keys.push(key)) =~= key.raw.encoding());
        assert(keys_encoding(keys) + key.raw.encoding() =~= key.raw.encoding());
    } else {
        assert(keys.push(key).drop_first() =~= keys.drop_first().push(key));
        lemma_keys_encoding_push(keys.drop_first(), key);
        assert(keys_encoding(keys.push(key)) =~= keys_encoding(keys) + key.raw.encoding());
    }
}

proof fn lemma_keys_encoding_injective(
    a: Seq<StringEncoded<PublicKey>>,
    b: Seq<StringEncoded<PublicKey>>,
)
    requires
        a.len() == b.len(),
        keys_encoding(a) == keys_encoding(b),
    ensures
        a == b,
    decreases a.len(),
{
    if a.len() == 0 {
        assert(a =~= b);
    } else {
        lemma_public_key_splits(
            a[0].raw,
            keys_encoding(a.drop_first()),
            b[0].raw,
            keys_encoding(b.drop_first()),
        );
        lemma_keys_encoding_injective(a.drop_first(), b.drop_first());
        assert(a =~= seq![a[0]] + a.drop_first());
        assert(b =~= seq![b[0]] + b.drop_first());
    }
}

/// What an [`EstablishedAccountTx`] says.
pub struct EstablishedAccountView {
    pub vp: Seq<char>,
    pub threshold: u8,
    pub public_keys: Seq<StringEncoded<PublicKey>>,
}

impl EstablishedAccountView {
    /// The encoding of the transaction: its fields, one after the other.
    pub open spec fn encoding(self) -> Seq<u8> {
        string_encoding(self.vp) + seq![self.threshold] + spec_u32_to_le_bytes(
            self.public_keys.len() as u32,
        ) + keys_encoding(self.public_keys)
    }

    /// Whether the transaction can be encoded.
    pub open spec fn fits(self) -> bool {
        string_fits(self.vp) && self.public_keys.len() <= u32::MAX
    }
}

impl View for EstablishedAccountTx {
    type V = EstablishedAccountView;

    open spec fn view(&self) -> EstablishedAccountView {
        EstablishedAccountView {
            vp: self.vp@,
            threshold: self.threshold,
            public_keys: self.public_keys@,
        }
    }
}

impl Encode for EstablishedAccountTx {
    open spec fn encoding(&self) -> Seq<u8> {
        self@.encoding()
    }

    open spec fn fits(&self) -> bool {
        self@.fits()
    }

    fn serialize_to_vec(&self) -> (r: Vec<u8>) {
        let mut r: Vec<u8> = string_to_vec(&self.vp);
        r.append(&mut u8_to_vec(self.threshold));
        r.append(&mut u32_to_vec(self.public_keys.len() as u32));
        let ghost start = r@;
        let mut i: usize = 0;
        assert(self.public_keys@.take(0) =~= Seq::empty());
        while i < self.public_keys.len()
            invariant
                i <= self.public_keys@.len(),
                r@ == start + keys_encoding(self.public_keys@.take(i as int)),
            decreases self.public_keys@.len() - i,
        {
            proof {
                lemma_keys_encoding_push(
                    self.public_keys@.take(i as int),
                    self.public_keys@[i as int],
                );
                assert(self.public_keys@.take(i as int).push(self.public_keys@[i as int])
                    =~= self.public_keys@.take(i + 1));
            }
            r.append(&mut self.public_keys[i].raw.serialize_to_vec());
            i = i + 1;
        }
        assert(self.public_keys@.take(i as int) =~= self.public_keys@);
        r
    }
}

/// Account transactions with the same encoding say the same.
pub proof fn lemma_established_account_encoding_injective(
    a: EstablishedAccountView,
    b: EstablishedAccountView,
)
    requires
        a.fits(),
        b.fits(),
        a.encoding() == b.encoding(),
    ensures
        a == b,
{
    vstd::bytes::lemma_auto_spec_u32_to_from_le_bytes();
    let la = spec_u32_to_le_bytes(a.public_keys.len() as u32);
    let lb = spec_u32_to_le_bytes(b.public_keys.len() as u32);
    let (ka, kb) = (keys_encoding(a.public_keys), keys_encoding(b.public_keys));
    let (ta, tb) = (seq![a.threshold], seq![b.threshold]);
    assert(a.encoding() =~= string_encoding(a.vp) + (ta + (la + ka)));
    assert(b.encoding() =~= string_encoding(b.vp) + (tb + (lb + kb)));
    lemma_string_encoding_splits(a.vp, ta + (la + ka), b.vp, tb + (lb + kb));
    lemma_split(ta, la + ka, tb, lb + kb);
    assert(ta[0] == tb[0]);
    lemma_split(la, ka, lb, kb);
    assert(vstd::bytes::spec_u32_from_le_bytes(la) == a.public_keys.len() as u32);
    lemma_keys_encoding_injective(a.public_keys, b.public_keys);
}

impl DeriveEstablishedAddress for EstablishedAccountTx {
    open spec fn salt() -> Seq<char> {
        "established-account-tx"@
    }

    fn salt_string() -> (r: String) {
        "established-account-tx".to_string()
    }
}

/// What an [`UnsignedValidatorAccountTx`] says.
pub struct ValidatorAccountView {
    pub vp: Seq<char>,
    pub commission_rate: Dec,
    pub max_commission_rate_change: Dec,
    pub email: Seq<char>,
    pub description: Option<Seq<char>>,
    pub website: Option<Seq<char>>,
    pub discord_handle: Option<Seq<char>>,
    pub net_address: SocketAddr,
    pub account_key: PublicKey,
    pub consensus_key: PublicKey,
    pub protocol_key: PublicKey,
    pub tendermint_node_key: PublicKey,
    pub eth_hot_key: PublicKey,
    pub eth_cold_key: PublicKey,
}

impl ValidatorAccountView {
    /// The encoding of the keys, one after the other.
    pub open spec fn keys_encoding(self) -> Seq<u8> {
        self.account_key.encoding() + (self.consensus_key.encoding() + (self.protocol_key.encoding()
            + (self.tendermint_node_key.encoding() + (self.eth_hot_key.encoding()
            + self.eth_cold_key.encoding()))))
    }

    /// The encoding of the transaction: its fields, one after the other.
    pub open spec fn encoding(self) -> Seq<u8> {
        string_encoding(self.vp) + (self.commission_rate.encoding() + (
        self.max_commission_rate_change.encoding() + (string_encoding(self.email) + (
        option_string_encoding(self.description) + (option_string_encoding(self.website) + (
        option_string_encoding(self.discord_handle) + (self.net_address.encoding()
            + self.keys_encoding())))))))
    }

    /// Whether the transaction can be encoded.
    pub open spec fn fits(self) -> bool {
        &&& string_fits(self.vp)
        &&& string_fits(self.email)
        &&& option_string_fits(self.description)
        &&& option_string_fits(self.website)
        &&& option_string_fits(self.discord_handle)
    }

    /// What is encoded of the transaction: all of it but the flow information and the
    /// scope of an IPv6 address.
    pub open spec fn encoded_part(self) -> ValidatorAccountView {
        ValidatorAccountView { net_address: self.net_address.endpoint(), ..self }
    }
}

impl View for UnsignedValidatorAccountTx {
    type V = ValidatorAccountView;

    open spec fn view(&self) -> ValidatorAccountView {
        ValidatorAccountView {
            vp: self.vp@,
            commission_rate: self.commission_rate,
            max_commission_rate_change: self.max_commission_rate_change,
            email: self.email@,
            description: option_chars(self.description),
            website: option_chars(self.website),
            discord_handle: option_chars(self.discord_handle),
            net_address: self.net_address,
            account_key: self.account_key.raw,
            consensus_key: self.consensus_key.raw,
            protocol_key: self.protocol_key.raw,
            tendermint_node_key: self.tendermint_node_key.raw,
            eth_hot_key: self.eth_hot_key.raw,
            eth_cold_key: self.eth_cold_key.raw,
        }
    }
}

impl Encode for UnsignedValidatorAccountTx {
    open spec fn encoding(&self) -> Seq<u8> {
        self@.encoding()
    }

    open spec fn fits(&self) -> bool {
        self@.fits()
    }

    fn serialize_to_vec(&self) -> (r: Vec<u8>) {
        let keys: Vec<u8> = concat(
            self.account_key.raw.serialize_to_vec(),
            concat(
                self.consensus_key.raw.serialize_to_vec(),
                concat(
                    self.protocol_key.raw.serialize_to_vec(),
                    concat(
                        self.tendermint_node_key.raw.serialize_to_vec(),
                        concat(
                            self.eth_hot_key.raw.serialize_to_vec(),
                            self.eth_cold_key.raw.serialize_to_vec(),
                        ),
                    ),
                ),
            ),
        );
        let metadata: Vec<u8> = concat(
            string_to_vec(&self.email),
            concat(
                option_string_to_vec(&self.description),
                concat(
                    option_string_to_vec(&self.website),
                    concat(
                        option_string_to_vec(&self.discord_handle),
                        concat(self.net_address.serialize_to_vec(), keys),
                    ),
                ),
            ),
        );
        concat(
            string_to_vec(&self.vp),
            concat(
                self.commission_rate.serialize_to_vec(),
                concat(self.max_commission_rate_change.serialize_to_vec(), metadata),
            ),
        )
    }
}

proof fn lemma_validator_keys_injective(a: ValidatorAccountView, b: ValidatorAccountView)
    requires
        a.keys_encoding() == b.keys_encoding(),
    ensures
        a.account_key == b.account_key,
        a.consensus_key == b.consensus_key,
        a.protocol_key == b.protocol_key,
        a.tendermint_node_key == b.tendermint_node_key,
        a.eth_hot_key == b.eth_hot_key,
        a.eth_cold_key == b.eth_cold_key,
{
    let (a5, b5) = (a.eth_cold_key.encoding(), b.eth_cold_key.encoding());
    let (a4, b4) = (a.eth_hot_key.encoding() + a5, b.eth_hot_key.encoding() + b5);
    let (a3, b3) = (a.tendermint_node_key.encoding() + a4, b.tendermint_node_key.encoding() + b4);
    let (a2, b2) = (a.protocol_key.encoding() + a3, b.protocol_key.encoding() + b3);
    let (a1, b1) = (a.consensus_key.encoding() + a2, b.consensus_key.encoding() + b2);
    lemma_public_key_splits(a.account_key, a1, b.account_key, b1);
    lemma_public_key_splits(a.consensus_key, a2, b.consensus_key, b2);
    lemma_public_key_splits(a.protocol_key, a3, b.protocol_key, b3);
    lemma_public_key_splits(a.tendermint_node_key, a4, b.tendermint_node_key, b4);
    lemma_public_key_splits(a.eth_hot_key, a5, b.eth_hot_key, b5);
    let nothing = Seq::<u8>::empty();
    assert(a5 + nothing =~= b5 + nothing);
    lemma_public_key_splits(a.eth_cold_key, nothing, b.eth_cold_key, nothing);
}

/// Validator accounts with the same encoding say the same in what is encoded.
pub proof fn lemma_validator_account_encoding_injective(
    a: ValidatorAccountView,
    b: ValidatorAccountView,
)
    requires
        a.fits(),
        b.fits(),
        a.encoding() == b.encoding(),
    ensures
        a.encoded_part() == b.encoded_part(),
{
    let (a8, b8) = (a.keys_encoding(), b.keys_encoding());
    let (a7, b7) = (a.net_address.encoding() + a8, b.net_address.encoding() + b8);
    let (da, db) = (a.discord_handle, b.discord_handle);
    let (a6, b6) = (option_string_encoding(da) + a7, option_string_encoding(db) + b7);
    let (wa, wb) = (a.website, b.website);
    let (a5, b5) = (option_string_encoding(wa) + a6, option_string_encoding(wb) + b6);
    let (ta, tb) = (a.description, b.description);
    let (a4, b4) = (option_string_encoding(ta) + a5, option_string_encoding(tb) + b5);
    let (a3, b3) = (string_encoding(a.email) + a4, string_encoding(b.email) + b4);
    let (ma, mb) = (a.max_commission_rate_change, b.max_commission_rate_change);
    let (a2, b2) = (ma.encoding() + a3, mb.encoding() + b3);
    let (ca, cb) = (a.commission_rate, b.commission_rate);
    let (a1, b1) = (ca.encoding() + a2, cb.encoding() + b2);
    lemma_string_encoding_splits(a.vp, a1, b.vp, b1);
    lemma_uint_encoding(ca.raw, cb.raw);
    lemma_uint_encoding(cb.raw, ca.raw);
    lemma_split(ca.encoding(), a2, cb.encoding(), b2);
    lemma_uint_encoding(ma.raw, mb.raw);
    lemma_uint_encoding(mb.raw, ma.raw);
    lemma_split(ma.encoding(), a3, mb.encoding(), b3);
    lemma_string_encoding_splits(a.email, a4, b.email, b4);
    lemma_option_string_encoding_splits(ta, a5, tb, b5);
    lemma_option_string_encoding_splits(wa, a6, wb, b6);
    lemma_option_string_encoding_splits(da, a7, db, b7);
    lemma_socket_addr_splits(a.net_address, a8, b.net_address, b8);
    lemma_validator_keys_injective(a, b);
}

impl DeriveEstablishedAddress for UnsignedValidatorAccountTx {
    open spec fn salt() -> Seq<char> {
        "validator-account-tx"@
    }

    fn salt_string() -> (r: String) {
        "validator-account-tx".to_string()
    }
}

/// A validator account without the authorizations of its keys.
pub open spec fn without_authorizations(tx: SignedValidatorAccountTx) -> UnsignedValidatorAccountTx {
    ValidatorAccountTx {
        vp: tx.vp,
        commission_rate: tx.commission_rate,
        max_commission_rate_change: tx.max_commission_rate_change,
        email: tx.email,
        description: tx.description,
        website: tx.website,
        discord_handle: tx.discord_handle,
        net_address: tx.net_address,
        account_key: tx.account_key.pk,
        consensus_key: tx.consensus_key.pk,
        protocol_key: tx.protocol_key.pk,
        tendermint_node_key: tx.tendermint_node_key.pk,
        eth_hot_key: tx.eth_hot_key.pk,
        eth_cold_key: tx.eth_cold_key.pk,
    }
}

/// A copy of an optional string.
fn clone_option_string(s: &Option<String>) -> (r: Option<String>)
    ensures
        r == *s,
{
    match s {
        Some(s) => Some(s.clone()),
        None => None,
    }
}

impl<'a> vstd::std_specs::convert::FromSpecImpl<&'a SignedValidatorAccountTx> for UnsignedValidatorAccountTx {
    open spec fn obeys_from_spec() -> bool {
        true
    }

    open spec fn from_spec(tx: &'a SignedValidatorAccountTx) -> Self {
        without_authorizations(*tx)
    }
}

impl<'a> From<&'a SignedValidatorAccountTx> for UnsignedValidatorAccountTx {
    fn from(tx: &'a SignedValidatorAccountTx) -> (r: Self)
        ensures
            r == without_authorizations(*tx),
    {
        ValidatorAccountTx {
            vp: tx.vp.clone(),
            commission_rate: tx.commission_rate,
            max_commission_rate_change: tx.max_commission_rate_change,
            email: tx.email.clone(),
            description: clone_option_string(&tx.description),
            website: clone_option_string(&tx.website),
            discord_handle: clone_option_string(&tx.discord_handle),
            net_address: tx.net_address,
            account_key: tx.account_key.pk,
            consensus_key: tx.consensus_key.pk,
            protocol_key: tx.protocol_key.pk,
            tendermint_node_key: tx.tendermint_node_key.pk,
            eth_hot_key: tx.eth_hot_key.pk,
            eth_cold_key: tx.eth_cold_key.pk,
        }
    }
}

/// The signature of `keypair` on the encoding of `tx_data`.
pub fn sign_tx<T: Encode>(
    tx_data: &T,
    keypair: &SecretKey,
    signatures: &SignatureBook,
) -> (r: StringEncoded<Signature>)
    requires
        tx_data.fits(),
        can_sign(signatures@, *keypair, tx_data.encoding()),
    ensures
        r.raw == signature_by(signatures@, *keypair, tx_data.encoding()),
        r.raw == signatures@[(SigningRequestView { key: *keypair, message: tx_data.encoding() })],
{
    let request: SigningRequest = SigningRequest {
        key: *keypair,
        message: tx_data.serialize_to_vec(),
    };
    StringEncoded::new(*signatures.get(&request).unwrap())
}

/// The key `pk`, authorized by the signature of `key` on `message`.
pub open spec fn authorized(
    pk: StringEncoded<PublicKey>,
    key: SecretKey,
    message: Seq<u8>,
    signatures: Map<SigningRequestView, Signature>,
) -> SignedPk {
    SignedPk {
        pk,
        authorization: StringEncoded { raw: signature_by(signatures, key, message) },
    }
}

/// The validator account `tx`, signed with every key of the validator.
pub open spec fn with_authorizations(
    tx: UnsignedValidatorAccountTx,
    wallet: ValidatorWallet,
    signatures: Map<SigningRequestView, Signature>,
) -> SignedValidatorAccountTx {
    let message = tx.encoding();
    ValidatorAccountTx {
        vp: tx.vp,
        commission_rate: tx.commission_rate,
        max_commission_rate_change: tx.max_commission_rate_change,
        email: tx.email,
        description: tx.description,
        website: tx.website,
        discord_handle: tx.discord_handle,
        net_address: tx.net_address,
        account_key: authorized(tx.account_key, wallet.account_key.secret, message, signatures),
        consensus_key: authorized(
            tx.consensus_key,
            wallet.consensus_key.secret,
            message,
            signatures,
        ),
        protocol_key: authorized(tx.protocol_key, wallet.protocol_key.secret, message, signatures),
        tendermint_node_key: authorized(
            tx.tendermint_node_key,
            wallet.tendermint_node_key.secret,
            message,
            signatures,
        ),
        eth_hot_key: authorized(tx.eth_hot_key, wallet.eth_hot_key.secret, message, signatures),
        eth_cold_key: authorized(tx.eth_cold_key, wallet.eth_cold_key.secret, message, signatures),
    }
}

/// The secret keys of a validator, in the order of the fields of its account.
pub open spec fn validator_secrets(wallet: ValidatorWallet) -> Seq<SecretKey> {
    seq![
        wallet.account_key.secret,
        wallet.consensus_key.secret,
        wallet.protocol_key.secret,
        wallet.tendermint_node_key.secret,
        wallet.eth_hot_key.secret,
        wallet.eth_cold_key.secret,
    ]
}

/// Whether the signatures of every key of the validator on `message` are known.
pub open spec fn validator_can_sign(
    wallet: ValidatorWallet,
    message: Seq<u8>,
    signatures: Map<SigningRequestView, Signature>,
) -> bool {
    &&& can_sign(signatures, wallet.account_key.secret, message)
    &&& can_sign(signatures, wallet.consensus_key.secret, message)
    &&& can_sign(signatures, wallet.protocol_key.secret, message)
    &&& can_sign(signatures, wallet.tendermint_node_key.secret, message)
    &&& can_sign(signatures, wallet.eth_hot_key.secret, message)
    &&& can_sign(signatures, wallet.eth_cold_key.secret, message)
}

/// A validator can sign where every one of its keys can.
pub proof fn lemma_validator_can_sign(
    wallet: ValidatorWallet,
    message: Seq<u8>,
    signatures: Map<SigningRequestView, Signature>,
)
    requires
        forall|i: int|
            0 <= i < 6 ==> can_sign(signatures, #[trigger] validator_secrets(wallet)[i], message),
    ensures
        validator_can_sign(wallet, message, signatures),
{
    let keys = validator_secrets(wallet);
    assert(keys[0] == wallet.account_key.secret);
    assert(keys[1] == wallet.consensus_key.secret);
    assert(keys[2] == wallet.protocol_key.secret);
    assert(keys[3] == wallet.tendermint_node_key.secret);
    assert(keys[4] == wallet.eth_hot_key.secret);
    assert(keys[5] == wallet.eth_cold_key.secret);
}

/// What has to be known to sign a validator account with every validator key.
pub fn validator_signing_requests(
    unsigned_tx: &UnsignedValidatorAccountTx,
    validator_wallet: &ValidatorWallet,
) -> (r: Vec<SigningRequest>)
    requires
        unsigned_tx.fits(),
    ensures
        r@.len() == 6,
        forall|i: int|
            0 <= i < 6 ==> (#[trigger] r@[i])@ == (SigningRequestView {
                key: validator_secrets(*validator_wallet)[i],
                message: unsigned_tx.encoding(),
            }),
        forall|signatures: Map<SigningRequestView, Signature>| #[trigger]
            answers_requests(signatures, r@) <==> validator_can_sign(
                *validator_wallet,
                unsigned_tx.encoding(),
                signatures,
            ),
{
    let keys: [SecretKey; 6] = [
        validator_wallet.account_key.secret,
        validator_wallet.consensus_key.secret,
        validator_wallet.protocol_key.secret,
        validator_wallet.tendermint_node_key.secret,
        validator_wallet.eth_hot_key.secret,
        validator_wallet.eth_cold_key.secret,
    ];
    assert(keys@ =~= validator_secrets(*validator_wallet));
    let mut r: Vec<SigningRequest> = Vec::new();
    let mut i: usize = 0;
    while i < 6
        invariant
            i <= 6,
            unsigned_tx.fits(),
            r@.len() == i,
            keys@ == validator_secrets(*validator_wallet),
            forall|j: int|
                0 <= j < i ==> (#[trigger] r@[j])@ == (SigningRequestView {
                    key: keys@[j],
                    message: unsigned_tx.encoding(),
                }),
        decreases 6 - i,
    {
        r.push(SigningRequest { key: keys[i], message: unsigned_tx.serialize_to_vec() });
        i = i + 1;
    }
    proof {
        let message = unsigned_tx.encoding();
        assert forall|signatures: Map<SigningRequestView, Signature>| #[trigger]
            answers_requests(signatures, r@) <==> validator_can_sign(
                *validator_wallet,
                message,
                signatures,
            ) by {
            if answers_requests(signatures, r@) {
                assert forall|j: int| 0 <= j < 6 implies can_sign(
                    signatures,
                    #[trigger] validator_secrets(*validator_wallet)[j],
                    message,
                ) by {
                    assert(requests_signature(r@, r@[j]@));
                }
                lemma_validator_can_sign(*validator_wallet, message, signatures);
            }
        }
    }
    r
}

/// Signs a validator account with every validator key, to authorize their usage.
pub fn sign_validator_account_tx(
    unsigned_tx: UnsignedValidatorAccountTx,
    validator_wallet: &ValidatorWallet,
    signatures: &SignatureBook,
) -> (r: SignedValidatorAccountTx)
    requires
        unsigned_tx.fits(),
        validator_can_sign(*validator_wallet, unsigned_tx.encoding(), signatures@),
    ensures
        r == with_authorizations(unsigned_tx, *validator_wallet, signatures@),
        without_authorizations(r) == unsigned_tx,
        r.account_key.authorization.raw == signatures@[(SigningRequestView {
            key: validator_wallet.account_key.secret,
            message: unsigned_tx.encoding(),
        })],
        r.consensus_key.authorization.raw == signatures@[(SigningRequestView {
            key: validator_wallet.consensus_key.secret,
            message: unsigned_tx.encoding(),
        })],
        r.protocol_key.authorization.raw == signatures@[(SigningRequestView {
            key: validator_wallet.protocol_key.secret,
            message: unsigned_tx.encoding(),
        })],
        r.tendermint_node_key.authorization.raw == signatures@[(SigningRequestView {
            key: validator_wallet.tendermint_node_key.secret,
            message: unsigned_tx.encoding(),
        })],
        r.eth_hot_key.authorization.raw == signatures@[(SigningRequestView {
            key: validator_wallet.eth_hot_key.secret,
            message: unsigned_tx.encoding(),
        })],
        r.eth_cold_key.authorization.raw == signatures@[(SigningRequestView {
            key: validator_wallet.eth_cold_key.secret,
            message: unsigned_tx.encoding(),
        })],
{
    let account_key_sig = sign_tx(&unsigned_tx, &validator_wallet.account_key.secret, signatures);
    let consensus_key_sig = sign_tx(
        &unsigned_tx,
        &validator_wallet.consensus_key.secret,
        signatures,
    );
    let protocol_key_sig = sign_tx(&unsigned_tx, &validator_wallet.protocol_key.secret, signatures);
    let eth_hot_key_sig = sign_tx(&unsigned_tx, &validator_wallet.eth_hot_key.secret, signatures);
    let eth_cold_key_sig = sign_tx(&unsigned_tx, &validator_wallet.eth_cold_key.secret, signatures);
    let tendermint_node_key_sig = sign_tx(
        &unsigned_tx,
        &validator_wallet.tendermint_node_key.secret,
        signatures,
    );
    ValidatorAccountTx {
        account_key: SignedPk { pk: unsigned_tx.account_key, authorization: account_key_sig },
        consensus_key: SignedPk { pk: unsigned_tx.consensus_key, authorization: consensus_key_sig },
        protocol_key: SignedPk { pk: unsigned_tx.protocol_key, authorization: protocol_key_sig },
        tendermint_node_key: SignedPk {
            pk: unsigned_tx.tendermint_node_key,
            authorization: tendermint_node_key_sig,
        },
        vp: unsigned_tx.vp,
        commission_rate: unsigned_tx.commission_rate,
        max_commission_rate_change: unsigned_tx.max_commission_rate_change,
        email: unsigned_tx.email,
        description: unsigned_tx.description,
        website: unsigned_tx.website,
        discord_handle: unsigned_tx.discord_handle,
        net_address: unsigned_tx.net_address,
        eth_hot_key: SignedPk { pk: unsigned_tx.eth_hot_key, authorization: eth_hot_key_sig },
        eth_cold_key: SignedPk { pk: unsigned_tx.eth_cold_key, authorization: eth_cold_key_sig },
    }
}

} // verus!
