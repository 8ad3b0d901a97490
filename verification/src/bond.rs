//! Bonds, and their signatures.

use crate::address::{
    lemma_address_encoding_injective, lemma_genesis_address_splits, Address, GenesisAddress,
};
use crate::amount::{
    fits_native, lemma_amount_encoding, lemma_native_amount, lemma_worth_same_as_third,
    native_amount, worth_same, AmountError, DenominatedAmount, NATIVE_MAX_DECIMAL_PLACES,
};
use crate::answers::{
    accepts, asks, can_sign, lemma_asks_concat, signature_by, SignatureBook, SignatureCheck,
    SignatureCheckView, SigningRequest, SigningRequestView, Verdicts,
};
use crate::codec::{bytes_encoding, concat, lemma_split, Encode};
use crate::keys::{PublicKey, SecretKey, Signature, StringEncoded};
use crate::templates::{AmountTemplate, Unvalidated, Validated};
use vstd::prelude::*;

verus! {

/// Tokens of `source` that are bonded to `validator`.
#[derive(Clone, Copy, Debug, PartialEq, Eq)]
pub struct BondTx<T: AmountTemplate> {
    pub source: GenesisAddress,
    pub validator: Address,
    pub amount: T::Amount,
}

/// Data with signatures.
#[derive(Clone, Debug, PartialEq, Eq)]
pub struct Signed<T> {
    pub data: T,
    pub signatures: Vec<StringEncoded<Signature>>,
}

/// A bond with signatures.
pub type SignedBondTx<T> = Signed<BondTx<T>>;

/// Why the signatures of a transaction were not accepted.
#[derive(Clone, Copy, Debug, PartialEq, Eq, Structural)]
pub enum VerifySigError {
    /// There are more keys than a threshold can count.
    TooGoddamnBig,
    /// The threshold, and how many keys have signed.
    ThresholdNotMet(u8, u8),
}

/// The amount that is signed for a bond: the one with the decimal places of the
/// native token where it can be written so, else the one that is given.
pub open spec fn signable_amount(amount: DenominatedAmount) -> DenominatedAmount {
    if fits_native(amount) {
        native_amount(amount)
    } else {
        amount
    }
}

/// The signable data of a bond.
pub open spec fn bond_data(source: GenesisAddress, validator: Address, amount: DenominatedAmount)
    -> Seq<u8> {
    source.encoding() + (validator.encoding() + signable_amount(amount).encoding())
}

/// The message that is signed for a bond: its signable data, encoded as a byte
/// string.
pub open spec fn bond_message(source: GenesisAddress, validator: Address, amount: DenominatedAmount)
    -> Seq<u8> {
    bytes_encoding(bond_data(source, validator, amount))
}

/// The signable data of a bond is short.
pub proof fn lemma_bond_data_len(source: GenesisAddress, validator: Address, amount: DenominatedAmount)
    ensures
        bond_data(source, validator, amount).len() < 100,
{
    lemma_amount_encoding(signable_amount(amount), signable_amount(amount));
}

/// The amount that is signed is worth the amount that is given.
pub proof fn lemma_signable_amount(amount: DenominatedAmount)
    ensures
        worth_same(amount, signable_amount(amount)),
{
    if fits_native(amount) {
        lemma_native_amount(amount);
    }
}

/// Bonds with the same signable data have the same source and validator, and amounts
/// that are worth the same.
pub proof fn lemma_bond_data_injective(
    source: GenesisAddress,
    validator: Address,
    amount: DenominatedAmount,
    source2: GenesisAddress,
    validator2: Address,
    amount2: DenominatedAmount,
)
    requires
        bond_data(source, validator, amount) == bond_data(source2, validator2, amount2),
    ensures
        source == source2,
        validator == validator2,
        worth_same(amount, amount2),
{
    let (a, b) = (signable_amount(amount), signable_amount(amount2));
    let x = validator.encoding() + a.encoding();
    let y = validator2.encoding() + b.encoding();
    lemma_genesis_address_splits(source, x, source2, y);
    lemma_amount_encoding(a, b);
    lemma_amount_encoding(b, a);
    lemma_split(validator.encoding(), a.encoding(), validator2.encoding(), b.encoding());
    lemma_address_encoding_injective(validator, validator2);
    lemma_signable_amount(amount);
    lemma_signable_amount(amount2);
    lemma_worth_same_as_third(amount, amount2, a);
}

/// Whether one of the signatures is a signature of `message` by `pk`.
pub open spec fn has_signature(
    message: Seq<u8>,
    pk: PublicKey,
    signatures: Seq<StringEncoded<Signature>>,
    verdicts: Map<SignatureCheckView, bool>,
) -> bool {
    exists|j: int|
        0 <= j < signatures.len() && accepts(
            verdicts,
            message,
            pk,
            (#[trigger] signatures[j]).raw,
        )
}

/// Whether `c` asks if one of the signatures is by one of the keys.
pub open spec fn is_check_of(
    message: Seq<u8>,
    pks: Seq<PublicKey>,
    signatures: Seq<StringEncoded<Signature>>,
    c: SignatureCheckView,
) -> bool {
    &&& c.message == message
    &&& pks.contains(c.key)
    &&& exists|j: int| 0 <= j < signatures.len() && (#[trigger] signatures[j]).raw == c.signature
}

/// How many of the keys have signed `message`.
pub open spec fn signed_keys(
    message: Seq<u8>,
    pks: Seq<PublicKey>,
    signatures: Seq<StringEncoded<Signature>>,
    verdicts: Map<SignatureCheckView, bool>,
) -> nat
    decreases pks.len(),
{
    if pks.len() == 0 {
        0
    } else {
        signed_keys(message, pks.drop_last(), signatures, verdicts) + if has_signature(
            message,
            pks.last(),
            signatures,
            verdicts,
        ) {
            1nat
        } else {
            0nat
        }
    }
}

/// Whether enough of the keys have signed `message`.
pub open spec fn verify_outcome(
    message: Seq<u8>,
    pks: Seq<PublicKey>,
    threshold: u8,
    signatures: Seq<StringEncoded<Signature>>,
    verdicts: Map<SignatureCheckView, bool>,
) -> Result<(), VerifySigError> {
    let n = signed_keys(message, pks, signatures, verdicts);
    if pks.len() > u8::MAX {
        Err(VerifySigError::TooGoddamnBig)
    } else if n >= threshold {
        Ok(())
    } else {
        Err(VerifySigError::ThresholdNotMet(threshold, n as u8))
    }
}

/// No more keys have signed than there are, and the first keys alone do not
/// count for more than all.
pub proof fn lemma_signed_keys(
    message: Seq<u8>,
    pks: Seq<PublicKey>,
    n: int,
    signatures: Seq<StringEncoded<Signature>>,
    verdicts: Map<SignatureCheckView, bool>,
)
    requires
        0 <= n <= pks.len(),
    ensures
        signed_keys(message, pks, signatures, verdicts) <= pks.len(),
        signed_keys(message, pks.take(n), signatures, verdicts) <= signed_keys(
            message,
            pks,
            signatures,
            verdicts,
        ),
    decreases pks.len(),
{
    if pks.len() > 0 {
        if n < pks.len() {
            lemma_signed_keys(message, pks.drop_last(), n, signatures, verdicts);
            assert(pks.drop_last().take(n) =~= pks.take(n));
        } else {
            lemma_signed_keys(message, pks.drop_last(), n - 1, signatures, verdicts);
            assert(pks.take(n) =~= pks);
        }
    } else {
        assert(pks.take(n) =~= pks);
    }
}

impl<T: AmountTemplate<Amount = DenominatedAmount>> BondTx<T> {
    /// The signable data. This depends neither on the kind of template nor on whether
    /// the amount is denominated.
    pub fn data_to_sign(&self) -> (r: Vec<u8>)
        ensures
            r@ == bond_data(self.source, self.validator, self.amount),
    {
        let amount: DenominatedAmount = match self.amount.to_native() {
            Ok(amount) => amount,
            Err(_) => self.amount,
        };
        concat(
            self.source.serialize_to_vec(),
            concat(self.validator.serialize_to_vec(), amount.serialize_to_vec()),
        )
    }

    /// The message that is signed.
    pub fn message_to_sign(&self) -> (r: Vec<u8>)
        ensures
            r@ == bond_message(self.source, self.validator, self.amount),
    {
        proof {
            lemma_bond_data_len(self.source, self.validator, self.amount);
        }
        self.data_to_sign().serialize_to_vec()
    }
}

impl<T: AmountTemplate<Amount = DenominatedAmount>> SignedBondTx<T> {
    /// Whether one of the signatures is by `pk`.
    fn signed_by(&self, pk: &PublicKey, verdicts: &Verdicts) -> (r: bool)
        ensures
            r == has_signature(
                bond_message(self.data.source, self.data.validator, self.data.amount),
                *pk,
                self.signatures@,
                verdicts@,
            ),
    {
        let ghost message = bond_message(self.data.source, self.data.validator, self.data.amount);
        let mut j: usize = 0;
        while j < self.signatures.len()
            invariant
                j <= self.signatures@.len(),
                message == bond_message(self.data.source, self.data.validator, self.data.amount),
                forall|i: int|
                    0 <= i < j ==> !accepts(
                        verdicts@,
                        message,
                        *pk,
                        (#[trigger] self.signatures@[i]).raw,
                    ),
            decreases self.signatures@.len() - j,
        {
            let data: Vec<u8> = self.data.data_to_sign();
            proof {
                lemma_bond_data_len(self.data.source, self.data.validator, self.data.amount);
            }
            if validate_signature(&data, pk, &self.signatures[j].raw, verdicts) {
                assert(accepts(verdicts@, message, *pk, self.signatures@[j as int].raw));
                return true;
            }
            j = j + 1;
        }
        false
    }

    /// What has to be known of the signatures to tell which of the keys have signed.
    pub fn signature_checks(&self, pks: &[PublicKey]) -> (r: Vec<SignatureCheck>)
        ensures
            forall|c: SignatureCheckView| #[trigger]
                asks(r@, c) <==> is_check_of(
                    bond_message(self.data.source, self.data.validator, self.data.amount),
                    pks@,
                    self.signatures@,
                    c,
                ),
    {
        let ghost message = bond_message(self.data.source, self.data.validator, self.data.amount);
        let ghost signatures = self.signatures@;
        let mut r: Vec<SignatureCheck> = Vec::new();
        let mut i: usize = 0;
        while i < pks.len()
            invariant
                i <= pks@.len(),
                message == bond_message(self.data.source, self.data.validator, self.data.amount),
                signatures == self.signatures@,
                forall|c: SignatureCheckView| #[trigger]
                    asks(r@, c) <==> is_check_of(message, pks@.take(i as int), signatures, c),
            decreases pks@.len() - i,
        {
            let ghost before = r@;
            let pk: PublicKey = pks[i];
            let mut more: Vec<SignatureCheck> = Vec::new();
            let mut j: usize = 0;
            while j < self.signatures.len()
                invariant
                    j <= self.signatures@.len(),
                    message == bond_message(
                        self.data.source,
                        self.data.validator,
                        self.data.amount,
                    ),
                    signatures == self.signatures@,
                    more@.len() == j,
                    forall|k: int|
                        0 <= k < j ==> (#[trigger] more@[k])@ == (SignatureCheckView {
                            message,
                            key: pk,
                            signature: signatures[k].raw,
                        }),
                decreases self.signatures@.len() - j,
            {
                more.push(
                    SignatureCheck {
                        message: self.data.message_to_sign(),
                        key: pk,
                        signature: self.signatures[j].raw,
                    },
                );
                j = j + 1;
            }
            let ghost added = more@;
            r.append(&mut more);
            proof {
                lemma_asks_concat(before, added);
                let (first, last) = (pks@.take(i as int), pks@.take(i + 1));
                assert forall|c: SignatureCheckView| #[trigger]
                    asks(r@, c) <==> is_check_of(message, last, signatures, c) by {
                    assert(asks(r@, c) <==> asks(before, c) || asks(added, c));
                    if asks(before, c) {
                        let k = first.index_of(c.key);
                        assert(last[k] == c.key);
                    }
                    if asks(added, c) {
                        let k = choose|k: int| 0 <= k < added.len() && (#[trigger] added[k])@ == c;
                        assert(last[i as int] == c.key);
                        assert(signatures[k].raw == c.signature);
                    }
                    if is_check_of(message, last, signatures, c) {
                        let k = last.index_of(c.key);
                        if k < i {
                            assert(first[k] == c.key);
                        } else {
                            let j = choose|j: int|
                                0 <= j < signatures.len() && (#[trigger] signatures[j]).raw
                                    == c.signature;
                            assert(added[j]@ == c);
                        }
                    }
                }
            }
            i = i + 1;
        }
        assert(pks@.take(i as int) =~= pks@);
        r
    }

    /// Verify the signatures of `BondTx`. This does not depend on whether the
    /// contained amount is denominated or not, because what is signed is the amount
    /// with the decimal places of the native token.
    pub fn verify_sig(&self, pks: &[PublicKey], threshold: u8, verdicts: &Verdicts) -> (r: Result<
        (),
        VerifySigError,
    >)
        ensures
            r == verify_outcome(
                bond_message(self.data.source, self.data.validator, self.data.amount),
                pks@,
                threshold,
                self.signatures@,
                verdicts@,
            ),
    {
        let ghost message = bond_message(self.data.source, self.data.validator, self.data.amount);
        if pks.len() > u8::MAX as usize {
            return Err(VerifySigError::TooGoddamnBig);
        }
        let mut valid_sigs: u8 = 0;
        let mut i: usize = 0;
        assert(pks@.take(0) =~= Seq::empty());
        while i < pks.len()
            invariant
                i <= pks@.len() <= u8::MAX,
                valid_sigs <= i,
                message == bond_message(self.data.source, self.data.validator, self.data.amount),
                valid_sigs == signed_keys(message, pks@.take(i as int), self.signatures@, verdicts@),
            decreases pks@.len() - i,
        {
            assert(pks@.take(i + 1).drop_last() =~= pks@.take(i as int));
            if self.signed_by(&pks[i], verdicts) {
                valid_sigs = valid_sigs + 1;
            }
            i = i + 1;
            if valid_sigs >= threshold {
                proof {
                    lemma_signed_keys(message, pks@, i as int, self.signatures@, verdicts@);
                }
                return Ok(());
            }
        }
        assert(pks@.take(i as int) =~= pks@);
        if valid_sigs >= threshold {
            Ok(())
        } else {
            Err(VerifySigError::ThresholdNotMet(threshold, valid_sigs))
        }
    }
}

/// Whether `sig` is a signature of the encoding of `tx_data` by `pk`.
pub fn validate_signature<T: Encode>(
    tx_data: &T,
    pk: &PublicKey,
    sig: &Signature,
    verdicts: &Verdicts,
) -> (r: bool)
    requires
        tx_data.fits(),
    ensures
        r == accepts(verdicts@, tx_data.encoding(), *pk, *sig),
        r <==> verdicts@.contains_pair(
            (SignatureCheckView { message: tx_data.encoding(), key: *pk, signature: *sig }),
            true,
        ),
{
    let check: SignatureCheck = SignatureCheck {
        message: tx_data.serialize_to_vec(),
        key: *pk,
        signature: *sig,
    };
    match verdicts.get(&check) {
        Some(valid) => *valid,
        None => false,
    }
}

/// The signatures that the keys give to `message`.
pub open spec fn signatures_by(
    keys: Seq<SecretKey>,
    message: Seq<u8>,
    signatures: Map<SigningRequestView, Signature>,
) -> Seq<StringEncoded<Signature>> {
    keys.map_values(|sk: SecretKey| StringEncoded { raw: signature_by(signatures, sk, message) })
}

/// Whether it is known which signatures the keys give to `message`.
pub open spec fn all_can_sign(
    keys: Seq<SecretKey>,
    message: Seq<u8>,
    signatures: Map<SigningRequestView, Signature>,
) -> bool {
    forall|i: int| 0 <= i < keys.len() ==> can_sign(signatures, #[trigger] keys[i], message)
}

impl SignedBondTx<Unvalidated> {
    /// Sign the bond and add to the list of signatures.
    pub fn sign(&mut self, key: &[SecretKey], signatures: &SignatureBook)
        requires
            all_can_sign(
                key@,
                bond_message(old(self).data.source, old(self).data.validator, old(self).data.amount),
                signatures@,
            ),
        ensures
            final(self).data == old(self).data,
            final(self).signatures@.len() == old(self).signatures@.len() + key@.len(),
            forall|i: int|
                0 <= i < old(self).signatures@.len() ==> #[trigger] final(self).signatures@[i]
                    == old(self).signatures@[i],
            final(self).signatures@ == old(self).signatures@ + signatures_by(
                key@,
                bond_message(old(self).data.source, old(self).data.validator, old(self).data.amount),
                signatures@,
            ),
    {
        let ghost message = bond_message(self.data.source, self.data.validator, self.data.amount);
        let ghost before = self.signatures@;
        let ghost added = signatures_by(key@, message, signatures@);
        let ghost data = self.data;
        let mut i: usize = 0;
        assert(added.take(0) =~= Seq::empty());
        while i < key.len()
            invariant
                i <= key@.len(),
                self.data == data,
                message == bond_message(data.source, data.validator, data.amount),
                added == signatures_by(key@, message, signatures@),
                self.signatures@ == before + added.take(i as int),
                all_can_sign(key@, message, signatures@),
            decreases key@.len() - i,
        {
            assert(can_sign(signatures@, key@[i as int], message));
            let request: SigningRequest = SigningRequest {
                key: key[i],
                message: self.data.message_to_sign(),
            };
            let signature: Signature = *signatures.get(&request).unwrap();
            self.signatures.push(StringEncoded::new(signature));
            i = i + 1;
            assert(added.take(i as int) =~= added.take(i - 1).push(added[i - 1]));
            assert(self.signatures@ =~= before + added.take(i as int));
        }
        assert(added.take(i as int) =~= added);
    }

    /// What has to be known to sign the bond with `key`.
    pub fn signing_requests(&self, key: &[SecretKey]) -> (r: Vec<SigningRequest>)
        ensures
            r@.len() == key@.len(),
            forall|i: int|
                0 <= i < key@.len() ==> (#[trigger] r@[i])@ == (SigningRequestView {
                    key: key@[i],
                    message: bond_message(
                        self.data.source,
                        self.data.validator,
                        self.data.amount,
                    ),
                }),
    {
        let mut r: Vec<SigningRequest> = Vec::new();
        let mut i: usize = 0;
        while i < key.len()
            invariant
                i <= key@.len(),
                r@.len() == i,
                forall|j: int|
                    0 <= j < i ==> (#[trigger] r@[j])@ == (SigningRequestView {
                        key: key@[j],
                        message: bond_message(
                            self.data.source,
                            self.data.validator,
                            self.data.amount,
                        ),
                    }),
            decreases key@.len() - i,
        {
            r.push(SigningRequest { key: key[i], message: self.data.message_to_sign() });
            i = i + 1;
        }
        r
    }
}

/// Whether the amount of a bond can be written with the decimal places of the
/// native token.
pub open spec fn can_denominate(bond: BondTx<Unvalidated>) -> bool {
    fits_native(bond.amount)
}

/// The bond with its amount written with the decimal places of the native token.
pub open spec fn denominated(bond: BondTx<Unvalidated>) -> BondTx<Validated> {
    BondTx { source: bond.source, validator: bond.validator, amount: native_amount(bond.amount) }
}

impl BondTx<Unvalidated> {
    /// Add the correct denomination to the contained amount
    pub fn denominate(self) -> (r: Result<BondTx<Validated>, AmountError>)
        ensures
            match r {
                Ok(bond) => can_denominate(self) && bond == denominated(self) && bond.source
                    == self.source && bond.validator == self.validator && bond.amount.denom == 6,
                Err(AmountError::PrecisionDecrease) => self.amount.denom
                    > NATIVE_MAX_DECIMAL_PLACES,
                Err(AmountError::PrecisionOverflow) => self.amount.denom
                    <= NATIVE_MAX_DECIMAL_PLACES && !can_denominate(self),
            },
    {
        match self.amount.to_native() {
            Ok(amount) => Ok(
                BondTx { source: self.source, validator: self.validator, amount },
            ),
            Err(e) => Err(e),
        }
    }
}

// What comes out is said by `from` itself, over the contents of the vector.
impl<T: AmountTemplate> vstd::std_specs::convert::FromSpecImpl<BondTx<T>> for SignedBondTx<T> {
    open spec fn obeys_from_spec() -> bool {
        false
    }

    open spec fn from_spec(bond: BondTx<T>) -> Self {
        arbitrary()
    }
}

impl<T: AmountTemplate> From<BondTx<T>> for SignedBondTx<T> {
    fn from(bond: BondTx<T>) -> (r: Self)
        ensures
            r.data == bond,
            r.signatures@ == Seq::<StringEncoded<Signature>>::empty(),
    {
        Signed { data: bond, signatures: Vec::new() }
    }
}

impl<'a> vstd::std_specs::convert::FromSpecImpl<&'a SignedBondTx<Unvalidated>> for BondTx<Unvalidated> {
    open spec fn obeys_from_spec() -> bool {
        true
    }

    open spec fn from_spec(tx: &'a SignedBondTx<Unvalidated>) -> Self {
        tx.data
    }
}

impl<'a> From<&'a SignedBondTx<Unvalidated>> for BondTx<Unvalidated> {
    fn from(tx: &'a SignedBondTx<Unvalidated>) -> (r: Self)
        ensures
            r.source == tx.data.source,
            r.validator == tx.data.validator,
            r.amount == tx.data.amount,
    {
        BondTx { source: tx.data.source, validator: tx.data.validator, amount: tx.data.amount }
    }
}

} // verus!
