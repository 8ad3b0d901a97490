//! What holds of the library as a whole.

use crate::account::{
    with_authorizations, without_authorizations, EstablishedAccountTx, EstablishedAccountView,
    SignedValidatorAccountTx, UnsignedValidatorAccountTx, ValidatorAccountView,
};
use crate::account_validation::{
    accounts_valid, addresses_of, authorizations_valid, established_keys, keys_of, raw_keys,
    unsigned_accounts, validator_accepted, validator_account_ok, validator_keys, vp_exists,
    AccountKeysView,
};
use crate::address::{Address, EstablishedAddress, GenesisAddress};
use crate::amount::{
    lemma_native_amount, lemma_pow10_monotonic, lemma_pow10_positive, lemma_uint_from,
    lemma_uint_view, pow10, rate_in_bounds, uint_limit, worth_less, worth_same, Dec,
    DenominatedAmount, NATIVE_MAX_DECIMAL_PLACES,
};
use crate::answers::{
    accepts, address_of, established_address_of, signature_by, DerivationView,
    DeriveEstablishedAddress, SignatureCheckView, SigningRequestView, StakeConversion,
};
use crate::bond::{
    bond_data, bond_message, can_denominate, denominated, has_signature, is_check_of,
    lemma_bond_data_injective, lemma_bond_data_len, signatures_by, signed_keys, verify_outcome,
    BondTx, SignedBondTx, VerifySigError,
};
use crate::bond_validation::{
    after_bond, after_bonds, after_payment, bond_signed, bond_valid, bonds_valid, can_pay,
    deduction_fits, deductions_fit, denominated_bonds, initial_balances, source_keys, BalancesView,
};
use crate::checks::{
    authorization_check, is_authorization_check, is_bond_check, is_validation_check,
};
use crate::codec::{lemma_bytes_encoding_splits, Encode};
use crate::keys::{
    secret_of, KeyPair, PublicKey, SecretKey, Signature, StringEncoded, ValidatorWallet,
};
use crate::signing::{
    account_keys, genesis_validator_account, genesis_validator_derivation, is_genesis_validator,
    is_signed_delegation, is_single_account, secrets_of, self_bond, self_bond_message,
    signing_keys, GenesisValidatorData,
};
use crate::templates::{DenominatedBalances, Parameters, Unvalidated, Validated, ValidityPredicates};
use crate::transactions::{
    conversion_of, has_voting_power, is_bonded, items, joined, stake_of, stakes_fit, Transactions,
    TransactionsView,
};
use crate::validate::{is_validated, transactions_valid};
use vstd::prelude::*;

verus! {

/// Merging transactions is associative.
pub proof fn law_merge_associative<B>(
    a: TransactionsView<B>,
    b: TransactionsView<B>,
    c: TransactionsView<B>,
)
    ensures
        a.merge(b).merge(c) == a.merge(b.merge(c)),
{
    lemma_joined_associative(a.established_account, b.established_account, c.established_account);
    lemma_joined_associative(a.validator_account, b.validator_account, c.validator_account);
    lemma_joined_associative(a.bond, b.bond, c.bond);
}

proof fn lemma_joined_associative<A>(a: Option<Seq<A>>, b: Option<Seq<A>>, c: Option<Seq<A>>)
    ensures
        joined(joined(a, b), c) == joined(a, joined(b, c)),
{
    match (a, b, c) {
        (Some(a), Some(b), Some(c)) => {
            assert((a + b) + c =~= a + (b + c));
        },
        _ => {},
    }
}

/// Merging with the default transactions, on either side, changes nothing.
pub proof fn law_merge_default<B>(a: TransactionsView<B>)
    ensures
        a.merge(TransactionsView::none()) == a,
        TransactionsView::none().merge(a) == a,
{
}

/// Denominating a bond keeps its source, its validator and what its amount is
/// worth, and gives the amount the decimal places of the native token. An amount
/// that has these already stays as it is.
pub proof fn law_denominate_keeps_worth(bond: BondTx<Unvalidated>)
    requires
        can_denominate(bond),
    ensures
        denominated(bond).source == bond.source,
        denominated(bond).validator == bond.validator,
        denominated(bond).amount.denom == NATIVE_MAX_DECIMAL_PLACES,
        worth_same(bond.amount, denominated(bond).amount),
        bond.amount.denom == NATIVE_MAX_DECIMAL_PLACES ==> denominated(bond).amount == bond.amount,
{
    lemma_native_amount(bond.amount);
}

/// The message that is signed for a bond, and so the outcome of verifying its
/// signatures, does not depend on whether its amount is denominated.
pub proof fn law_verify_ignores_denomination(bond: BondTx<Unvalidated>)
    requires
        can_denominate(bond),
    ensures
        bond_message(bond.source, bond.validator, bond.amount) == bond_message(
            bond.source,
            bond.validator,
            denominated(bond).amount,
        ),
        forall|
            pks: Seq<PublicKey>,
            threshold: u8,
            signatures: Seq<StringEncoded<Signature>>,
            verdicts: Map<SignatureCheckView, bool>,
        |
            #[trigger] verify_outcome(
                bond_message(bond.source, bond.validator, bond.amount),
                pks,
                threshold,
                signatures,
                verdicts,
            ) == verify_outcome(
                bond_message(bond.source, bond.validator, denominated(bond).amount),
                pks,
                threshold,
                signatures,
                verdicts,
            ),
{
    lemma_native_amount(bond.amount);
}

/// Bonds that differ in their source, in their validator or in what their amounts are
/// worth have different messages to sign.
pub proof fn law_bond_messages_differ(
    source: GenesisAddress,
    validator: Address,
    amount: DenominatedAmount,
    source2: GenesisAddress,
    validator2: Address,
    amount2: DenominatedAmount,
)
    requires
        bond_message(source, validator, amount) == bond_message(source2, validator2, amount2),
    ensures
        source == source2,
        validator == validator2,
        worth_same(amount, amount2),
{
    let (x, y) = (bond_data(source, validator, amount), bond_data(source2, validator2, amount2));
    lemma_bond_data_len(source, validator, amount);
    lemma_bond_data_len(source2, validator2, amount2);
    lemma_bytes_encoding_splits(x, Seq::empty(), y, Seq::empty());
    lemma_bond_data_injective(source, validator, amount, source2, validator2, amount2);
}

/// The addresses of established accounts and of validator accounts are derived
/// from different questions, and so are those of transactions of one kind that do
/// not say the same. The flow information and the scope of an IPv6 address of a
/// validator, which are not encoded, make no difference.
pub proof fn law_derivations_differ(
    a: EstablishedAccountView,
    b: EstablishedAccountView,
    v: ValidatorAccountView,
    w: ValidatorAccountView,
)
    requires
        a.fits(),
        b.fits(),
        v.fits(),
        w.fits(),
    ensures
        (DerivationView { salt: EstablishedAccountTx::salt(), data: a.encoding() }) != (
        DerivationView { salt: UnsignedValidatorAccountTx::salt(), data: v.encoding() }),
        a.encoding() == b.encoding() <==> a == b,
        v.encoding() == w.encoding() <==> v.encoded_part() == w.encoded_part(),
{
    reveal_strlit("established-account-tx");
    reveal_strlit("validator-account-tx");
    assert(EstablishedAccountTx::salt().len() != UnsignedValidatorAccountTx::salt().len());
    if a.encoding() == b.encoding() {
        crate::account::lemma_established_account_encoding_injective(a, b);
    }
    if v.encoding() == w.encoding() {
        crate::account::lemma_validator_account_encoding_injective(v, w);
    }
    assert(v.encoding() == v.encoded_part().encoding());
    assert(w.encoding() == w.encoded_part().encoding());
}

/// A validator account has the same address before and after its keys sign it.
pub proof fn law_signing_keeps_address(
    tx: UnsignedValidatorAccountTx,
    wallet: ValidatorWallet,
    signatures: Map<SigningRequestView, Signature>,
    addresses: Map<DerivationView, EstablishedAddress>,
)
    ensures
        without_authorizations(with_authorizations(tx, wallet, signatures)) == tx,
        address_of(
            addresses,
            without_authorizations(with_authorizations(tx, wallet, signatures)),
        ) == address_of(addresses, tx),
{
}

/// More signatures never make a key count less.
pub proof fn law_more_signatures(
    message: Seq<u8>,
    pks: Seq<PublicKey>,
    threshold: u8,
    signatures: Seq<StringEncoded<Signature>>,
    more: Seq<StringEncoded<Signature>>,
    verdicts: Map<SignatureCheckView, bool>,
)
    ensures
        signed_keys(message, pks, signatures, verdicts) <= signed_keys(
            message,
            pks,
            signatures + more,
            verdicts,
        ),
        verify_outcome(message, pks, threshold, signatures, verdicts) is Ok ==> verify_outcome(
            message,
            pks,
            threshold,
            signatures + more,
            verdicts,
        ) is Ok,
    decreases pks.len(),
{
    if pks.len() > 0 {
        law_more_signatures(message, pks.drop_last(), threshold, signatures, more, verdicts);
        if has_signature(message, pks.last(), signatures, verdicts) {
            let j = choose|j: int|
                0 <= j < signatures.len() && accepts(
                    verdicts,
                    message,
                    pks.last(),
                    (#[trigger] signatures[j]).raw,
                );
            assert((signatures + more)[j] == signatures[j]);
        }
    }
}

/// Neither the order of the signatures nor their repetition matters.
pub proof fn law_signatures_are_a_set(
    message: Seq<u8>,
    pks: Seq<PublicKey>,
    threshold: u8,
    signatures: Seq<StringEncoded<Signature>>,
    signatures2: Seq<StringEncoded<Signature>>,
    verdicts: Map<SignatureCheckView, bool>,
)
    requires
        forall|s: StringEncoded<Signature>|
            signatures.contains(s) <==> #[trigger] signatures2.contains(s),
    ensures
        verify_outcome(message, pks, threshold, signatures, verdicts) == verify_outcome(
            message,
            pks,
            threshold,
            signatures2,
            verdicts,
        ),
        signed_keys(message, pks, signatures, verdicts) == signed_keys(
            message,
            pks,
            signatures2,
            verdicts,
        ),
    decreases pks.len(),
{
    if pks.len() > 0 {
        let pk = pks.last();
        law_signatures_are_a_set(
            message,
            pks.drop_last(),
            threshold,
            signatures,
            signatures2,
            verdicts,
        );
        if has_signature(message, pk, signatures, verdicts) {
            let j = choose|j: int|
                0 <= j < signatures.len() && accepts(
                    verdicts,
                    message,
                    pk,
                    (#[trigger] signatures[j]).raw,
                );
            assert(signatures.contains(signatures[j]));
            assert(signatures2.contains(signatures[j]));
            let k = signatures2.index_of(signatures[j]);
            assert(accepts(verdicts, message, pk, signatures2[k].raw));
        }
        if has_signature(message, pk, signatures2, verdicts) {
            let j = choose|j: int|
                0 <= j < signatures2.len() && accepts(
                    verdicts,
                    message,
                    pk,
                    (#[trigger] signatures2[j]).raw,
                );
            assert(signatures2.contains(signatures2[j]));
            let k = signatures.index_of(signatures2[j]);
            assert(accepts(verdicts, message, pk, signatures[k].raw));
        }
    }
}

/// Leaving out one key takes away what it counts for.
proof fn lemma_signed_keys_remove(
    message: Seq<u8>,
    pks: Seq<PublicKey>,
    k: int,
    signatures: Seq<StringEncoded<Signature>>,
    verdicts: Map<SignatureCheckView, bool>,
)
    requires
        0 <= k < pks.len(),
    ensures
        signed_keys(message, pks, signatures, verdicts) == signed_keys(
            message,
            pks.remove(k),
            signatures,
            verdicts,
        ) + if has_signature(message, pks[k], signatures, verdicts) {
            1nat
        } else {
            0nat
        },
    decreases pks.len(),
{
    let first = pks.drop_last();
    if k < first.len() {
        lemma_signed_keys_remove(message, first, k, signatures, verdicts);
        assert(pks.remove(k).drop_last() =~= first.remove(k));
        assert(pks.remove(k).last() == pks.last());
    } else {
        assert(pks.remove(k) =~= first);
    }
}

/// The order of the keys does not matter.
pub proof fn law_order_of_keys(
    message: Seq<u8>,
    pks: Seq<PublicKey>,
    pks2: Seq<PublicKey>,
    threshold: u8,
    signatures: Seq<StringEncoded<Signature>>,
    verdicts: Map<SignatureCheckView, bool>,
)
    requires
        pks.to_multiset() == pks2.to_multiset(),
    ensures
        verify_outcome(message, pks, threshold, signatures, verdicts) == verify_outcome(
            message,
            pks2,
            threshold,
            signatures,
            verdicts,
        ),
        signed_keys(message, pks, signatures, verdicts) == signed_keys(
            message,
            pks2,
            signatures,
            verdicts,
        ),
    decreases pks.len(),
{
    pks.to_multiset_ensures();
    pks2.to_multiset_ensures();
    assert(pks.len() == pks2.len());
    if pks.len() > 0 {
        let n = pks.len() - 1;
        let pk = pks[n];
        assert(pks.contains(pk));
        assert(pks2.to_multiset().count(pk) > 0);
        let k = pks2.index_of(pk);
        assert(pks2[k] == pk);
        assert(pks.remove(n).to_multiset() == pks2.remove(k).to_multiset());
        law_order_of_keys(message, pks.remove(n), pks2.remove(k), threshold, signatures, verdicts);
        lemma_signed_keys_remove(message, pks, n, signatures, verdicts);
        lemma_signed_keys_remove(message, pks2, k, signatures, verdicts);
    }
}

/// The public keys of key pairs.
pub open spec fn publics(pairs: Seq<KeyPair>) -> Seq<PublicKey> {
    pairs.map_values(|p: KeyPair| p.public)
}

/// The secret keys of key pairs.
pub open spec fn secrets(pairs: Seq<KeyPair>) -> Seq<SecretKey> {
    pairs.map_values(|p: KeyPair| p.secret)
}

/// Whether the signature that the secret key gives to `message` is accepted for
/// the public key.
pub open spec fn pair_works(
    pair: KeyPair,
    message: Seq<u8>,
    signatures: Map<SigningRequestView, Signature>,
    verdicts: Map<SignatureCheckView, bool>,
) -> bool {
    accepts(verdicts, message, pair.public, signature_by(signatures, pair.secret, message))
}

/// Where every key is among those that have signed, every key counts.
proof fn lemma_all_signed(
    message: Seq<u8>,
    pks: Seq<PublicKey>,
    signatures: Seq<StringEncoded<Signature>>,
    verdicts: Map<SignatureCheckView, bool>,
)
    requires
        forall|i: int|
            0 <= i < pks.len() ==> has_signature(message, #[trigger] pks[i], signatures, verdicts),
    ensures
        signed_keys(message, pks, signatures, verdicts) == pks.len(),
    decreases pks.len(),
{
    if pks.len() > 0 {
        assert(has_signature(message, pks[pks.len() - 1], signatures, verdicts));
        assert forall|i: int| 0 <= i < pks.drop_last().len() implies has_signature(
            message,
            #[trigger] pks.drop_last()[i],
            signatures,
            verdicts,
        ) by {
            assert(has_signature(message, pks[i], signatures, verdicts));
        }
        lemma_all_signed(message, pks.drop_last(), signatures, verdicts);
    }
}

/// What is signed verifies: once the secret keys have signed a message, on top of
/// the signatures that were there, all the public keys count, and every threshold
/// up to their number is met.
pub proof fn law_signed_verifies(
    message: Seq<u8>,
    pairs: Seq<KeyPair>,
    threshold: u8,
    before: Seq<StringEncoded<Signature>>,
    signatures: Map<SigningRequestView, Signature>,
    verdicts: Map<SignatureCheckView, bool>,
)
    requires
        forall|i: int|
            0 <= i < pairs.len() ==> pair_works(#[trigger] pairs[i], message, signatures, verdicts),
    ensures
        signed_keys(
            message,
            publics(pairs),
            before + signatures_by(secrets(pairs), message, signatures),
            verdicts,
        ) == pairs.len(),
        threshold <= pairs.len() <= u8::MAX ==> verify_outcome(
            message,
            publics(pairs),
            threshold,
            before + signatures_by(secrets(pairs), message, signatures),
            verdicts,
        ) is Ok,
{
    let added = signatures_by(secrets(pairs), message, signatures);
    let all = before + added;
    assert forall|i: int| 0 <= i < publics(pairs).len() implies has_signature(
        message,
        #[trigger] publics(pairs)[i],
        all,
        verdicts,
    ) by {
        assert(pair_works(pairs[i], message, signatures, verdicts));
        assert(all[before.len() + i] == added[i]);
        assert(accepts(verdicts, message, publics(pairs)[i], all[before.len() + i].raw));
    }
    lemma_all_signed(message, publics(pairs), all, verdicts);
}

/// Whether every balance of the token is written with at least the decimal places
/// of the native token.
pub open spec fn fine_balances(balances: BalancesView, token: Seq<char>) -> bool {
    balances.contains_key(token) ==> forall|source: GenesisAddress| #[trigger]
        balances[token].contains_key(source) ==> balances[token][source].denom
            >= NATIVE_MAX_DECIMAL_PLACES
}

/// Whether every balance of the token is written with the decimal places of the
/// native token.
pub open spec fn native_balances(balances: BalancesView, token: Seq<char>) -> bool {
    balances.contains_key(token) ==> forall|source: GenesisAddress| #[trigger]
        balances[token].contains_key(source) ==> balances[token][source].denom
            == NATIVE_MAX_DECIMAL_PLACES
}

/// Bonds leave the decimal places of the balances as they are.
proof fn lemma_bonds_keep_denom(
    txs: Seq<SignedBondTx<Unvalidated>>,
    balances: BalancesView,
    token: Seq<char>,
)
    ensures
        fine_balances(balances, token) ==> fine_balances(
            after_bonds(txs, balances, token),
            token,
        ),
        native_balances(balances, token) ==> native_balances(
            after_bonds(txs, balances, token),
            token,
        ),
    decreases txs.len(),
{
    if txs.len() > 0 {
        lemma_bonds_keep_denom(txs.drop_last(), balances, token);
    }
}

/// What is worth no less, written with no fewer decimal places, is no smaller a
/// number.
proof fn lemma_finer_is_larger(a: DenominatedAmount, b: DenominatedAmount)
    requires
        !worth_less(a, b),
        a.denom >= b.denom,
    ensures
        b.amount@ <= a.amount@,
{
    let (x, y) = (a.amount@, b.amount@);
    let (p, q) = (pow10(a.denom as nat), pow10(b.denom as nat));
    lemma_pow10_monotonic(b.denom as nat, a.denom as nat);
    lemma_pow10_positive(b.denom as nat);
    if y > x {
        assert(x * q < y * p) by (nonlinear_arith)
            requires
                y > x,
                p >= q,
                q >= 1,
                x >= 0,
        ;
    }
}

/// Where the balances of the native token are written with at least its decimal
/// places, no bond takes a larger number from a balance than it holds: there,
/// `validate` can always be called.
pub proof fn law_fine_balances_fit(
    txs: Seq<SignedBondTx<Unvalidated>>,
    balances: BalancesView,
    token: Seq<char>,
)
    requires
        fine_balances(balances, token),
    ensures
        deductions_fit(txs, balances, token),
{
    assert forall|i: int| 0 <= i < txs.len() implies deduction_fits(
        #[trigger] txs[i],
        after_bonds(txs.take(i), balances, token),
        token,
    ) by {
        let now = after_bonds(txs.take(i), balances, token);
        let bond = txs[i].data;
        lemma_bonds_keep_denom(txs.take(i), balances, token);
        if can_denominate(bond) && can_pay(now, token, bond.source, denominated(bond).amount) {
            lemma_finer_is_larger(now[token][bond.source], denominated(bond).amount);
        }
    }
}

/// The balance of an account in a token; nothing where it has none.
pub open spec fn balance_of(
    balances: BalancesView,
    token: Seq<char>,
    source: GenesisAddress,
) -> nat {
    if balances.contains_key(token) && balances[token].contains_key(source) {
        balances[token][source].amount@
    } else {
        0
    }
}

/// What the bonds take from `source`, counted in the smallest unit of the native
/// token.
pub open spec fn bonded_by(txs: Seq<SignedBondTx<Unvalidated>>, source: GenesisAddress) -> nat
    decreases txs.len(),
{
    if txs.len() == 0 {
        0
    } else {
        bonded_by(txs.drop_last(), source) + if txs.last().data.source == source {
            denominated(txs.last().data).amount.amount@
        } else {
            0
        }
    }
}

/// One valid bond takes its amount from its source, and nothing from others.
proof fn lemma_bond_pays(
    tx: SignedBondTx<Unvalidated>,
    balances: BalancesView,
    token: Seq<char>,
    source: GenesisAddress,
)
    requires
        native_balances(balances, token),
        can_denominate(tx.data),
        can_pay(balances, token, tx.data.source, denominated(tx.data).amount),
    ensures
        balance_of(balances, token, source) == balance_of(
            after_bond(tx, balances, token),
            token,
            source,
        ) + if tx.data.source == source {
            denominated(tx.data).amount.amount@
        } else {
            0
        },
{
    let amount = denominated(tx.data).amount;
    let balance = balances[token][tx.data.source];
    lemma_finer_is_larger(balance, amount);
    lemma_uint_view(balance.amount.raw, balance.amount.raw);
    lemma_uint_from((balance.amount@ - amount.amount@) as nat);
}

/// No account bonds more than it has: where all bonds are valid, what each account
/// had is what it has left and what it has bonded.
pub proof fn law_bonds_conserve_balances(
    txs: Seq<SignedBondTx<Unvalidated>>,
    balances: BalancesView,
    established_accounts: Map<Address, AccountKeysView>,
    validator_accounts: Map<Address, PublicKey>,
    token: Seq<char>,
    verdicts: Map<SignatureCheckView, bool>,
    source: GenesisAddress,
)
    requires
        native_balances(balances, token),
        bonds_valid(txs, balances, established_accounts, validator_accounts, token, verdicts),
    ensures
        balance_of(balances, token, source) == balance_of(
            after_bonds(txs, balances, token),
            token,
            source,
        ) + bonded_by(txs, source),
    decreases txs.len(),
{
    if txs.len() > 0 {
        let n = txs.len() - 1;
        let first = txs.drop_last();
        assert(first =~= txs.take(n));
        assert(bond_valid(
            txs[n],
            after_bonds(txs.take(n), balances, token),
            established_accounts,
            validator_accounts,
            token,
            verdicts,
        ));
        assert forall|i: int| 0 <= i < first.len() implies bond_valid(
            #[trigger] first[i],
            after_bonds(first.take(i), balances, token),
            established_accounts,
            validator_accounts,
            token,
            verdicts,
        ) by {
            assert(first.take(i) =~= txs.take(i));
            assert(first[i] == txs[i]);
        }
        law_bonds_conserve_balances(
            first,
            balances,
            established_accounts,
            validator_accounts,
            token,
            verdicts,
            source,
        );
        lemma_bonds_keep_denom(first, balances, token);
        lemma_bond_pays(txs.last(), after_bonds(first, balances, token), token, source);
    }
}

/// Bonds leave alone the balances in other tokens, and those of accounts that are
/// not the source of a bond.
pub proof fn law_bonds_leave_others(
    txs: Seq<SignedBondTx<Unvalidated>>,
    balances: BalancesView,
    token: Seq<char>,
    other: Seq<char>,
    source: GenesisAddress,
)
    ensures
        after_bonds(txs, balances, token).dom() == balances.dom(),
        other != token ==> after_bonds(txs, balances, token)[other] == balances[other],
        (forall|i: int| 0 <= i < txs.len() ==> (#[trigger] txs[i]).data.source != source) ==> {
            &&& after_bonds(txs, balances, token)[token].contains_key(source)
                == balances[token].contains_key(source)
            &&& after_bonds(txs, balances, token)[token][source] == balances[token][source]
        },
    decreases txs.len(),
{
    if txs.len() > 0 {
        let first = txs.drop_last();
        law_bonds_leave_others(first, balances, token, other, source);
        let before = after_bonds(first, balances, token);
        assert(after_bonds(txs, balances, token).dom() =~= before.dom());
        if forall|i: int| 0 <= i < txs.len() ==> (#[trigger] txs[i]).data.source != source {
            assert(txs[txs.len() - 1].data.source != source);
            assert forall|i: int| 0 <= i < first.len() implies (#[trigger] first[i]).data.source
                != source by {
                assert(txs[i].data.source != source);
            }
        }
    }
}

/// A balance that is used up cannot be bonded again, not even for nothing.
pub proof fn law_spent_balance_is_gone(
    balances: BalancesView,
    token: Seq<char>,
    source: GenesisAddress,
    more: DenominatedAmount,
)
    requires
        balances.contains_key(token),
        balances[token].contains_key(source),
    ensures
        !can_pay(
            after_payment(balances, token, source, balances[token][source]),
            token,
            source,
            more,
        ),
{
}

/// Whether the same validators have bonds, with the same stakes, and so the same
/// voting power at every rate.
pub open spec fn same_stakes(bonds: Seq<BondTx<Validated>>, bonds2: Seq<BondTx<Validated>>) -> bool {
    &&& forall|v: Address| #[trigger] stake_of(bonds, v) == stake_of(bonds2, v)
    &&& forall|v: Address| #[trigger] is_bonded(bonds, v) == is_bonded(bonds2, v)
    &&& stakes_fit(bonds) == stakes_fit(bonds2)
    &&& forall|votes_per_token: Dec, powers: Map<StakeConversion, i64>| #[trigger]
        has_voting_power(bonds, votes_per_token, powers) == has_voting_power(
            bonds2,
            votes_per_token,
            powers,
        )
}

/// What follows from equal stakes.
proof fn lemma_same_stakes(bonds: Seq<BondTx<Validated>>, bonds2: Seq<BondTx<Validated>>)
    requires
        forall|v: Address| #[trigger] stake_of(bonds, v) == stake_of(bonds2, v),
        forall|v: Address| #[trigger] is_bonded(bonds, v) == is_bonded(bonds2, v),
    ensures
        same_stakes(bonds, bonds2),
{
    assert(stakes_fit(bonds) == stakes_fit(bonds2)) by {
        if stakes_fit(bonds) {
            assert forall|v: Address| #[trigger] stake_of(bonds2, v) < uint_limit() by {
                assert(stake_of(bonds, v) < uint_limit());
            }
        }
        if stakes_fit(bonds2) {
            assert forall|v: Address| #[trigger] stake_of(bonds, v) < uint_limit() by {
                assert(stake_of(bonds2, v) < uint_limit());
            }
        }
    }
    assert forall|votes_per_token: Dec, powers: Map<StakeConversion, i64>| #[trigger]
        has_voting_power(bonds, votes_per_token, powers) == has_voting_power(
            bonds2,
            votes_per_token,
            powers,
        ) by {
        assert forall|v: Address|
            conversion_of(bonds, v, votes_per_token) == #[trigger] conversion_of(
                bonds2,
                v,
                votes_per_token,
            ) by {
            assert(stake_of(bonds, v) == stake_of(bonds2, v));
        }
        if has_voting_power(bonds, votes_per_token, powers) {
            let v = choose|v: Address| #[trigger]
                is_bonded(bonds, v) && powers[conversion_of(bonds, v, votes_per_token)] > 0;
            assert(is_bonded(bonds2, v));
            assert(powers[conversion_of(bonds2, v, votes_per_token)] > 0);
        }
        if has_voting_power(bonds2, votes_per_token, powers) {
            let v = choose|v: Address| #[trigger]
                is_bonded(bonds2, v) && powers[conversion_of(bonds2, v, votes_per_token)] > 0;
            assert(is_bonded(bonds, v));
            assert(conversion_of(bonds, v, votes_per_token) == conversion_of(
                bonds2,
                v,
                votes_per_token,
            ));
        }
    }
}

/// The tokens that one bond gives to `validator`.
spec fn stake_in(bond: BondTx<Validated>, validator: Address) -> nat {
    if bond.validator == validator {
        bond.amount.amount@
    } else {
        0
    }
}

/// Leaving out one bond takes away its tokens.
proof fn lemma_stake_remove(bonds: Seq<BondTx<Validated>>, k: int, validator: Address)
    requires
        0 <= k < bonds.len(),
    ensures
        stake_of(bonds, validator) == stake_of(bonds.remove(k), validator) + stake_in(
            bonds[k],
            validator,
        ),
    decreases bonds.len(),
{
    let first = bonds.drop_last();
    if k < first.len() {
        lemma_stake_remove(first, k, validator);
        assert(bonds.remove(k).drop_last() =~= first.remove(k));
        assert(bonds.remove(k).last() == bonds.last());
    } else {
        assert(bonds.remove(k) =~= first);
    }
}

proof fn lemma_stake_reordered(
    bonds: Seq<BondTx<Validated>>,
    bonds2: Seq<BondTx<Validated>>,
    validator: Address,
)
    requires
        bonds.to_multiset() == bonds2.to_multiset(),
    ensures
        stake_of(bonds, validator) == stake_of(bonds2, validator),
    decreases bonds.len(),
{
    bonds.to_multiset_ensures();
    bonds2.to_multiset_ensures();
    assert(bonds.len() == bonds2.len());
    if bonds.len() > 0 {
        let n = bonds.len() - 1;
        let bond = bonds[n];
        assert(bonds.contains(bond));
        assert(bonds2.to_multiset().count(bond) > 0);
        let k = bonds2.index_of(bond);
        assert(bonds2[k] == bond);
        assert(bonds.remove(n).to_multiset() == bonds2.remove(k).to_multiset());
        lemma_stake_reordered(bonds.remove(n), bonds2.remove(k), validator);
        lemma_stake_remove(bonds, n, validator);
        lemma_stake_remove(bonds2, k, validator);
    }
}

/// The order of the bonds makes no difference to who has a stake, to how much, and to
/// whether there is voting power.
pub proof fn law_order_of_bonds(bonds: Seq<BondTx<Validated>>, bonds2: Seq<BondTx<Validated>>)
    requires
        bonds.to_multiset() == bonds2.to_multiset(),
    ensures
        same_stakes(bonds, bonds2),
{
    bonds.to_multiset_ensures();
    bonds2.to_multiset_ensures();
    assert forall|v: Address| #[trigger] stake_of(bonds, v) == stake_of(bonds2, v) by {
        lemma_stake_reordered(bonds, bonds2, v);
    }
    assert forall|v: Address| #[trigger] is_bonded(bonds, v) == is_bonded(bonds2, v) by {
        if is_bonded(bonds, v) {
            let i = choose|i: int| 0 <= i < bonds.len() && (#[trigger] bonds[i]).validator == v;
            assert(bonds.contains(bonds[i]));
            assert(bonds2.to_multiset().count(bonds[i]) > 0);
            assert(bonds2[bonds2.index_of(bonds[i])].validator == v);
        }
        if is_bonded(bonds2, v) {
            let i = choose|i: int| 0 <= i < bonds2.len() && (#[trigger] bonds2[i]).validator == v;
            assert(bonds2.contains(bonds2[i]));
            assert(bonds.to_multiset().count(bonds2[i]) > 0);
            assert(bonds[bonds.index_of(bonds2[i])].validator == v);
        }
    }
    lemma_same_stakes(bonds, bonds2);
}

proof fn lemma_stake_ignores_sources(
    bonds: Seq<BondTx<Validated>>,
    bonds2: Seq<BondTx<Validated>>,
    validator: Address,
)
    requires
        bonds.len() == bonds2.len(),
        forall|i: int|
            0 <= i < bonds.len() ==> (#[trigger] bonds[i]).validator == bonds2[i].validator
                && bonds[i].amount == bonds2[i].amount,
    ensures
        stake_of(bonds, validator) == stake_of(bonds2, validator),
    decreases bonds.len(),
{
    if bonds.len() > 0 {
        let (first, first2) = (bonds.drop_last(), bonds2.drop_last());
        assert forall|i: int| 0 <= i < first.len() implies (#[trigger] first[i]).validator
            == first2[i].validator && first[i].amount == first2[i].amount by {
            assert(bonds[i].validator == bonds2[i].validator);
        }
        lemma_stake_ignores_sources(first, first2, validator);
        assert(bonds[bonds.len() - 1].validator == bonds2[bonds.len() - 1].validator);
    }
}

/// Who the bonds come from makes no difference to who has a stake, to how much, and to
/// whether there is voting power.
pub proof fn law_sources_of_bonds(bonds: Seq<BondTx<Validated>>, bonds2: Seq<BondTx<Validated>>)
    requires
        bonds.len() == bonds2.len(),
        forall|i: int|
            0 <= i < bonds.len() ==> (#[trigger] bonds[i]).validator == bonds2[i].validator
                && bonds[i].amount == bonds2[i].amount,
    ensures
        same_stakes(bonds, bonds2),
{
    assert forall|v: Address| #[trigger] stake_of(bonds, v) == stake_of(bonds2, v) by {
        lemma_stake_ignores_sources(bonds, bonds2, v);
    }
    assert forall|v: Address| #[trigger] is_bonded(bonds, v) == is_bonded(bonds2, v) by {
        if is_bonded(bonds, v) {
            let i = choose|i: int| 0 <= i < bonds.len() && (#[trigger] bonds[i]).validator == v;
            assert(bonds2[i].validator == v);
        }
        if is_bonded(bonds2, v) {
            let i = choose|i: int| 0 <= i < bonds2.len() && (#[trigger] bonds2[i]).validator == v;
            assert(bonds[i].validator == v);
        }
    }
    lemma_same_stakes(bonds, bonds2);
}

/// Two bonds to one validator may as well be one bond of their sum: this makes no
/// difference to who has a stake, to how much, and to whether there is voting power.
pub proof fn law_sum_of_bonds(
    bonds: Seq<BondTx<Validated>>,
    i: int,
    j: int,
    sum: BondTx<Validated>,
)
    requires
        0 <= i < bonds.len(),
        0 <= j < bonds.len(),
        i != j,
        bonds[i].validator == bonds[j].validator,
        sum.validator == bonds[i].validator,
        sum.amount.amount@ == bonds[i].amount.amount@ + bonds[j].amount.amount@,
    ensures
        same_stakes(bonds, bonds.update(i, sum).remove(j)),
{
    let updated = bonds.update(i, sum);
    let bonds2 = updated.remove(j);
    let k = if i < j {
        i
    } else {
        i - 1
    };
    assert(bonds2[k] == sum);
    assert forall|v: Address| #[trigger] stake_of(bonds, v) == stake_of(bonds2, v) by {
        lemma_stake_remove(bonds, i, v);
        lemma_stake_remove(updated, i, v);
        assert(bonds.remove(i) =~= updated.remove(i));
        lemma_stake_remove(updated, j, v);
    }
    assert forall|v: Address| #[trigger] is_bonded(bonds, v) == is_bonded(bonds2, v) by {
        if is_bonded(bonds, v) {
            let a = choose|a: int| 0 <= a < bonds.len() && (#[trigger] bonds[a]).validator == v;
            if a == i || a == j {
                assert(bonds2[k].validator == v);
            } else {
                let b = if a < j {
                    a
                } else {
                    a - 1
                };
                assert(bonds2[b] == bonds[a]);
            }
        }
        if is_bonded(bonds2, v) {
            let b = choose|b: int| 0 <= b < bonds2.len() && (#[trigger] bonds2[b]).validator == v;
            let a = if b < j {
                b
            } else {
                b + 1
            };
            assert(updated[a] == bonds2[b]);
            assert(bonds[a].validator == v);
        }
    }
    lemma_same_stakes(bonds, bonds2);
}

/// Without transactions there is nothing invalid.
pub proof fn law_default_is_valid(
    txs: Transactions<Unvalidated>,
    vps: Option<&ValidityPredicates>,
    balances: Option<&DenominatedBalances>,
    parameters: Option<&Parameters>,
    addresses: Map<DerivationView, EstablishedAddress>,
    verdicts: Map<SignatureCheckView, bool>,
)
    requires
        txs@ == TransactionsView::<SignedBondTx<Unvalidated>>::none(),
    ensures
        transactions_valid(txs, vps, balances, parameters, addresses, verdicts),
{
}

/// The accounts of validators are at the addresses derived from their
/// transactions.
proof fn lemma_validator_keys_addresses(
    txs: Seq<SignedValidatorAccountTx>,
    addresses: Map<DerivationView, EstablishedAddress>,
    a: Address,
)
    ensures
        validator_keys(txs, addresses).contains_key(a) <==> addresses_of(
            unsigned_accounts(txs),
            addresses,
        ).contains(a),
    decreases txs.len(),
{
    let addrs = addresses_of(unsigned_accounts(txs), addresses);
    if txs.len() > 0 {
        let first = txs.drop_last();
        let before = addresses_of(unsigned_accounts(first), addresses);
        lemma_validator_keys_addresses(first, addresses, a);
        assert(addrs =~= before.push(address_of(addresses, without_authorizations(txs.last()))));
        if before.contains(a) {
            assert(addrs[before.index_of(a)] == a);
        }
        if addrs.contains(a) && addrs.index_of(a) < before.len() {
            assert(before[addrs.index_of(a)] == a);
        }
        assert(addrs[before.len() as int] == address_of(
            addresses,
            without_authorizations(txs.last()),
        ));
    }
}

/// In valid transactions, every bond is for one of the validators of the same
/// transactions. So where there is a bond, there is a validator.
pub proof fn law_bonds_name_validators(
    txs: Transactions<Unvalidated>,
    vps: Option<&ValidityPredicates>,
    balances: Option<&DenominatedBalances>,
    parameters: Option<&Parameters>,
    addresses: Map<DerivationView, EstablishedAddress>,
    verdicts: Map<SignatureCheckView, bool>,
    i: int,
)
    requires
        transactions_valid(txs, vps, balances, parameters, addresses, verdicts),
        0 <= i < items(txs.bond).len(),
    ensures
        addresses_of(unsigned_accounts(items(txs.validator_account)), addresses).contains(
            items(txs.bond)[i].data.validator,
        ),
        items(txs.validator_account).len() > 0,
{
    let bonds = items(txs.bond);
    let validators = items(txs.validator_account);
    let token = parameters->0.native_token@;
    assert(bond_valid(
        bonds[i],
        after_bonds(bonds.take(i), initial_balances(balances), token),
        established_keys(items(txs.established_account), addresses),
        validator_keys(validators, addresses),
        token,
        verdicts,
    ));
    lemma_validator_keys_addresses(validators, addresses, bonds[i].data.validator);
}

/// In what `validate` returns, only validators of the same transactions have a
/// stake. So where a validator has voting power, there is a validator account.
pub proof fn law_stakes_belong_to_validators(
    txs: Transactions<Unvalidated>,
    vps: Option<&ValidityPredicates>,
    balances: Option<&DenominatedBalances>,
    parameters: Option<&Parameters>,
    addresses: Map<DerivationView, EstablishedAddress>,
    verdicts: Map<SignatureCheckView, bool>,
    validator: Address,
)
    requires
        transactions_valid(txs, vps, balances, parameters, addresses, verdicts),
        is_bonded(denominated_bonds(items(txs.bond)), validator),
    ensures
        addresses_of(unsigned_accounts(items(txs.validator_account)), addresses).contains(validator),
        items(txs.validator_account).len() > 0,
{
    let bonds = denominated_bonds(items(txs.bond));
    let i = choose|i: int| 0 <= i < bonds.len() && (#[trigger] bonds[i]).validator == validator;
    law_bonds_name_validators(txs, vps, balances, parameters, addresses, verdicts, i);
}

/// Where the verdicts agree on the questions about a bond, they agree on its
/// signatures.
proof fn lemma_signed_keys_agree(
    message: Seq<u8>,
    pks: Seq<PublicKey>,
    all_pks: Seq<PublicKey>,
    signatures: Seq<StringEncoded<Signature>>,
    verdicts: Map<SignatureCheckView, bool>,
    verdicts2: Map<SignatureCheckView, bool>,
)
    requires
        forall|i: int| 0 <= i < pks.len() ==> all_pks.contains(#[trigger] pks[i]),
        forall|c: SignatureCheckView| #[trigger]
            is_check_of(message, all_pks, signatures, c) ==> accepts(
                verdicts,
                c.message,
                c.key,
                c.signature,
            ) == accepts(verdicts2, c.message, c.key, c.signature),
    ensures
        signed_keys(message, pks, signatures, verdicts) == signed_keys(
            message,
            pks,
            signatures,
            verdicts2,
        ),
    decreases pks.len(),
{
    if pks.len() > 0 {
        let first = pks.drop_last();
        let pk = pks.last();
        assert(all_pks.contains(pks[pks.len() - 1]));
        assert forall|i: int| 0 <= i < first.len() implies all_pks.contains(
            #[trigger] first[i],
        ) by {
            assert(all_pks.contains(pks[i]));
        }
        lemma_signed_keys_agree(message, first, all_pks, signatures, verdicts, verdicts2);
        assert forall|j: int| 0 <= j < signatures.len() implies accepts(
            verdicts,
            message,
            pk,
            (#[trigger] signatures[j]).raw,
        ) == accepts(verdicts2, message, pk, signatures[j].raw) by {
            let c = SignatureCheckView { message, key: pk, signature: signatures[j].raw };
            assert(is_check_of(message, all_pks, signatures, c));
        }
        assert(has_signature(message, pk, signatures, verdicts) == has_signature(
            message,
            pk,
            signatures,
            verdicts2,
        ));
    }
}

/// Whether a bond is signed depends on the questions about it alone.
proof fn lemma_bond_signed_agrees(
    tx: SignedBondTx<Unvalidated>,
    established_accounts: Map<Address, AccountKeysView>,
    validator_accounts: Map<Address, PublicKey>,
    verdicts: Map<SignatureCheckView, bool>,
    verdicts2: Map<SignatureCheckView, bool>,
)
    requires
        forall|c: SignatureCheckView| #[trigger]
            is_bond_check(tx, established_accounts, validator_accounts, c) ==> accepts(
                verdicts,
                c.message,
                c.key,
                c.signature,
            ) == accepts(verdicts2, c.message, c.key, c.signature),
    ensures
        bond_signed(tx, established_accounts, validator_accounts, verdicts) == bond_signed(
            tx,
            established_accounts,
            validator_accounts,
            verdicts2,
        ),
{
    match source_keys(tx.data.source, established_accounts, validator_accounts) {
        Some(keys) => {
            let message = bond_message(tx.data.source, tx.data.validator, tx.data.amount);
            assert forall|c: SignatureCheckView| #[trigger]
                is_check_of(message, keys.public_keys, tx.signatures@, c) implies accepts(
                verdicts,
                c.message,
                c.key,
                c.signature,
            ) == accepts(verdicts2, c.message, c.key, c.signature) by {
                assert(is_bond_check(tx, established_accounts, validator_accounts, c));
            }
            lemma_signed_keys_agree(
                message,
                keys.public_keys,
                keys.public_keys,
                tx.signatures@,
                verdicts,
                verdicts2,
            );
        },
        None => {},
    }
}

/// Whether a key is authorized depends on the question about it alone.
proof fn lemma_authorizations_agree(
    tx: SignedValidatorAccountTx,
    verdicts: Map<SignatureCheckView, bool>,
    verdicts2: Map<SignatureCheckView, bool>,
)
    requires
        forall|c: SignatureCheckView| #[trigger]
            is_authorization_check(tx, c) ==> accepts(verdicts, c.message, c.key, c.signature)
                == accepts(verdicts2, c.message, c.key, c.signature),
    ensures
        authorizations_valid(tx, verdicts) == authorizations_valid(tx, verdicts2),
{
    let message = without_authorizations(tx).encoding();
    assert(is_authorization_check(tx, authorization_check(tx.account_key, message)));
    assert(is_authorization_check(
        tx,
        authorization_check(tx.consensus_key, message),
    ));
    assert(is_authorization_check(
        tx,
        authorization_check(tx.protocol_key, message),
    ));
    assert(is_authorization_check(
        tx,
        authorization_check(tx.tendermint_node_key, message),
    ));
    assert(is_authorization_check(tx, authorization_check(tx.eth_hot_key, message)));
    assert(is_authorization_check(
        tx,
        authorization_check(tx.eth_cold_key, message),
    ));
}

/// Whether transactions are valid depends on the questions of `signature_checks`
/// alone: verdicts that agree on these agree on the transactions.
pub proof fn law_checks_decide(
    txs: Transactions<Unvalidated>,
    vps: Option<&ValidityPredicates>,
    balances: Option<&DenominatedBalances>,
    parameters: Option<&Parameters>,
    addresses: Map<DerivationView, EstablishedAddress>,
    verdicts: Map<SignatureCheckView, bool>,
    verdicts2: Map<SignatureCheckView, bool>,
)
    requires
        forall|c: SignatureCheckView| #[trigger]
            is_validation_check(txs, addresses, c) ==> accepts(
                verdicts,
                c.message,
                c.key,
                c.signature,
            ) == accepts(verdicts2, c.message, c.key, c.signature),
    ensures
        transactions_valid(txs, vps, balances, parameters, addresses, verdicts)
            == transactions_valid(txs, vps, balances, parameters, addresses, verdicts2),
{
    let accounts = items(txs.established_account);
    let validators = items(txs.validator_account);
    let bonds = items(txs.bond);
    let est = established_keys(accounts, addresses);
    let val = validator_keys(validators, addresses);
    assert forall|i: int| 0 <= i < validators.len() implies validator_account_ok(
        #[trigger] validators[i],
        vps,
        verdicts,
    ) == validator_account_ok(validators[i], vps, verdicts2) by {
        assert forall|c: SignatureCheckView| #[trigger]
            is_authorization_check(validators[i], c) implies accepts(
            verdicts,
            c.message,
            c.key,
            c.signature,
        ) == accepts(verdicts2, c.message, c.key, c.signature) by {
            assert(is_validation_check(txs, addresses, c));
        }
        lemma_authorizations_agree(validators[i], verdicts, verdicts2);
    }
    assert forall|i: int| 0 <= i < bonds.len() implies bond_signed(
        #[trigger] bonds[i],
        est,
        val,
        verdicts,
    ) == bond_signed(bonds[i], est, val, verdicts2) by {
        assert forall|c: SignatureCheckView| #[trigger]
            is_bond_check(bonds[i], est, val, c) implies accepts(
            verdicts,
            c.message,
            c.key,
            c.signature,
        ) == accepts(verdicts2, c.message, c.key, c.signature) by {
            assert(is_validation_check(txs, addresses, c));
        }
        lemma_bond_signed_agrees(bonds[i], est, val, verdicts, verdicts2);
    }
    assert(accounts_valid(accounts, validators, vps, addresses, verdicts) == accounts_valid(
        accounts,
        validators,
        vps,
        addresses,
        verdicts2,
    ));
    if let Some(p) = parameters {
        let token = p.native_token@;
        let start = initial_balances(balances);
        assert(bonds_valid(bonds, start, est, val, token, verdicts) == bonds_valid(
            bonds,
            start,
            est,
            val,
            token,
            verdicts2,
        )) by {
            assert forall|i: int| 0 <= i < bonds.len() implies bond_valid(
                #[trigger] bonds[i],
                after_bonds(bonds.take(i), start, token),
                est,
                val,
                token,
                verdicts,
            ) == bond_valid(
                bonds[i],
                after_bonds(bonds.take(i), start, token),
                est,
                val,
                token,
                verdicts2,
            ) by {
                assert(bond_signed(bonds[i], est, val, verdicts) == bond_signed(
                    bonds[i],
                    est,
                    val,
                    verdicts2,
                ));
            }
        }
    }
}

/// Whether the signatures of all keys of a validator on `message` are accepted.
pub open spec fn validator_pairs_work(
    wallet: ValidatorWallet,
    message: Seq<u8>,
    signatures: Map<SigningRequestView, Signature>,
    verdicts: Map<SignatureCheckView, bool>,
) -> bool {
    &&& pair_works(wallet.account_key, message, signatures, verdicts)
    &&& pair_works(wallet.consensus_key, message, signatures, verdicts)
    &&& pair_works(wallet.protocol_key, message, signatures, verdicts)
    &&& pair_works(wallet.tendermint_node_key, message, signatures, verdicts)
    &&& pair_works(wallet.eth_hot_key, message, signatures, verdicts)
    &&& pair_works(wallet.eth_cold_key, message, signatures, verdicts)
}

/// A validator account that is signed with the keys that it names is valid, where
/// there is the validity predicate that it names, the commission rate is in bounds,
/// the signatures are accepted, and its address is not in use yet. It is not valid a
/// second time.
pub proof fn law_signed_validator_is_valid_once(
    tx: UnsignedValidatorAccountTx,
    wallet: ValidatorWallet,
    vps: Option<&ValidityPredicates>,
    addresses: Map<DerivationView, EstablishedAddress>,
    signatures: Map<SigningRequestView, Signature>,
    verdicts: Map<SignatureCheckView, bool>,
    used: Map<Address, ()>,
)
    requires
        tx.account_key.raw == wallet.account_key.public,
        tx.consensus_key.raw == wallet.consensus_key.public,
        tx.protocol_key.raw == wallet.protocol_key.public,
        tx.tendermint_node_key.raw == wallet.tendermint_node_key.public,
        tx.eth_hot_key.raw == wallet.eth_hot_key.public,
        tx.eth_cold_key.raw == wallet.eth_cold_key.public,
        vp_exists(vps, tx.vp@),
        rate_in_bounds(tx.commission_rate),
        validator_pairs_work(wallet, tx.encoding(), signatures, verdicts),
        !used.contains_key(address_of(addresses, tx)),
    ensures
        validator_accepted(
            with_authorizations(tx, wallet, signatures),
            vps,
            addresses,
            verdicts,
            used,
        ),
        !validator_accepted(
            with_authorizations(tx, wallet, signatures),
            vps,
            addresses,
            verdicts,
            used.insert(address_of(addresses, tx), ()),
        ),
{
    law_signing_keeps_address(tx, wallet, signatures, addresses);
}

/// What `init_validator` makes is valid, by itself, where there is the validity
/// predicate that it names, the commission rate is in bounds, the signatures of the
/// validator's keys are accepted, and the balance of the validator is enough for its
/// self-bond. What `validate` returns for it has a validator, and it has no bonds where
/// the self-bond is zero.
pub proof fn law_init_validator_is_valid(
    txs: Transactions<Unvalidated>,
    data: GenesisValidatorData,
    wallet: ValidatorWallet,
    vps: Option<&ValidityPredicates>,
    balances: Option<&DenominatedBalances>,
    parameters: Option<&Parameters>,
    addresses: Map<DerivationView, EstablishedAddress>,
    signatures: Map<SigningRequestView, Signature>,
    verdicts: Map<SignatureCheckView, bool>,
)
    requires
        is_genesis_validator(txs, data, wallet, addresses, signatures),
        vp_exists(vps, "vp_user"@),
        rate_in_bounds(data.commission_rate),
        validator_pairs_work(
            wallet,
            genesis_validator_account(data, wallet).encoding(),
            signatures,
            verdicts,
        ),
        data.self_bond_amount.amount@ != 0 ==> {
            let bond = self_bond(
                addresses[genesis_validator_derivation(data, wallet)],
                data.self_bond_amount,
            );
            &&& pair_works(
                wallet.account_key,
                self_bond_message(data, wallet, addresses),
                signatures,
                verdicts,
            )
            &&& can_denominate(bond)
            &&& parameters matches Some(parameters) && can_pay(
                initial_balances(balances),
                parameters.native_token@,
                bond.source,
                denominated(bond).amount,
            )
        },
    ensures
        transactions_valid(txs, vps, balances, parameters, addresses, verdicts),
        forall|t: Transactions<Validated>| #[trigger]
            is_validated(t, txs) ==> items(t.validator_account).len() > 0 && (t.bond is None
                <==> data.self_bond_amount.amount@ == 0),
{
    let accounts = items(txs.established_account);
    let validators = items(txs.validator_account);
    let bonds = items(txs.bond);
    let account = validators[0];
    let address = addresses[genesis_validator_derivation(data, wallet)];
    let est = established_keys(accounts, addresses);
    let val = validator_keys(validators, addresses);
    assert(address_of(addresses, without_authorizations(account)) == Address::Established(address));
    assert(authorizations_valid(account, verdicts));
    let addrs = addresses_of(accounts, addresses) + addresses_of(
        unsigned_accounts(validators),
        addresses,
    );
    assert(addrs.len() == 1);
    assert(accounts_valid(accounts, validators, vps, addresses, verdicts));
    if bonds.len() > 0 {
        let token = parameters->0.native_token@;
        let tx = bonds[0];
        let message = self_bond_message(data, wallet, addresses);
        let pairs = seq![wallet.account_key];
        assert(validators.drop_last() =~= Seq::empty());
        assert(val.contains_key(Address::Established(address)));
        assert(val[Address::Established(address)] == account.account_key.pk.raw);
        assert(publics(pairs) =~= seq![account.account_key.pk.raw]);
        assert(secrets(pairs) =~= seq![wallet.account_key.secret]);
        law_signed_verifies(message, pairs, 1, Seq::empty(), signatures, verdicts);
        assert(Seq::empty() + tx.signatures@ =~= tx.signatures@);
        assert(source_keys(tx.data.source, est, val) == Some(
            AccountKeysView { public_keys: publics(pairs), threshold: 1 },
        ));
        assert(bond_signed(tx, est, val, verdicts));
        assert(bonds.take(0) =~= Seq::empty());
        assert(bonds_valid(bonds, initial_balances(balances), est, val, token, verdicts));
    }
}

/// What `init_established_account` makes is valid, by itself, where there is the
/// validity predicate that it names.
pub proof fn law_init_established_account_is_valid(
    txs: Transactions<Unvalidated>,
    vp: Seq<char>,
    public_key: PublicKey,
    vps: Option<&ValidityPredicates>,
    balances: Option<&DenominatedBalances>,
    parameters: Option<&Parameters>,
    addresses: Map<DerivationView, EstablishedAddress>,
    verdicts: Map<SignatureCheckView, bool>,
)
    requires
        is_single_account(txs, vp, public_key),
        vp_exists(vps, vp),
    ensures
        transactions_valid(txs, vps, balances, parameters, addresses, verdicts),
{
    let accounts = items(txs.established_account);
    let addrs = addresses_of(accounts, addresses) + addresses_of(
        unsigned_accounts(items(txs.validator_account)),
        addresses,
    );
    assert(accounts[0]@.public_keys.len() == 1);
    assert(addrs.len() == 1);
}

/// Whether the wallet has the secret key of `pk`, and its signature on `message` is
/// accepted.
pub open spec fn wallet_works(
    wallet: Seq<KeyPair>,
    pk: PublicKey,
    message: Seq<u8>,
    signatures: Map<SigningRequestView, Signature>,
    verdicts: Map<SignatureCheckView, bool>,
) -> bool {
    &&& secret_of(wallet, pk) matches Some(sk)
    &&& accepts(verdicts, message, pk, signature_by(signatures, sk, message))
}

/// Where the wallet has every key, their secret keys are found in their order.
proof fn lemma_secrets_of(wallet: Seq<KeyPair>, pks: Seq<StringEncoded<PublicKey>>)
    requires
        forall|i: int| 0 <= i < pks.len() ==> secret_of(wallet, (#[trigger] pks[i]).raw) is Some,
    ensures
        secrets_of(wallet, pks).len() == pks.len(),
        forall|i: int|
            0 <= i < pks.len() ==> Some(#[trigger] secrets_of(wallet, pks)[i]) == secret_of(
                wallet,
                pks[i].raw,
            ),
    decreases pks.len(),
{
    if pks.len() > 0 {
        let first = pks.drop_last();
        assert(secret_of(wallet, pks[pks.len() - 1].raw) is Some);
        assert forall|i: int| 0 <= i < first.len() implies secret_of(
            wallet,
            (#[trigger] first[i]).raw,
        ) is Some by {
            assert(secret_of(wallet, pks[i].raw) is Some);
        }
        lemma_secrets_of(wallet, first);
        assert forall|i: int| 0 <= i < pks.len() implies Some(
            #[trigger] secrets_of(wallet, pks)[i],
        ) == secret_of(wallet, pks[i].raw) by {
            if i < first.len() {
                assert(secrets_of(wallet, pks)[i] == secrets_of(wallet, first)[i]);
                assert(first[i] == pks[i]);
            }
        }
    }
}

/// Where no two accounts share an address, the account at an address is the same,
/// whichever way it is looked up.
proof fn lemma_account_at(
    accounts: Seq<EstablishedAccountTx>,
    addresses: Map<DerivationView, EstablishedAddress>,
    k: int,
)
    requires
        addresses_of(accounts, addresses).no_duplicates(),
        0 <= k < accounts.len(),
    ensures
        account_keys(
            accounts,
            established_address_of(addresses, accounts[k]),
            addresses,
        ) == Some(accounts[k].public_keys@),
        established_keys(accounts, addresses).contains_key(address_of(addresses, accounts[k])),
        established_keys(accounts, addresses)[address_of(addresses, accounts[k])] == keys_of(
            accounts[k],
        ),
{
    lemma_account_keys_at(accounts, addresses, k);
    lemma_established_keys_at(accounts, addresses, k);
}

proof fn lemma_account_keys_at(
    accounts: Seq<EstablishedAccountTx>,
    addresses: Map<DerivationView, EstablishedAddress>,
    k: int,
)
    requires
        addresses_of(accounts, addresses).no_duplicates(),
        0 <= k < accounts.len(),
    ensures
        account_keys(
            accounts,
            established_address_of(addresses, accounts[k]),
            addresses,
        ) == Some(accounts[k].public_keys@),
    decreases accounts.len(),
{
    let addrs = addresses_of(accounts, addresses);
    if k > 0 {
        let rest = accounts.drop_first();
        assert(addrs[0] != addrs[k]);
        assert(addresses_of(rest, addresses) =~= addrs.drop_first());
        lemma_account_keys_at(rest, addresses, k - 1);
        assert(rest[k - 1] == accounts[k]);
    }
}

proof fn lemma_established_keys_at(
    accounts: Seq<EstablishedAccountTx>,
    addresses: Map<DerivationView, EstablishedAddress>,
    k: int,
)
    requires
        addresses_of(accounts, addresses).no_duplicates(),
        0 <= k < accounts.len(),
    ensures
        established_keys(accounts, addresses).contains_key(address_of(addresses, accounts[k])),
        established_keys(accounts, addresses)[address_of(addresses, accounts[k])] == keys_of(
            accounts[k],
        ),
    decreases accounts.len(),
{
    let addrs = addresses_of(accounts, addresses);
    let n = accounts.len() - 1;
    if k < n {
        let first = accounts.drop_last();
        assert(addrs[n] != addrs[k]);
        assert(addresses_of(first, addresses) =~= addrs.drop_last());
        lemma_established_keys_at(first, addresses, k);
        assert(first[k] == accounts[k]);
    }
}

/// A bond of an established account that `sign_txs` signs is accepted by `validate`
/// as signed, where no two accounts share an address, the wallet has every key of
/// the account, and their signatures are accepted.
pub proof fn law_signed_delegation_verifies(
    signed: SignedBondTx<Unvalidated>,
    bond: BondTx<Unvalidated>,
    wallet: Seq<KeyPair>,
    accounts: Seq<EstablishedAccountTx>,
    k: int,
    validator_accounts: Map<Address, PublicKey>,
    addresses: Map<DerivationView, EstablishedAddress>,
    signatures: Map<SigningRequestView, Signature>,
    verdicts: Map<SignatureCheckView, bool>,
)
    requires
        is_signed_delegation(signed, bond, wallet, Some(accounts), addresses, signatures),
        addresses_of(accounts, addresses).no_duplicates(),
        0 <= k < accounts.len(),
        bond.source == GenesisAddress::EstablishedAddress(
            established_address_of(addresses, accounts[k]),
        ),
        accounts[k].threshold <= accounts[k].public_keys@.len() <= u8::MAX,
        forall|i: int|
            0 <= i < accounts[k].public_keys@.len() ==> wallet_works(
                wallet,
                (#[trigger] accounts[k].public_keys@[i]).raw,
                bond_message(bond.source, bond.validator, bond.amount),
                signatures,
                verdicts,
            ),
    ensures
        bond_signed(signed, established_keys(accounts, addresses), validator_accounts, verdicts),
{
    let pks = accounts[k].public_keys@;
    let message = bond_message(bond.source, bond.validator, bond.amount);
    lemma_account_at(accounts, addresses, k);
    assert forall|i: int| 0 <= i < pks.len() implies secret_of(
        wallet,
        (#[trigger] pks[i]).raw,
    ) is Some by {
        assert(wallet_works(wallet, pks[i].raw, message, signatures, verdicts));
    }
    lemma_secrets_of(wallet, pks);
    assert forall|i: int| 0 <= i < raw_keys(pks).len() implies has_signature(
        message,
        #[trigger] raw_keys(pks)[i],
        signed.signatures@,
        verdicts,
    ) by {
        assert(wallet_works(wallet, pks[i].raw, message, signatures, verdicts));
        let sk = secrets_of(wallet, pks)[i];
        assert(signed.signatures@[i].raw == signature_by(signatures, sk, message));
        assert(accepts(verdicts, message, pks[i].raw, signed.signatures@[i].raw));
    }
    lemma_all_signed(message, raw_keys(pks), signed.signatures@, verdicts);
}

/// A signed bond has one signature for each key that is found for its source, and it
/// meets a threshold of that many, where the signatures are accepted for the public
/// keys that belong to the secret keys.
pub proof fn law_one_signature_for_each_key(
    signed: SignedBondTx<Unvalidated>,
    bond: BondTx<Unvalidated>,
    pairs: Seq<KeyPair>,
    wallet: Seq<KeyPair>,
    accounts: Option<Seq<EstablishedAccountTx>>,
    addresses: Map<DerivationView, EstablishedAddress>,
    signatures: Map<SigningRequestView, Signature>,
    verdicts: Map<SignatureCheckView, bool>,
)
    requires
        is_signed_delegation(signed, bond, wallet, accounts, addresses, signatures),
        signing_keys(bond.source, wallet, accounts, addresses) == Some(secrets(pairs)),
        pairs.len() <= u8::MAX,
        forall|i: int|
            0 <= i < pairs.len() ==> pair_works(
                #[trigger] pairs[i],
                bond_message(bond.source, bond.validator, bond.amount),
                signatures,
                verdicts,
            ),
    ensures
        signed.data == bond,
        signed.signatures@.len() == pairs.len(),
        verify_outcome(
            bond_message(bond.source, bond.validator, bond.amount),
            publics(pairs),
            pairs.len() as u8,
            signed.signatures@,
            verdicts,
        ) == Ok::<(), VerifySigError>(()),
{
    let message = bond_message(bond.source, bond.validator, bond.amount);
    law_signed_verifies(message, pairs, pairs.len() as u8, Seq::empty(), signatures, verdicts);
    assert(Seq::empty() + signed.signatures@ =~= signed.signatures@);
}

/// A bond of an implicit account that `sign_txs` signs is accepted by `validate` as
/// signed, where the wallet has its key, and the signature of the key is accepted.
pub proof fn law_signed_implicit_delegation_verifies(
    signed: SignedBondTx<Unvalidated>,
    bond: BondTx<Unvalidated>,
    pk: StringEncoded<PublicKey>,
    wallet: Seq<KeyPair>,
    accounts: Option<Seq<EstablishedAccountTx>>,
    established_accounts: Map<Address, AccountKeysView>,
    validator_accounts: Map<Address, PublicKey>,
    addresses: Map<DerivationView, EstablishedAddress>,
    signatures: Map<SigningRequestView, Signature>,
    verdicts: Map<SignatureCheckView, bool>,
)
    requires
        is_signed_delegation(signed, bond, wallet, accounts, addresses, signatures),
        bond.source == GenesisAddress::PublicKey(pk),
        wallet_works(
            wallet,
            pk.raw,
            bond_message(bond.source, bond.validator, bond.amount),
            signatures,
            verdicts,
        ),
    ensures
        bond_signed(signed, established_accounts, validator_accounts, verdicts),
{
    let message = bond_message(bond.source, bond.validator, bond.amount);
    let sk = secret_of(wallet, pk.raw)->0;
    let pks = seq![pk.raw];
    assert(signed.signatures@[0].raw == signature_by(signatures, sk, message));
    assert forall|i: int| 0 <= i < pks.len() implies has_signature(
        message,
        #[trigger] pks[i],
        signed.signatures@,
        verdicts,
    ) by {
        assert(accepts(verdicts, message, pks[i], signed.signatures@[0].raw));
    }
    lemma_all_signed(message, pks, signed.signatures@, verdicts);
}

} // verus!
