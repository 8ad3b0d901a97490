//! What it means that bonds are valid, in terms of their fields, of the balances and of
//! the answers alone.

use crate::account::{without_authorizations, EstablishedAccountTx, SignedValidatorAccountTx};
use crate::account_validation::{
    established_account_ok, established_keys, keys_of, validator_keys, AccountKeysView,
};
use crate::address::{Address, EstablishedAddress, GenesisAddress};
use crate::amount::{lemma_uint_from, lemma_uint_view, DenominatedAmount};
use crate::answers::{address_of, DerivationView, SignatureCheckView};
use crate::bond::{bond_message, can_denominate, denominated, SignedBondTx};
use crate::bond_validation::{
    after_bond, after_bonds, after_payment, bond_valid, can_pay, deduction_fits, deductions_fit,
    initial_balances, payment_fits, source_keys, BalancesView, TokenBalancesForValidation,
};
use crate::keys::PublicKey;
use crate::laws::native_balances;
use crate::templates::{
    DenominatedBalances, Parameters, TokenBalances, Unvalidated, Validated, ValidityPredicates,
};
use crate::transactions::{items, Transactions};
use crate::validate::{is_validated, transactions_valid};
use crate::validity_laws::{
    law_established_account_ok, law_every_signer_counts_once, law_recorded_keys,
    law_valid_transactions, signers,
};
use crate::value_laws::{
    law_amounts_are_fractions, law_denominated_in_millionths, law_uint_is_its_limbs,
};
use vstd::arithmetic::power::pow;
use vstd::prelude::*;

verus! {

/// A source signs with its own key where it is an implicit account or a validator, and
/// with the keys and the threshold of its account where it is an established account.
/// An address without an account has no keys.
pub proof fn law_keys_of_a_source(
    source: GenesisAddress,
    established_accounts: Map<Address, AccountKeysView>,
    validator_accounts: Map<Address, PublicKey>,
)
    ensures
        source matches GenesisAddress::PublicKey(pk) ==> {
            &&& source_keys(source, established_accounts, validator_accounts) is Some
            &&& source_keys(source, established_accounts, validator_accounts)->0.threshold == 1
            &&& source_keys(source, established_accounts, validator_accounts)->0.public_keys
                == seq![pk.raw]
        },
        source matches GenesisAddress::EstablishedAddress(a)
            ==> established_accounts.contains_key(Address::Established(a)) ==> source_keys(
            source,
            established_accounts,
            validator_accounts,
        ) == Some(established_accounts[Address::Established(a)]),
        source matches GenesisAddress::EstablishedAddress(a)
            ==> !established_accounts.contains_key(Address::Established(a))
            && validator_accounts.contains_key(Address::Established(a)) ==> {
            &&& source_keys(source, established_accounts, validator_accounts) is Some
            &&& source_keys(source, established_accounts, validator_accounts)->0.threshold == 1
            &&& source_keys(source, established_accounts, validator_accounts)->0.public_keys
                == seq![validator_accounts[Address::Established(a)]]
        },
        source matches GenesisAddress::EstablishedAddress(a)
            ==> !established_accounts.contains_key(Address::Established(a))
            && !validator_accounts.contains_key(Address::Established(a)) ==> source_keys(
            source,
            established_accounts,
            validator_accounts,
        ) is None,
{
}

/// The number of millionths that the amount of a bond is.
pub open spec fn millionths(amount: DenominatedAmount) -> int {
    amount.amount@ * pow(10, (6 - amount.denom) as nat)
}

/// A bond is valid exactly where as many keys of its source have a valid signature as
/// its threshold asks for, its amount has a number of millionths that fits into 256
/// bits, its validator is there, and the source has a balance in the token that is
/// worth no less than the amount.
pub proof fn law_bond_valid(
    tx: SignedBondTx<Unvalidated>,
    balances: BalancesView,
    established_accounts: Map<Address, AccountKeysView>,
    validator_accounts: Map<Address, PublicKey>,
    token: Seq<char>,
    verdicts: Map<SignatureCheckView, bool>,
)
    ensures
        ({
            let keys = source_keys(tx.data.source, established_accounts, validator_accounts);
            let balance = balances[token][tx.data.source];
            bond_valid(tx, balances, established_accounts, validator_accounts, token, verdicts)
                <==> {
                &&& keys is Some
                &&& keys->0.public_keys.len() <= 255
                &&& signers(
                    bond_message(tx.data.source, tx.data.validator, tx.data.amount),
                    keys->0.public_keys,
                    tx.signatures@,
                    verdicts,
                ).len() >= keys->0.threshold
                &&& tx.data.amount.denom <= 6
                &&& millionths(tx.data.amount)
                    < 0x1_0000_0000_0000_0000_0000_0000_0000_0000_0000_0000_0000_0000_0000_0000_0000_0000
                &&& validator_accounts.contains_key(tx.data.validator)
                &&& balances.contains_key(token)
                &&& balances[token].contains_key(tx.data.source)
                &&& balance.amount@ * pow(10, 6) >= millionths(tx.data.amount) * pow(
                    10,
                    balance.denom as nat,
                )
            }
        }),
{
    law_denominated_in_millionths(tx.data);
    let keys = source_keys(tx.data.source, established_accounts, validator_accounts);
    if keys is Some {
        law_every_signer_counts_once(
            bond_message(tx.data.source, tx.data.validator, tx.data.amount),
            keys->0.public_keys,
            keys->0.threshold,
            tx.signatures@,
            verdicts,
        );
    }
    law_amounts_are_fractions(balances[token][tx.data.source], denominated(tx.data).amount);
}

/// What paying does to the balances: it takes the amount from the source where its
/// balance is worth enough, and forgets the source where nothing is left. Nothing else
/// changes.
pub proof fn law_payment(
    balances: BalancesView,
    token: Seq<char>,
    source: GenesisAddress,
    amount: DenominatedAmount,
)
    ensures
        ({
            let balance = balances[token][source];
            let after = after_payment(balances, token, source, amount);
            let enough = balances.contains_key(token) && balances[token].contains_key(source)
                && balance.amount@ * pow(10, amount.denom as nat) >= amount.amount@ * pow(
                10,
                balance.denom as nat,
            );
            &&& can_pay(balances, token, source, amount) <==> enough
            &&& payment_fits(balances, token, source, amount) <==> (enough ==> amount.amount@
                <= balance.amount@)
            &&& !enough ==> after == balances
            &&& after.dom() == balances.dom()
            &&& forall|t: Seq<char>| t != token ==> #[trigger] after[t] == balances[t]
            &&& forall|s: GenesisAddress|
                s != source ==> (#[trigger] after[token].contains_key(s)
                    <==> balances[token].contains_key(s))
            &&& forall|s: GenesisAddress|
                s != source ==> #[trigger] after[token][s] == balances[token][s]
            &&& enough && balance.amount@ == amount.amount@ && balance.denom == amount.denom
                ==> !after[token].contains_key(source)
            &&& enough && !(balance.amount@ == amount.amount@ && balance.denom == amount.denom)
                ==> after[token].contains_key(source) && after[token][source].denom
                == balance.denom
            &&& enough && amount.amount@ <= balance.amount@ && !(balance.amount@ == amount.amount@
                && balance.denom == amount.denom) ==> after[token][source].amount@
                + amount.amount@ == balance.amount@
        }),
{
    let balance = balances[token][source];
    let after = after_payment(balances, token, source, amount);
    law_amounts_are_fractions(balance, amount);
    law_uint_is_its_limbs(balance.amount.raw);
    lemma_uint_view(balance.amount.raw, amount.amount.raw);
    if amount.amount@ <= balance.amount@ {
        lemma_uint_from((balance.amount@ - amount.amount@) as nat);
    }
    assert(after.dom() =~= balances.dom());
}

/// Every bond with an amount that can be denominated is paid for, one after the other,
/// on the balances that the bonds before it left.
pub proof fn law_bonds_are_paid_in_order(
    txs: Seq<SignedBondTx<Unvalidated>>,
    tx: SignedBondTx<Unvalidated>,
    balances: BalancesView,
    token: Seq<char>,
)
    ensures
        after_bonds(Seq::empty(), balances, token) == balances,
        can_denominate(tx.data) ==> after_bonds(txs.push(tx), balances, token) == after_payment(
            after_bonds(txs, balances, token),
            token,
            tx.data.source,
            denominated(tx.data).amount,
        ),
        !can_denominate(tx.data) ==> after_bonds(txs.push(tx), balances, token) == after_bonds(
            txs,
            balances,
            token,
        ),
        deduction_fits(tx, balances, token) <==> (can_denominate(tx.data) ==> payment_fits(
            balances,
            token,
            tx.data.source,
            denominated(tx.data).amount,
        )),
{
    assert(txs.push(tx).drop_last() =~= txs);
}

/// The payments for all bonds fit if each of them fits on the balances that the bonds
/// before it left.
pub proof fn law_deductions_fit_one_by_one(
    txs: Seq<SignedBondTx<Unvalidated>>,
    tx: SignedBondTx<Unvalidated>,
    balances: BalancesView,
    token: Seq<char>,
)
    ensures
        deductions_fit(Seq::empty(), balances, token),
        deductions_fit(txs.push(tx), balances, token) <==> deductions_fit(txs, balances, token)
            && deduction_fits(tx, after_bonds(txs, balances, token), token),
{
    let all = txs.push(tx);
    let n = txs.len() as int;
    assert(all.take(n) =~= txs);
    assert(all[n] == tx);
    assert forall|i: int| 0 <= i < n implies #[trigger] all.take(i) == txs.take(i) && all[i]
        == txs[i] by {
        assert(all.take(i) =~= txs.take(i));
    }
    if deductions_fit(all, balances, token) {
        assert forall|i: int| 0 <= i < n implies deduction_fits(
            #[trigger] txs[i],
            after_bonds(txs.take(i), balances, token),
            token,
        ) by {
            assert(all.take(i) == txs.take(i));
            assert(deduction_fits(all[i], after_bonds(all.take(i), balances, token), token));
        }
        assert(deduction_fits(all[n], after_bonds(all.take(n), balances, token), token));
    }
    if deductions_fit(txs, balances, token) && deduction_fits(
        tx,
        after_bonds(txs, balances, token),
        token,
    ) {
        assert forall|i: int| 0 <= i < all.len() implies deduction_fits(
            #[trigger] all[i],
            after_bonds(all.take(i), balances, token),
            token,
        ) by {
            if i < n {
                assert(all.take(i) == txs.take(i));
                assert(deduction_fits(txs[i], after_bonds(txs.take(i), balances, token), token));
            }
        }
    }
}

/// The millionths that the first `n` bonds take from `source`.
pub open spec fn spent(txs: Seq<SignedBondTx<Unvalidated>>, n: int, source: GenesisAddress) -> int
    decreases n,
{
    if n <= 0 {
        0
    } else {
        spent(txs, n - 1, source) + if txs[n - 1].data.source == source {
            millionths(txs[n - 1].data.amount)
        } else {
            0
        }
    }
}

/// Whether one of the first `n` bonds is from `source`.
pub open spec fn has_bonded(
    txs: Seq<SignedBondTx<Unvalidated>>,
    n: int,
    source: GenesisAddress,
) -> bool {
    exists|j: int| 0 <= j < n && (#[trigger] txs[j]).data.source == source
}

/// Whether the source of the bond at `i` has a balance for it and for all of its bonds
/// before, which have not used it up.
pub open spec fn is_covered(
    txs: Seq<SignedBondTx<Unvalidated>>,
    i: int,
    balances: BalancesView,
    token: Seq<char>,
) -> bool {
    let source = txs[i].data.source;
    &&& balances.contains_key(token)
    &&& balances[token].contains_key(source)
    &&& spent(txs, i + 1, source) <= balances[token][source].amount@
    &&& has_bonded(txs, i, source) ==> spent(txs, i, source) < balances[token][source].amount@
}

/// What is left of a balance after the first `i` bonds.
spec fn left_after(
    txs: Seq<SignedBondTx<Unvalidated>>,
    i: int,
    balances: BalancesView,
    token: Seq<char>,
    now: BalancesView,
    s: GenesisAddress,
) -> bool {
    &&& now[token].contains_key(s) <==> balances[token].contains_key(s) && (has_bonded(txs, i, s)
        ==> spent(txs, i, s) < balances[token][s].amount@)
    &&& now[token].contains_key(s) ==> now[token][s].denom == 6 && now[token][s].amount@
        == balances[token][s].amount@ - spent(txs, i, s)
}

proof fn lemma_spent_grows(
    txs: Seq<SignedBondTx<Unvalidated>>,
    i: int,
    source: GenesisAddress,
    s: GenesisAddress,
)
    requires
        0 <= i < txs.len(),
        source == txs[i].data.source,
    ensures
        has_bonded(txs, i + 1, source),
        s != source ==> (has_bonded(txs, i + 1, s) <==> has_bonded(txs, i, s)),
        s != source ==> spent(txs, i + 1, s) == spent(txs, i, s),
        spent(txs, i + 1, source) == spent(txs, i, source) + millionths(txs[i].data.amount),
        !has_bonded(txs, i, source) ==> spent(txs, i, source) == 0,
    decreases i,
{
    assert(txs[i].data.source == source);
    if s != source && has_bonded(txs, i + 1, s) {
        let j = choose|j: int| 0 <= j < i + 1 && (#[trigger] txs[j]).data.source == s;
        assert(j < i);
    }
    if !has_bonded(txs, i, source) {
        lemma_nothing_spent(txs, i, source);
    }
}

proof fn lemma_nothing_spent(txs: Seq<SignedBondTx<Unvalidated>>, i: int, source: GenesisAddress)
    requires
        0 <= i <= txs.len(),
        !has_bonded(txs, i, source),
    ensures
        spent(txs, i, source) == 0,
    decreases i,
{
    if i > 0 {
        assert(txs[i - 1].data.source != source);
        assert(!has_bonded(txs, i - 1, source));
        lemma_nothing_spent(txs, i - 1, source);
    }
}

/// Whether the source of the bond at `i` can pay for it, given what is left.
proof fn lemma_can_pay_iff_covered(
    txs: Seq<SignedBondTx<Unvalidated>>,
    i: int,
    balances: BalancesView,
    token: Seq<char>,
    now: BalancesView,
)
    requires
        0 <= i < txs.len(),
        can_denominate(txs[i].data),
        now.contains_key(token) <==> balances.contains_key(token),
        now.contains_key(token) ==> left_after(
            txs,
            i,
            balances,
            token,
            now,
            txs[i].data.source,
        ),
    ensures
        can_pay(now, token, txs[i].data.source, denominated(txs[i].data).amount) <==> is_covered(
            txs,
            i,
            balances,
            token,
        ),
{
    let source = txs[i].data.source;
    let amount = denominated(txs[i].data).amount;
    law_denominated_in_millionths(txs[i].data);
    law_amounts_are_fractions(now[token][source], amount);
    lemma_spent_grows(txs, i, source, source);
}

/// The bond at `i` leaves what it should.
proof fn lemma_left_step(
    txs: Seq<SignedBondTx<Unvalidated>>,
    i: int,
    balances: BalancesView,
    token: Seq<char>,
    now: BalancesView,
    s: GenesisAddress,
)
    requires
        0 <= i < txs.len(),
        can_denominate(txs[i].data),
        now.contains_key(token),
        balances.contains_key(token),
        left_after(txs, i, balances, token, now, s),
        left_after(txs, i, balances, token, now, txs[i].data.source),
        is_covered(txs, i, balances, token),
    ensures
        left_after(txs, i + 1, balances, token, after_bond(txs[i], now, token), s),
{
    let source = txs[i].data.source;
    let amount = denominated(txs[i].data).amount;
    law_denominated_in_millionths(txs[i].data);
    lemma_can_pay_iff_covered(txs, i, balances, token, now);
    law_payment(now, token, source, amount);
    lemma_spent_grows(txs, i, source, s);
    let after = after_bond(txs[i], now, token);
    assert(after == after_payment(now, token, source, amount));
    if s != source {
        assert(after[token].contains_key(s) <==> now[token].contains_key(s));
        assert(after[token][s] == now[token][s]);
    } else {
        lemma_uint_view(now[token][source].amount.raw, amount.amount.raw);
    }
}

/// What the first bonds leave, if all of them are covered.
proof fn lemma_left(
    txs: Seq<SignedBondTx<Unvalidated>>,
    i: int,
    balances: BalancesView,
    token: Seq<char>,
    s: GenesisAddress,
)
    requires
        0 <= i <= txs.len(),
        native_balances(balances, token),
        forall|j: int| 0 <= j < txs.len() ==> can_denominate((#[trigger] txs[j]).data),
        forall|j: int| 0 <= j < i ==> #[trigger] is_covered(txs, j, balances, token),
    ensures
        after_bonds(txs.take(i), balances, token).contains_key(token)
            <==> balances.contains_key(token),
        balances.contains_key(token) ==> left_after(
            txs,
            i,
            balances,
            token,
            after_bonds(txs.take(i), balances, token),
            s,
        ),
    decreases i,
{
    if i == 0 {
        assert(txs.take(0) =~= Seq::empty());
        assert(!has_bonded(txs, 0, s));
    } else {
        let now = after_bonds(txs.take(i - 1), balances, token);
        lemma_left(txs, i - 1, balances, token, s);
        lemma_left(txs, i - 1, balances, token, txs[i - 1].data.source);
        assert(txs.take(i).drop_last() =~= txs.take(i - 1));
        assert(is_covered(txs, i - 1, balances, token));
        lemma_left_step(txs, i - 1, balances, token, now, s);
        assert(can_denominate(txs[i - 1].data));
        law_payment(
            now,
            token,
            txs[i - 1].data.source,
            denominated(txs[i - 1].data).amount,
        );
    }
}

/// Where the balances are written in millionths, the sources can pay for all the bonds
/// exactly where, for each bond, what its source bonds with it and before it is no more
/// than its balance, and the bonds before it have not used the balance up.
pub proof fn law_bonds_are_covered_by_balances(
    txs: Seq<SignedBondTx<Unvalidated>>,
    balances: BalancesView,
    token: Seq<char>,
)
    requires
        native_balances(balances, token),
        forall|i: int| 0 <= i < txs.len() ==> can_denominate((#[trigger] txs[i]).data),
    ensures
        (forall|i: int|
            0 <= i < txs.len() ==> can_pay(
                after_bonds(txs.take(i), balances, token),
                token,
                (#[trigger] txs[i]).data.source,
                denominated(txs[i].data).amount,
            )) <==> (forall|i: int|
            0 <= i < txs.len() ==> #[trigger] is_covered(txs, i, balances, token)),
{
    if forall|i: int|
        0 <= i < txs.len() ==> can_pay(
            after_bonds(txs.take(i), balances, token),
            token,
            (#[trigger] txs[i]).data.source,
            denominated(txs[i].data).amount,
        ) {
        assert forall|i: int| 0 <= i < txs.len() implies #[trigger] is_covered(
            txs,
            i,
            balances,
            token,
        ) by {
            lemma_covered(txs, i, balances, token);
        }
    }
    if forall|i: int| 0 <= i < txs.len() ==> #[trigger] is_covered(txs, i, balances, token) {
        assert forall|i: int| 0 <= i < txs.len() implies can_pay(
            after_bonds(txs.take(i), balances, token),
            token,
            (#[trigger] txs[i]).data.source,
            denominated(txs[i].data).amount,
        ) by {
            assert(is_covered(txs, i, balances, token));
            lemma_left(txs, i, balances, token, txs[i].data.source);
            lemma_can_pay_iff_covered(
                txs,
                i,
                balances,
                token,
                after_bonds(txs.take(i), balances, token),
            );
        }
    }
}

/// Where the sources of all bonds can pay, each bond is covered.
proof fn lemma_covered(
    txs: Seq<SignedBondTx<Unvalidated>>,
    i: int,
    balances: BalancesView,
    token: Seq<char>,
)
    requires
        0 <= i < txs.len(),
        native_balances(balances, token),
        forall|j: int| 0 <= j < txs.len() ==> can_denominate((#[trigger] txs[j]).data),
        forall|j: int|
            0 <= j < txs.len() ==> can_pay(
                after_bonds(txs.take(j), balances, token),
                token,
                (#[trigger] txs[j]).data.source,
                denominated(txs[j].data).amount,
            ),
    ensures
        is_covered(txs, i, balances, token),
    decreases i,
{
    assert forall|j: int| 0 <= j < i implies #[trigger] is_covered(txs, j, balances, token) by {
        lemma_covered(txs, j, balances, token);
    }
    lemma_left(txs, i, balances, token, txs[i].data.source);
    lemma_can_pay_iff_covered(
        txs,
        i,
        balances,
        token,
        after_bonds(txs.take(i), balances, token),
    );
    assert(can_denominate(txs[i].data));
}

/// The balances that transactions are validated on are those of the file, and none
/// where there is no file.
pub proof fn law_initial_balances(
    balances: Option<&DenominatedBalances>,
    tokens: TokenBalances,
    tracked_tokens: TokenBalancesForValidation,
)
    ensures
        tokens@ == tokens.0@,
        tracked_tokens@ == tracked_tokens.amounts@,
        balances matches Some(b) ==> initial_balances(balances) == b.token@,
        balances is None ==> initial_balances(balances) == Map::<
            Seq<char>,
            Map<GenesisAddress, DenominatedAmount>,
        >::empty(),
{
}

/// Whether one of the signatures of the bond has the verdict that `pk` made it on the
/// message of the bond.
pub open spec fn bond_signed_by(
    tx: SignedBondTx<Unvalidated>,
    pk: PublicKey,
    verdicts: Map<SignatureCheckView, bool>,
) -> bool {
    exists|j: int|
        0 <= j < tx.signatures@.len() && verdicts.contains_pair(
            (SignatureCheckView {
                message: bond_message(tx.data.source, tx.data.validator, tx.data.amount),
                key: pk,
                signature: (#[trigger] tx.signatures@[j]).raw,
            }),
            true,
        )
}

/// Where a key is among the first signers, it has signed.
proof fn lemma_some_signer(
    tx: SignedBondTx<Unvalidated>,
    pks: Seq<PublicKey>,
    verdicts: Map<SignatureCheckView, bool>,
) -> (k: int)
    requires
        signers(
            bond_message(tx.data.source, tx.data.validator, tx.data.amount),
            pks,
            tx.signatures@,
            verdicts,
        ).len() >= 1,
    ensures
        0 <= k < pks.len(),
        bond_signed_by(tx, pks[k], verdicts),
{
    let all = signers(
        bond_message(tx.data.source, tx.data.validator, tx.data.amount),
        pks,
        tx.signatures@,
        verdicts,
    );
    if all =~= Set::empty() {
        assert(all.len() == 0);
    }
    let k = choose|k: int| all.contains(k);
    assert(all.contains(k));
    k
}

/// In valid transactions, no bond goes unsigned: a bond of an implicit account is
/// signed by its key, one of a validator of the transactions by the account key of the
/// validator, and one of an established account by one of its keys at least. A bond of
/// anybody else is not valid.
pub proof fn law_no_bond_goes_unsigned(
    txs: Transactions<Unvalidated>,
    vps: Option<&ValidityPredicates>,
    balances: Option<&DenominatedBalances>,
    parameters: Option<&Parameters>,
    addresses: Map<DerivationView, EstablishedAddress>,
    verdicts: Map<SignatureCheckView, bool>,
    i: int,
)
    requires
        transactions_valid(txs, vps, balances, parameters, addresses, verdicts),
        0 <= i < items(txs.bond).len(),
    ensures
        ({
            let tx = items(txs.bond)[i];
            let est = items(txs.established_account);
            let val = items(txs.validator_account);
            match tx.data.source {
                GenesisAddress::PublicKey(pk) => bond_signed_by(tx, pk.raw, verdicts),
                GenesisAddress::EstablishedAddress(a) => {
                    ||| exists|k: int|
                        0 <= k < val.len() && address_of(
                            addresses,
                            without_authorizations(#[trigger] val[k]),
                        ) == Address::Established(a) && bond_signed_by(
                            tx,
                            val[k].account_key.pk.raw,
                            verdicts,
                        )
                    ||| exists|k: int, n: int|
                        0 <= k < est.len() && 0 <= n < est[k].public_keys@.len() && address_of(
                            addresses,
                            est[k],
                        ) == Address::Established(a) && bond_signed_by(
                            tx,
                            (#[trigger] est[k].public_keys@[n]).raw,
                            verdicts,
                        )
                },
            }
        }),
        forall|k: int|
            #![trigger items(txs.validator_account)[k]]
            0 <= k < items(txs.validator_account).len() && (
            items(txs.bond)[i].data.source matches GenesisAddress::EstablishedAddress(a)
                && address_of(
                addresses,
                without_authorizations(items(txs.validator_account)[k]),
            ) == Address::Established(a)) ==> bond_signed_by(
                items(txs.bond)[i],
                items(txs.validator_account)[k].account_key.pk.raw,
                verdicts,
            ),
{
    let tx = items(txs.bond)[i];
    let est = items(txs.established_account);
    let val = items(txs.validator_account);
    let bonds = items(txs.bond);
    let token = parameters->0.native_token@;
    let ek = established_keys(est, addresses);
    let vk = validator_keys(val, addresses);
    let now = after_bonds(bonds.take(i), initial_balances(balances), token);
    law_valid_transactions(txs, vps, balances, parameters, addresses, verdicts);
    assert(bond_valid(bonds[i], now, ek, vk, token, verdicts));
    law_bond_valid(tx, now, ek, vk, token, verdicts);
    law_keys_of_a_source(tx.data.source, ek, vk);
    let keys = source_keys(tx.data.source, ek, vk)->0;
    match tx.data.source {
        GenesisAddress::PublicKey(pk) => {
            let k = lemma_some_signer(tx, keys.public_keys, verdicts);
            assert(keys.public_keys[k] == pk.raw);
        },
        GenesisAddress::EstablishedAddress(a) => {
            let a = Address::Established(a);
            law_recorded_keys(est, val, addresses, a);
            if ek.contains_key(a) {
                let k = choose|k: int|
                    0 <= k < est.len() && address_of(addresses, #[trigger] est[k]) == a;
                lemma_only_account(est, addresses, k);
                assert(keys == keys_of(est[k]));
                assert(established_account_ok(est[k], vps));
                law_established_account_ok(est[k], vps);
                let n = lemma_some_signer(tx, keys.public_keys, verdicts);
                assert(keys.public_keys[n] == est[k].public_keys@[n].raw);
                assert(bond_signed_by(tx, est[k].public_keys@[n].raw, verdicts));
            } else {
                let k = choose|k: int|
                    0 <= k < val.len() && address_of(
                        addresses,
                        without_authorizations(#[trigger] val[k]),
                    ) == a;
                lemma_only_validator(val, addresses, k);
                let n = lemma_some_signer(tx, keys.public_keys, verdicts);
                assert(keys.public_keys[n] == val[k].account_key.pk.raw);
                assert(bond_signed_by(tx, val[k].account_key.pk.raw, verdicts));
            }
            assert forall|k: int|
                #![trigger val[k]]
                0 <= k < val.len() && address_of(addresses, without_authorizations(val[k]))
                    == a implies bond_signed_by(tx, val[k].account_key.pk.raw, verdicts) by {
                if ek.contains_key(a) {
                    let e = choose|e: int|
                        0 <= e < est.len() && address_of(addresses, #[trigger] est[e]) == a;
                    assert(address_of(addresses, est[e]) != address_of(
                        addresses,
                        without_authorizations(val[k]),
                    ));
                }
                lemma_only_validator(val, addresses, k);
                let n = lemma_some_signer(tx, keys.public_keys, verdicts);
                assert(keys.public_keys[n] == val[k].account_key.pk.raw);
            }
        },
    }
}

/// Where no two accounts share an address, the keys at an address are those of the
/// account there.
proof fn lemma_only_account(
    est: Seq<EstablishedAccountTx>,
    addresses: Map<DerivationView, EstablishedAddress>,
    k: int,
)
    requires
        0 <= k < est.len(),
        forall|i: int, j: int|
            0 <= i < j < est.len() ==> address_of(addresses, #[trigger] est[i]) != address_of(
                addresses,
                #[trigger] est[j],
            ),
    ensures
        established_keys(est, addresses)[address_of(addresses, est[k])] == keys_of(est[k]),
{
    let a = address_of(addresses, est[k]);
    law_recorded_keys(est, Seq::empty(), addresses, a);
    assert forall|j: int| k < j < est.len() implies address_of(addresses, #[trigger] est[j])
        != a by {
        assert(address_of(addresses, est[k]) != address_of(addresses, est[j]));
    }
}

/// The same for validators.
proof fn lemma_only_validator(
    val: Seq<SignedValidatorAccountTx>,
    addresses: Map<DerivationView, EstablishedAddress>,
    k: int,
)
    requires
        0 <= k < val.len(),
        forall|i: int, j: int|
            0 <= i < j < val.len() ==> address_of(
                addresses,
                without_authorizations(#[trigger] val[i]),
            ) != address_of(addresses, without_authorizations(#[trigger] val[j])),
    ensures
        validator_keys(val, addresses)[address_of(addresses, without_authorizations(val[k]))]
            == val[k].account_key.pk.raw,
{
    let a = address_of(addresses, without_authorizations(val[k]));
    law_recorded_keys(Seq::empty(), val, addresses, a);
    assert forall|j: int| k < j < val.len() implies address_of(
        addresses,
        without_authorizations(#[trigger] val[j]),
    ) != a by {
        assert(address_of(addresses, without_authorizations(val[k])) != address_of(
            addresses,
            without_authorizations(val[j]),
        ));
    }
}

/// In valid transactions, a bond of an established account is signed by as many of its
/// keys as its threshold asks for.
pub proof fn law_threshold_of_an_account_is_met(
    txs: Transactions<Unvalidated>,
    vps: Option<&ValidityPredicates>,
    balances: Option<&DenominatedBalances>,
    parameters: Option<&Parameters>,
    addresses: Map<DerivationView, EstablishedAddress>,
    verdicts: Map<SignatureCheckView, bool>,
    i: int,
    k: int,
)
    requires
        transactions_valid(txs, vps, balances, parameters, addresses, verdicts),
        0 <= i < items(txs.bond).len(),
        0 <= k < items(txs.established_account).len(),
        items(txs.bond)[i].data.source matches GenesisAddress::EstablishedAddress(a) && address_of(
            addresses,
            items(txs.established_account)[k],
        ) == Address::Established(a),
    ensures
        ({
            let tx = items(txs.bond)[i];
            let account = items(txs.established_account)[k];
            let pks = account.public_keys@.map_values(
                |pk: crate::keys::StringEncoded<PublicKey>| pk.raw,
            );
            signers(
                bond_message(tx.data.source, tx.data.validator, tx.data.amount),
                pks,
                tx.signatures@,
                verdicts,
            ).len() >= account.threshold >= 1
        }),
{
    let tx = items(txs.bond)[i];
    let est = items(txs.established_account);
    let val = items(txs.validator_account);
    let bonds = items(txs.bond);
    let token = parameters->0.native_token@;
    let ek = established_keys(est, addresses);
    let vk = validator_keys(val, addresses);
    let now = after_bonds(bonds.take(i), initial_balances(balances), token);
    law_valid_transactions(txs, vps, balances, parameters, addresses, verdicts);
    assert(bond_valid(bonds[i], now, ek, vk, token, verdicts));
    law_bond_valid(tx, now, ek, vk, token, verdicts);
    law_keys_of_a_source(tx.data.source, ek, vk);
    law_recorded_keys(est, val, addresses, address_of(addresses, est[k]));
    lemma_only_account(est, addresses, k);
    assert(established_account_ok(est[k], vps));
    law_established_account_ok(est[k], vps);
    let pks = est[k].public_keys@.map_values(
        |pk: crate::keys::StringEncoded<PublicKey>| pk.raw,
    );
    assert(keys_of(est[k]).public_keys =~= pks);
}

/// What `validate` hands on are the accounts as they are, and one bond for each of the
/// bonds, in their order: with the same source and validator, and with the amount in
/// millionths.
pub proof fn law_what_is_handed_on(t: Transactions<Validated>, txs: Transactions<Unvalidated>)
    requires
        is_validated(t, txs),
    ensures
        t.established_account == txs.established_account,
        t.validator_account == txs.validator_account,
        t.bond is Some <==> items(txs.bond).len() > 0,
        items(t.bond).len() == items(txs.bond).len(),
        forall|i: int|
            #![trigger items(t.bond)[i]]
            #![trigger items(txs.bond)[i]]
            0 <= i < items(t.bond).len() && can_denominate(items(txs.bond)[i].data) ==> {
                &&& items(t.bond)[i].source == items(txs.bond)[i].data.source
                &&& items(t.bond)[i].validator == items(txs.bond)[i].data.validator
                &&& items(t.bond)[i].amount.denom == 6
                &&& items(t.bond)[i].amount.amount@ == millionths(items(txs.bond)[i].data.amount)
            },
{
    assert forall|i: int|
        #![trigger items(t.bond)[i]]
        #![trigger items(txs.bond)[i]]
        0 <= i < items(t.bond).len() && can_denominate(items(txs.bond)[i].data) implies {
        &&& items(t.bond)[i].source == items(txs.bond)[i].data.source
        &&& items(t.bond)[i].validator == items(txs.bond)[i].data.validator
        &&& items(t.bond)[i].amount.denom == 6
        &&& items(t.bond)[i].amount.amount@ == millionths(items(txs.bond)[i].data.amount)
    } by {
        law_denominated_in_millionths(items(txs.bond)[i].data);
        assert(items(t.bond)[i] == denominated(items(txs.bond)[i].data));
    }
}

} // verus!
