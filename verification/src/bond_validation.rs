//! Validation of bonds.

use crate::account_validation::{AccountKeys, AccountKeysView};
use crate::address::{Address, GenesisAddress};
use crate::amount::{
    lemma_uint_from, lemma_uint_view, uint_from, worth_less, Amount, DenominatedAmount,
};
use crate::answers::{SignatureCheckView, Verdicts};
use crate::bond::{bond_message, can_denominate, denominated, verify_outcome, BondTx, SignedBondTx};
use crate::keys::PublicKey;
use crate::table::{Key, Table};
use crate::templates::{Alias, DenominatedBalances, Parameters, Unvalidated, Validated};
use vstd::prelude::*;

verus! {

/// The balances of the accounts in one token, as transactions change them.
#[derive(Debug)]
pub struct TokenBalancesForValidation {
    /// Accumulator for tokens transferred to accounts
    pub amounts: Table<GenesisAddress, DenominatedAmount>,
}

impl View for TokenBalancesForValidation {
    type V = Map<GenesisAddress, DenominatedAmount>;

    open spec fn view(&self) -> Map<GenesisAddress, DenominatedAmount> {
        self.amounts@
    }
}

impl Clone for TokenBalancesForValidation {
    fn clone(&self) -> (r: Self)
        ensures
            r@ == self@,
    {
        copy_token_balances(&self.amounts)
    }
}

/// The balances of the accounts, by token.
pub type BalancesView = Map<Seq<char>, Map<GenesisAddress, DenominatedAmount>>;

/// The keys that sign for `source`: those of the established account, or of the
/// validator account, at its address, or the public key that it is.
pub open spec fn source_keys(
    source: GenesisAddress,
    established_accounts: Map<Address, AccountKeysView>,
    validator_accounts: Map<Address, PublicKey>,
) -> Option<AccountKeysView> {
    match source {
        GenesisAddress::EstablishedAddress(address) => {
            let address = Address::Established(address);
            if established_accounts.contains_key(address) {
                Some(established_accounts[address])
            } else if validator_accounts.contains_key(address) {
                Some(
                    AccountKeysView {
                        public_keys: seq![validator_accounts[address]],
                        threshold: 1,
                    },
                )
            } else {
                None
            }
        },
        GenesisAddress::PublicKey(pk) => Some(
            AccountKeysView { public_keys: seq![pk.raw], threshold: 1 },
        ),
    }
}

/// Whether enough of the keys of the source have signed the bond.
pub open spec fn bond_signed(
    tx: SignedBondTx<Unvalidated>,
    established_accounts: Map<Address, AccountKeysView>,
    validator_accounts: Map<Address, PublicKey>,
    verdicts: Map<SignatureCheckView, bool>,
) -> bool {
    &&& source_keys(tx.data.source, established_accounts, validator_accounts) matches Some(keys)
    &&& verify_outcome(
        bond_message(tx.data.source, tx.data.validator, tx.data.amount),
        keys.public_keys,
        keys.threshold,
        tx.signatures@,
        verdicts,
    ) is Ok
}

/// Whether `source` has a balance of `amount` of the token.
pub open spec fn can_pay(
    balances: BalancesView,
    token: Seq<char>,
    source: GenesisAddress,
    amount: DenominatedAmount,
) -> bool {
    &&& balances.contains_key(token)
    &&& balances[token].contains_key(source)
    &&& !worth_less(balances[token][source], amount)
}

/// The balances once `source` has paid `amount` of the token. They stay as they
/// are where it cannot.
///
/// The numbers are subtracted as they are written, also where the balance and the
/// amount have different decimal places; what is left is worth the difference only
/// where they have the same.
pub open spec fn after_payment(
    balances: BalancesView,
    token: Seq<char>,
    source: GenesisAddress,
    amount: DenominatedAmount,
) -> BalancesView {
    if can_pay(balances, token, source, amount) {
        let balance = balances[token][source];
        let left = if balance == amount {
            balances[token].remove(source)
        } else {
            balances[token].insert(
                source,
                DenominatedAmount {
                    amount: Amount {
                        raw: uint_from((balance.amount@ - amount.amount@) as nat),
                    },
                    denom: balance.denom,
                },
            )
        };
        balances.insert(token, left)
    } else {
        balances
    }
}

/// Whether a bond is valid, given the balances before it.
pub open spec fn bond_valid(
    tx: SignedBondTx<Unvalidated>,
    balances: BalancesView,
    established_accounts: Map<Address, AccountKeysView>,
    validator_accounts: Map<Address, PublicKey>,
    token: Seq<char>,
    verdicts: Map<SignatureCheckView, bool>,
) -> bool {
    &&& bond_signed(tx, established_accounts, validator_accounts, verdicts)
    &&& can_denominate(tx.data)
    &&& validator_accounts.contains_key(tx.data.validator)
    &&& can_pay(balances, token, tx.data.source, denominated(tx.data).amount)
}

/// The balances after a bond, given those before it.
pub open spec fn after_bond(
    tx: SignedBondTx<Unvalidated>,
    balances: BalancesView,
    token: Seq<char>,
) -> BalancesView {
    if can_denominate(tx.data) {
        after_payment(balances, token, tx.data.source, denominated(tx.data).amount)
    } else {
        balances
    }
}

/// Whether a payment that `source` can make takes no larger a number from its
/// balance than the balance holds. It could where a balance has fewer decimal
/// places than the amount.
pub open spec fn payment_fits(
    balances: BalancesView,
    token: Seq<char>,
    source: GenesisAddress,
    amount: DenominatedAmount,
) -> bool {
    can_pay(balances, token, source, amount) ==> amount.amount@ <= balances[token][source].amount@
}

/// Whether the payment for a bond fits.
pub open spec fn deduction_fits(
    tx: SignedBondTx<Unvalidated>,
    balances: BalancesView,
    token: Seq<char>,
) -> bool {
    can_denominate(tx.data) ==> payment_fits(
        balances,
        token,
        tx.data.source,
        denominated(tx.data).amount,
    )
}

/// A copy of public keys.
fn copy_keys(keys: &Vec<PublicKey>) -> (r: Vec<PublicKey>)
    ensures
        r@ == keys@,
{
    let mut r: Vec<PublicKey> = Vec::new();
    let mut i: usize = 0;
    while i < keys.len()
        invariant
            i <= keys@.len(),
            r@ == keys@.take(i as int),
        decreases keys@.len() - i,
    {
        r.push(keys[i]);
        i = i + 1;
        assert(r@ =~= keys@.take(i as int));
    }
    assert(r@ =~= keys@);
    r
}

/// The keys that sign for `source`, and how many of them have to.
pub(crate) fn look_up_source(
    source: &GenesisAddress,
    established_accounts: &Table<Address, AccountKeys>,
    validator_accounts: &Table<Address, PublicKey>,
) -> (r: Option<(Vec<PublicKey>, u8)>)
    ensures
        match r {
            Some((pks, threshold)) => source_keys(
                *source,
                established_accounts@,
                validator_accounts@,
            ) == Some(AccountKeysView { public_keys: pks@, threshold }),
            None => source_keys(*source, established_accounts@, validator_accounts@) is None,
        },
{
    let mut single: Vec<PublicKey> = Vec::new();
    match source {
        GenesisAddress::EstablishedAddress(address) => {
            // Try to find the source's PK in either established_accounts or
            // validator_accounts
            let established_addr: Address = Address::Established(*address);
            match established_accounts.get(&established_addr) {
                Some(keys) => Some((copy_keys(&keys.public_keys), keys.threshold)),
                None => match validator_accounts.get(&established_addr) {
                    Some(pk) => {
                        single.push(*pk);
                        assert(single@ =~= seq![*pk]);
                        Some((single, 1))
                    },
                    None => None,
                },
            }
        },
        GenesisAddress::PublicKey(pk) => {
            single.push(pk.raw);
            assert(single@ =~= seq![pk.raw]);
            Some((single, 1))
        },
    }
}

/// Whether enough of the keys of the source have signed the bond.
fn validate_bond_signatures(
    tx: &SignedBondTx<Unvalidated>,
    established_accounts: &Table<Address, AccountKeys>,
    validator_accounts: &Table<Address, PublicKey>,
    verdicts: &Verdicts,
) -> (r: bool)
    ensures
        r == bond_signed(*tx, established_accounts@, validator_accounts@, verdicts@),
{
    match look_up_source(&tx.data.source, established_accounts, validator_accounts) {
        Some((pks, threshold)) => tx.verify_sig(pks.as_slice(), threshold, verdicts).is_ok(),
        None => false,
    }
}

/// Deduct `amount` of the token from the balance of `source`. The result says
/// whether the source could pay. There is none, and the balances stay as they are,
/// where it could but the balance is the smaller number.
pub(crate) fn pay(
    balances: &mut Table<Alias, TokenBalancesForValidation>,
    token: &Alias,
    source: &GenesisAddress,
    amount: &DenominatedAmount,
) -> (r: Option<bool>)
    ensures
        match r {
            Some(paid) => payment_fits(old(balances)@, token@, *source, *amount) && paid == can_pay(
                old(balances)@,
                token@,
                *source,
                *amount,
            ) && final(balances)@ == after_payment(old(balances)@, token@, *source, *amount),
            None => !payment_fits(old(balances)@, token@, *source, *amount) && final(balances)@
                == old(balances)@,
        },
{
    match balances.remove(token) {
        Some(mut token_balances) => {
            let mut r: Option<bool> = Some(false);
            match token_balances.amounts.get(source) {
                Some(balance) => {
                    let balance: DenominatedAmount = *balance;
                    if !balance.less_than(amount) {
                        match balance.amount.raw.checked_sub(&amount.amount.raw) {
                            Some(left) => {
                                if *amount == balance {
                                    let _ = token_balances.amounts.remove(source);
                                } else {
                                    // Deduct the amount from source
                                    proof {
                                        lemma_uint_view(left, left);
                                        lemma_uint_from(left@);
                                        lemma_uint_view(left, uint_from(left@));
                                    }
                                    token_balances.amounts.insert(
                                        *source,
                                        DenominatedAmount {
                                            amount: Amount { raw: left },
                                            denom: balance.denom,
                                        },
                                    );
                                }
                                r = Some(true);
                            },
                            None => {
                                r = None;
                            },
                        }
                    }
                },
                None => {},
            }
            balances.insert(token.clone(), token_balances);
            proof {
                if r is None {
                    assert(balances@ =~= old(balances)@);
                } else {
                    assert(balances@ =~= after_payment(old(balances)@, token@, *source, *amount));
                }
            }
            r
        },
        None => {
            assert(balances@ =~= old(balances)@);
            Some(false)
        },
    }
}

/// Validate a bond, and deduct its amount from the balance of its source.
pub fn validate_bond(
    tx: SignedBondTx<Unvalidated>,
    balances: &mut Table<Alias, TokenBalancesForValidation>,
    established_accounts: &Table<Address, AccountKeys>,
    validator_accounts: &Table<Address, PublicKey>,
    parameters: &Parameters,
    verdicts: &Verdicts,
) -> (r: Option<BondTx<Validated>>)
    requires
        deduction_fits(tx, old(balances)@, parameters.native_token@),
    ensures
        r == (if bond_valid(
            tx,
            old(balances)@,
            established_accounts@,
            validator_accounts@,
            parameters.native_token@,
            verdicts@,
        ) {
            Some(denominated(tx.data))
        } else {
            None
        }),
        final(balances)@ == after_bond(tx, old(balances)@, parameters.native_token@),
{
    // Check signature
    let mut is_valid: bool = validate_bond_signatures(
        &tx,
        established_accounts,
        validator_accounts,
        verdicts,
    );

    // Make sure the native token amount is denominated correctly
    let validated_bond: BondTx<Validated> = match tx.data.denominate() {
        Ok(bond) => bond,
        Err(_) => {
            return None;
        },
    };

    // Check that the validator exists
    if !validator_accounts.contains_key(&validated_bond.validator) {
        is_valid = false;
    }
    // Check and update token balance of the source
    if !pay(
        balances,
        &parameters.native_token,
        &validated_bond.source,
        &validated_bond.amount,
    ).unwrap() {
        is_valid = false;
    }
    if is_valid {
        Some(validated_bond)
    } else {
        None
    }
}

/// The balances after the bonds, one after the other.
pub open spec fn after_bonds(
    txs: Seq<SignedBondTx<Unvalidated>>,
    balances: BalancesView,
    token: Seq<char>,
) -> BalancesView
    decreases txs.len(),
{
    if txs.len() == 0 {
        balances
    } else {
        after_bond(txs.last(), after_bonds(txs.drop_last(), balances, token), token)
    }
}

/// Whether no bond takes a larger number from a balance than it holds.
pub open spec fn deductions_fit(
    txs: Seq<SignedBondTx<Unvalidated>>,
    balances: BalancesView,
    token: Seq<char>,
) -> bool {
    forall|i: int|
        0 <= i < txs.len() ==> deduction_fits(
            #[trigger] txs[i],
            after_bonds(txs.take(i), balances, token),
            token,
        )
}

/// Whether every bond is valid, given the balances that the bonds before it left.
pub open spec fn bonds_valid(
    txs: Seq<SignedBondTx<Unvalidated>>,
    balances: BalancesView,
    established_accounts: Map<Address, AccountKeysView>,
    validator_accounts: Map<Address, PublicKey>,
    token: Seq<char>,
    verdicts: Map<SignatureCheckView, bool>,
) -> bool {
    forall|i: int|
        0 <= i < txs.len() ==> bond_valid(
            #[trigger] txs[i],
            after_bonds(txs.take(i), balances, token),
            established_accounts,
            validator_accounts,
            token,
            verdicts,
        )
}

/// The balances that the transactions start from; none where there is no file.
pub open spec fn initial_balances(balances: Option<&DenominatedBalances>) -> BalancesView {
    match balances {
        Some(balances) => balances.token@,
        None => Map::empty(),
    }
}

/// The bonds with their amounts written with the decimal places of the native
/// token.
pub open spec fn denominated_bonds(txs: Seq<SignedBondTx<Unvalidated>>) -> Seq<BondTx<Validated>> {
    txs.map_values(|tx: SignedBondTx<Unvalidated>| denominated(tx.data))
}

/// Whether each of the entries of `copied` is one of the first `n` of `table`, and
/// the other way round.
spec fn is_copy_of_prefix<K: Key, V: View>(
    copied: Map<K::V, V::V>,
    table: Table<K, V>,
    n: int,
) -> bool {
    &&& forall|k: K::V| #[trigger]
        copied.contains_key(k) <==> table.keys().take(n).contains(k)
    &&& forall|k: K::V| #[trigger] copied.contains_key(k) ==> copied[k] == table@[k]
}

/// One more entry is copied.
proof fn lemma_copy_step<K: Key, V: View>(copied: Map<K::V, V::V>, table: Table<K, V>, n: int)
    requires
        0 <= n < table.keys().len(),
        is_copy_of_prefix(copied, table, n),
    ensures
        is_copy_of_prefix(
            copied.insert(table.keys()[n], table@[table.keys()[n]]),
            table,
            n + 1,
        ),
{
    let keys = table.keys();
    let key = keys[n];
    let after = copied.insert(key, table@[key]);
    assert forall|k: K::V| #[trigger] after.contains_key(k) <==> keys.take(n + 1).contains(k) by {
        assert(copied.contains_key(k) <==> keys.take(n).contains(k));
        if k == key {
            assert(keys.take(n + 1)[n] == k);
        } else if keys.take(n + 1).contains(k) {
            let j = keys.take(n + 1).index_of(k);
            assert(keys.take(n)[j] == k);
        } else if keys.take(n).contains(k) {
            let j = keys.take(n).index_of(k);
            assert(keys.take(n + 1)[j] == k);
        }
    }
    assert forall|k: K::V| #[trigger] after.contains_key(k) implies after[k] == table@[k] by {
        if k != key {
            assert(copied.contains_key(k));
        }
    }
}

/// Every entry is copied.
proof fn lemma_copied<K: Key, V: View>(copied: Map<K::V, V::V>, table: Table<K, V>)
    requires
        is_copy_of_prefix(copied, table, table.keys().len() as int),
    ensures
        copied == table@,
{
    table.lemma_keys();
    assert(table.keys().take(table.keys().len() as int) =~= table.keys());
    assert forall|k: K::V| copied.contains_key(k) <==> #[trigger] table@.contains_key(k) by {
        assert(table@.contains_key(k) <==> table.keys().contains(k));
        assert(copied.contains_key(k) <==> table.keys().contains(k));
    }
    assert(copied =~= table@);
}

/// A copy of the balances in one token, for tracking changes.
fn copy_token_balances(
    balances: &Table<GenesisAddress, DenominatedAmount>,
) -> (r: TokenBalancesForValidation)
    ensures
        r@ == balances@,
{
    let mut amounts: Table<GenesisAddress, DenominatedAmount> = Table::new();
    let mut i: usize = 0;
    while i < balances.len()
        invariant
            i <= balances.keys().len(),
            is_copy_of_prefix(amounts@, *balances, i as int),
        decreases balances.keys().len() - i,
    {
        proof {
            lemma_copy_step(amounts@, *balances, i as int);
        }
        amounts.insert(*balances.key_at(i), *balances.value_at(i));
        i = i + 1;
    }
    proof {
        lemma_copied(amounts@, *balances);
    }
    TokenBalancesForValidation { amounts }
}

/// A copy of the balances, for tracking changes applied from transactions.
pub(crate) fn copy_balances(balances: Option<&DenominatedBalances>) -> (r: Table<
    Alias,
    TokenBalancesForValidation,
>)
    ensures
        r@ == initial_balances(balances),
{
    let mut copy: Table<Alias, TokenBalancesForValidation> = Table::new();
    match balances {
        Some(balances) => {
            let mut i: usize = 0;
            while i < balances.token.len()
                invariant
                    i <= balances.token.keys().len(),
                    is_copy_of_prefix(copy@, balances.token, i as int),
                decreases balances.token.keys().len() - i,
            {
                proof {
                    lemma_copy_step(copy@, balances.token, i as int);
                }
                copy.insert(
                    balances.token.key_at(i).clone(),
                    copy_token_balances(&balances.token.value_at(i).0),
                );
                i = i + 1;
            }
            proof {
                lemma_copied(copy@, balances.token);
            }
        },
        None => {},
    }
    copy
}

/// Whether the bond at `i` is valid, given the balances that the bonds before it
/// left.
#[verifier::opaque]
spec fn nth_bond_valid(
    txs: Seq<SignedBondTx<Unvalidated>>,
    i: int,
    balances: BalancesView,
    established_accounts: Map<Address, AccountKeysView>,
    validator_accounts: Map<Address, PublicKey>,
    token: Seq<char>,
    verdicts: Map<SignatureCheckView, bool>,
) -> bool {
    bond_valid(
        txs[i],
        after_bonds(txs.take(i), balances, token),
        established_accounts,
        validator_accounts,
        token,
        verdicts,
    )
}

/// Validate the bond at `i`, given the balances that the bonds before it left.
fn validate_nth_bond(
    tx: SignedBondTx<Unvalidated>,
    balances: &mut Table<Alias, TokenBalancesForValidation>,
    established_accounts: &Table<Address, AccountKeys>,
    validator_accounts: &Table<Address, PublicKey>,
    parameters: &Parameters,
    verdicts: &Verdicts,
    Ghost(txs): Ghost<Seq<SignedBondTx<Unvalidated>>>,
    Ghost(i): Ghost<int>,
    Ghost(start): Ghost<BalancesView>,
) -> (r: Option<BondTx<Validated>>)
    requires
        0 <= i < txs.len(),
        tx == txs[i],
        deductions_fit(txs, start, parameters.native_token@),
        old(balances)@ == after_bonds(txs.take(i), start, parameters.native_token@),
    ensures
        r is Some <==> nth_bond_valid(
            txs,
            i,
            start,
            established_accounts@,
            validator_accounts@,
            parameters.native_token@,
            verdicts@,
        ),
        r matches Some(bond) ==> bond == denominated_bonds(txs)[i],
        final(balances)@ == after_bonds(txs.take(i + 1), start, parameters.native_token@),
{
    proof {
        reveal(nth_bond_valid);
        let token = parameters.native_token@;
        assert(deduction_fits(txs[i], after_bonds(txs.take(i), start, token), token));
        assert(txs.take(i + 1).drop_last() =~= txs.take(i));
    }
    validate_bond(tx, balances, established_accounts, validator_accounts, parameters, verdicts)
}

/// Validate the bonds, one after the other. There is no result unless all are
/// valid.
pub(crate) fn validate_bonds(
    txs: Vec<SignedBondTx<Unvalidated>>,
    balances: &mut Table<Alias, TokenBalancesForValidation>,
    established_accounts: &Table<Address, AccountKeys>,
    validator_accounts: &Table<Address, PublicKey>,
    parameters: &Parameters,
    verdicts: &Verdicts,
) -> (r: Option<Vec<BondTx<Validated>>>)
    requires
        deductions_fit(txs@, old(balances)@, parameters.native_token@),
    ensures
        r is Some <==> bonds_valid(
            txs@,
            old(balances)@,
            established_accounts@,
            validator_accounts@,
            parameters.native_token@,
            verdicts@,
        ),
        r matches Some(bonds) ==> bonds@ == denominated_bonds(txs@),
        final(balances)@ == after_bonds(txs@, old(balances)@, parameters.native_token@),
{
    let ghost all = txs@;
    let ghost start = balances@;
    let ghost bonds = denominated_bonds(all);
    let mut all_valid: bool = true;
    let mut validated: Vec<BondTx<Validated>> = Vec::new();
    assert(all.take(0) =~= Seq::empty());
    for tx in iter: txs
        invariant
            iter.seq() == all,
            bonds == denominated_bonds(all),
            bonds.len() == all.len(),
            deductions_fit(all, start, parameters.native_token@),
            balances@ == after_bonds(all.take(iter.index()), start, parameters.native_token@),
            all_valid == forall|j: int|
                0 <= j < iter.index() ==> #[trigger] nth_bond_valid(
                    all,
                    j,
                    start,
                    established_accounts@,
                    validator_accounts@,
                    parameters.native_token@,
                    verdicts@,
                ),
            all_valid ==> validated@ == bonds.take(iter.index()),
    {
        let ghost i = iter.index();
        match validate_nth_bond(
            tx,
            balances,
            established_accounts,
            validator_accounts,
            parameters,
            verdicts,
            Ghost(all),
            Ghost(i),
            Ghost(start),
        ) {
            Some(bond) => {
                validated.push(bond);
                assert(bonds.take(i + 1) =~= bonds.take(i).push(bonds[i]));
            },
            None => {
                all_valid = false;
            },
        }
    }
    proof {
        assert(all.take(all.len() as int) =~= all);
        assert(bonds.take(all.len() as int) =~= bonds);
        lemma_bonds_valid(
            all,
            start,
            established_accounts@,
            validator_accounts@,
            parameters.native_token@,
            verdicts@,
        );
    }
    if all_valid {
        Some(validated)
    } else {
        None
    }
}

/// The bonds are valid if each of them is.
proof fn lemma_bonds_valid(
    txs: Seq<SignedBondTx<Unvalidated>>,
    balances: BalancesView,
    established_accounts: Map<Address, AccountKeysView>,
    validator_accounts: Map<Address, PublicKey>,
    token: Seq<char>,
    verdicts: Map<SignatureCheckView, bool>,
)
    ensures
        bonds_valid(
            txs,
            balances,
            established_accounts,
            validator_accounts,
            token,
            verdicts,
        ) == forall|j: int|
            0 <= j < txs.len() ==> #[trigger] nth_bond_valid(
                txs,
                j,
                balances,
                established_accounts,
                validator_accounts,
                token,
                verdicts,
            ),
{
    reveal(nth_bond_valid);
    if forall|j: int|
        0 <= j < txs.len() ==> #[trigger] nth_bond_valid(
            txs,
            j,
            balances,
            established_accounts,
            validator_accounts,
            token,
            verdicts,
        ) {
        assert forall|i: int| 0 <= i < txs.len() implies bond_valid(
            #[trigger] txs[i],
            after_bonds(txs.take(i), balances, token),
            established_accounts,
            validator_accounts,
            token,
            verdicts,
        ) by {
            assert(nth_bond_valid(
                txs,
                i,
                balances,
                established_accounts,
                validator_accounts,
                token,
                verdicts,
            ));
        }
    }
}

/// Whether the payment for the bond at `i` fits.
#[verifier::opaque]
spec fn nth_deduction_fits(
    txs: Seq<SignedBondTx<Unvalidated>>,
    i: int,
    balances: BalancesView,
    token: Seq<char>,
) -> bool {
    deduction_fits(txs[i], after_bonds(txs.take(i), balances, token), token)
}

/// Whether the payment for the bond at `i` fits. If it does, it is made.
fn check_nth_deduction(
    tx: &SignedBondTx<Unvalidated>,
    balances: &mut Table<Alias, TokenBalancesForValidation>,
    token: &Alias,
    Ghost(txs): Ghost<Seq<SignedBondTx<Unvalidated>>>,
    Ghost(i): Ghost<int>,
    Ghost(start): Ghost<BalancesView>,
) -> (r: bool)
    requires
        0 <= i < txs.len(),
        *tx == txs[i],
        old(balances)@ == after_bonds(txs.take(i), start, token@),
    ensures
        r == nth_deduction_fits(txs, i, start, token@),
        r ==> final(balances)@ == after_bonds(txs.take(i + 1), start, token@),
{
    proof {
        reveal(nth_deduction_fits);
        assert(txs.take(i + 1).drop_last() =~= txs.take(i));
    }
    match tx.data.denominate() {
        Ok(bond) => pay(balances, token, &bond.source, &bond.amount).is_some(),
        Err(_) => true,
    }
}

/// Whether no bond takes a larger number from a balance than it holds, which
/// [`crate::validate::validate`] asks for.
pub fn check_deductions(
    txs: &Vec<SignedBondTx<Unvalidated>>,
    balances: Option<&DenominatedBalances>,
    parameters: &Parameters,
) -> (r: bool)
    ensures
        r == deductions_fit(txs@, initial_balances(balances), parameters.native_token@),
{
    let ghost start = initial_balances(balances);
    let ghost token = parameters.native_token@;
    let mut token_balances: Table<Alias, TokenBalancesForValidation> = copy_balances(balances);
    let mut i: usize = 0;
    assert(txs@.take(0) =~= Seq::empty());
    while i < txs.len()
        invariant
            i <= txs@.len(),
            start == initial_balances(balances),
            token == parameters.native_token@,
            token_balances@ == after_bonds(txs@.take(i as int), start, token),
            forall|j: int| 0 <= j < i ==> #[trigger] nth_deduction_fits(txs@, j, start, token),
        decreases txs@.len() - i,
    {
        if !check_nth_deduction(
            &txs[i],
            &mut token_balances,
            &parameters.native_token,
            Ghost(txs@),
            Ghost(i as int),
            Ghost(start),
        ) {
            proof {
                lemma_deductions_fit(txs@, start, token);
            }
            return false;
        }
        i = i + 1;
    }
    proof {
        lemma_deductions_fit(txs@, start, token);
    }
    true
}

/// The payments fit if each of them does.
proof fn lemma_deductions_fit(
    txs: Seq<SignedBondTx<Unvalidated>>,
    balances: BalancesView,
    token: Seq<char>,
)
    ensures
        deductions_fit(txs, balances, token) == forall|j: int|
            0 <= j < txs.len() ==> #[trigger] nth_deduction_fits(txs, j, balances, token),
{
    reveal(nth_deduction_fits);
    if forall|j: int|
        0 <= j < txs.len() ==> #[trigger] nth_deduction_fits(txs, j, balances, token) {
        assert forall|i: int| 0 <= i < txs.len() implies deduction_fits(
            #[trigger] txs[i],
            after_bonds(txs.take(i), balances, token),
            token,
        ) by {
            assert(nth_deduction_fits(txs, i, balances, token));
        }
    }
}

} // verus!
