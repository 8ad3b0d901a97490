//! What is wrong with transactions that are not valid.

use crate::account::{
    without_authorizations, EstablishedAccountTx, SignedPk, SignedValidatorAccountTx,
    UnsignedValidatorAccountTx,
};
use crate::account_validation::{
    accounts_valid, addresses_of, established_account_ok, established_keys, has_vp, key_authorized,
    lemma_push_contains, unsigned_accounts, validate_established_account,
    validate_validator_account, validator_account_ok, validator_keys, vp_exists, AccountKeys,
    AccountKeysView,
};
use crate::address::{Address, EstablishedAddress};
use crate::amount::{
    rate_in_bounds, worth_less, AmountError, DenominatedAmount, NATIVE_MAX_DECIMAL_PLACES,
};
use crate::answers::{
    address_of, AddressBook, DerivationView, DeriveEstablishedAddress, SignatureCheckView, Verdicts,
};
use crate::bond::{
    bond_message, can_denominate, denominated, validate_signature, verify_outcome, SignedBondTx,
};
use crate::bond_validation::{
    after_bond, after_bonds, bond_valid, bonds_valid, copy_balances, deduction_fits, deductions_fit,
    initial_balances, look_up_source, pay, source_keys, BalancesView, TokenBalancesForValidation,
};
use crate::codec::Encode;
use crate::keys::PublicKey;
use crate::signing::accounts_known;
use crate::table::Table;
use crate::templates::{Alias, DenominatedBalances, Parameters, Unvalidated, ValidityPredicates};
use crate::transactions::{items, Transactions};
use crate::validate::transactions_valid;
use vstd::prelude::*;

verus! {

/// What can be wrong with the transaction of an established account.
#[derive(Clone, Copy, Debug, PartialEq, Eq, Structural)]
pub enum EstablishedFault {
    /// An established account may not have zero threshold.
    ZeroThreshold,
    /// An account before this one has the same address.
    DuplicateAddress,
    /// The validity predicate is not found.
    UnknownVp,
    /// There are no public keys.
    NoPublicKeys,
}

/// The keys of a validator account.
#[derive(Clone, Copy, Debug, PartialEq, Eq, Structural)]
pub enum ValidatorKey {
    Account,
    Consensus,
    Protocol,
    TendermintNode,
    EthHot,
    EthCold,
}

/// What can be wrong with the transaction of a validator account.
#[derive(Clone, Copy, Debug, PartialEq, Eq, Structural)]
pub enum ValidatorFault {
    /// An account before this one has the same address.
    DuplicateAddress,
    /// The validity predicate is not found.
    UnknownVp,
    /// The commission rate is not inside 0-1.
    CommissionRate,
    /// The authorization of a key is invalid.
    Unauthorized(ValidatorKey),
}

/// What can be wrong with a bond. Of a bond whose amount cannot be denominated, the
/// validator and the balance are not looked at.
#[derive(Clone, Copy, Debug, PartialEq, Eq, Structural)]
pub enum BondFault {
    /// The public keys of the source cannot be found.
    UnknownSource,
    /// Not enough keys of the source have signed.
    InvalidSignature,
    /// The amount cannot be written with the decimal places of the native token.
    Amount(AmountError),
    /// The account of the validator is not found.
    UnknownValidator,
    /// There are no balances of the native token.
    NoToken,
    /// The source has no balance of the native token.
    NoBalance,
    /// The source doesn't have enough balance of the native token, only this one.
    InsufficientBalance(DenominatedAmount),
}

/// What can be wrong with genesis transactions, with the position of the transaction.
#[derive(Clone, Copy, Debug, PartialEq, Eq, Structural)]
pub enum Fault {
    Established(usize, EstablishedFault),
    Validator(usize, ValidatorFault),
    /// Bonds cannot be validated without parameters.
    MissingParameters,
    Bond(usize, BondFault),
}

/// Whether an account transaction has the fault; `taken` says whether its address
/// is in use before it.
pub open spec fn has_established_fault(
    tx: EstablishedAccountTx,
    taken: bool,
    vps: Option<&ValidityPredicates>,
    fault: EstablishedFault,
) -> bool {
    match fault {
        EstablishedFault::ZeroThreshold => tx.threshold == 0,
        EstablishedFault::DuplicateAddress => taken,
        EstablishedFault::UnknownVp => !vp_exists(vps, tx.vp@),
        EstablishedFault::NoPublicKeys => tx.public_keys@.len() == 0,
    }
}

/// The key of a validator account.
pub open spec fn key_of(tx: SignedValidatorAccountTx, key: ValidatorKey) -> SignedPk {
    match key {
        ValidatorKey::Account => tx.account_key,
        ValidatorKey::Consensus => tx.consensus_key,
        ValidatorKey::Protocol => tx.protocol_key,
        ValidatorKey::TendermintNode => tx.tendermint_node_key,
        ValidatorKey::EthHot => tx.eth_hot_key,
        ValidatorKey::EthCold => tx.eth_cold_key,
    }
}

/// Whether a validator account has the fault; `taken` says whether its address is in
/// use before it.
pub open spec fn has_validator_fault(
    tx: SignedValidatorAccountTx,
    taken: bool,
    vps: Option<&ValidityPredicates>,
    verdicts: Map<SignatureCheckView, bool>,
    fault: ValidatorFault,
) -> bool {
    match fault {
        ValidatorFault::DuplicateAddress => taken,
        ValidatorFault::UnknownVp => !vp_exists(vps, tx.vp@),
        ValidatorFault::CommissionRate => !rate_in_bounds(tx.commission_rate),
        ValidatorFault::Unauthorized(key) => !key_authorized(
            key_of(tx, key),
            without_authorizations(tx).encoding(),
            verdicts,
        ),
    }
}

/// Whether a bond has the fault, given the balances before it.
pub open spec fn has_bond_fault(
    tx: SignedBondTx<Unvalidated>,
    balances: BalancesView,
    established_accounts: Map<Address, AccountKeysView>,
    validator_accounts: Map<Address, PublicKey>,
    token: Seq<char>,
    verdicts: Map<SignatureCheckView, bool>,
    fault: BondFault,
) -> bool {
    let keys = source_keys(tx.data.source, established_accounts, validator_accounts);
    match fault {
        BondFault::UnknownSource => keys is None,
        BondFault::InvalidSignature => keys is Some && verify_outcome(
            bond_message(tx.data.source, tx.data.validator, tx.data.amount),
            keys->0.public_keys,
            keys->0.threshold,
            tx.signatures@,
            verdicts,
        ) is Err,
        BondFault::Amount(AmountError::PrecisionDecrease) => tx.data.amount.denom
            > NATIVE_MAX_DECIMAL_PLACES,
        BondFault::Amount(AmountError::PrecisionOverflow) => tx.data.amount.denom
            <= NATIVE_MAX_DECIMAL_PLACES && !can_denominate(tx.data),
        BondFault::UnknownValidator => can_denominate(tx.data) && !validator_accounts.contains_key(
            tx.data.validator,
        ),
        BondFault::NoToken => can_denominate(tx.data) && !balances.contains_key(token),
        BondFault::NoBalance => can_denominate(tx.data) && balances.contains_key(token)
            && !balances[token].contains_key(tx.data.source),
        BondFault::InsufficientBalance(got) => can_denominate(tx.data) && balances.contains_key(
            token,
        ) && balances[token].contains_key(tx.data.source) && got
            == balances[token][tx.data.source] && worth_less(got, denominated(tx.data).amount),
    }
}

/// Whether one of the established accounts before the one at `i` has its address.
pub open spec fn established_taken(
    txs: Seq<EstablishedAccountTx>,
    i: int,
    addresses: Map<DerivationView, EstablishedAddress>,
) -> bool {
    addresses_of(txs, addresses).take(i).contains(address_of(addresses, txs[i]))
}

/// Whether one of the established accounts, or of the validator accounts before the
/// one at `i`, has its address.
pub open spec fn validator_taken(
    established: Seq<EstablishedAccountTx>,
    txs: Seq<SignedValidatorAccountTx>,
    i: int,
    addresses: Map<DerivationView, EstablishedAddress>,
) -> bool {
    (addresses_of(established, addresses) + addresses_of(unsigned_accounts(txs), addresses).take(
        i,
    )).contains(address_of(addresses, without_authorizations(txs[i])))
}

/// Whether the bond at `i` has the fault.
pub open spec fn has_nth_bond_fault(
    txs: Seq<SignedBondTx<Unvalidated>>,
    i: int,
    balances: BalancesView,
    established_accounts: Map<Address, AccountKeysView>,
    validator_accounts: Map<Address, PublicKey>,
    token: Seq<char>,
    verdicts: Map<SignatureCheckView, bool>,
    fault: BondFault,
) -> bool {
    has_bond_fault(
        txs[i],
        after_bonds(txs.take(i), balances, token),
        established_accounts,
        validator_accounts,
        token,
        verdicts,
        fault,
    )
}

/// Whether genesis transactions have the fault.
pub open spec fn has_fault(
    txs: Transactions<Unvalidated>,
    vps: Option<&ValidityPredicates>,
    balances: Option<&DenominatedBalances>,
    parameters: Option<&Parameters>,
    addresses: Map<DerivationView, EstablishedAddress>,
    verdicts: Map<SignatureCheckView, bool>,
    fault: Fault,
) -> bool {
    let established = items(txs.established_account);
    let validators = items(txs.validator_account);
    let bonds = items(txs.bond);
    match fault {
        Fault::Established(i, f) => i < established.len() && has_established_fault(
            established[i as int],
            established_taken(established, i as int, addresses),
            vps,
            f,
        ),
        Fault::Validator(i, f) => i < validators.len() && has_validator_fault(
            validators[i as int],
            validator_taken(established, validators, i as int, addresses),
            vps,
            verdicts,
            f,
        ),
        Fault::MissingParameters => bonds.len() > 0 && parameters is None,
        Fault::Bond(i, f) => i < bonds.len() && parameters is Some && has_nth_bond_fault(
            bonds,
            i as int,
            initial_balances(balances),
            established_keys(established, addresses),
            validator_keys(validators, addresses),
            parameters->0.native_token@,
            verdicts,
            f,
        ),
    }
}

/// Adds the fault if it is there.
fn push_if(faults: &mut Vec<Fault>, present: bool, fault: Fault)
    ensures
        final(faults)@ == (if present {
            old(faults)@.push(fault)
        } else {
            old(faults)@
        }),
        forall|x: Fault| #[trigger]
            final(faults)@.contains(x) <==> old(faults)@.contains(x) || (present && x == fault),
{
    let ghost before = faults@;
    if present {
        faults.push(fault);
    }
    proof {
        assert forall|x: Fault| #[trigger] faults@.contains(x) <==> before.contains(x) || (present
            && x == fault) by {
            if before.contains(x) {
                assert(faults@[before.index_of(x)] == x);
            }
            if present {
                assert(faults@[before.len() as int] == fault);
                if faults@.contains(x) && x != fault {
                    assert(before[faults@.index_of(x)] == x);
                }
            }
        }
    }
}

/// Adds what is wrong with the account transaction at `i`.
fn push_established_faults(
    faults: &mut Vec<Fault>,
    i: usize,
    tx: &EstablishedAccountTx,
    taken: bool,
    vps: Option<&ValidityPredicates>,
)
    ensures
        forall|x: Fault| #[trigger]
            final(faults)@.contains(x) <==> old(faults)@.contains(x) || (x matches Fault::Established(
                j,
                f,
            ) && j == i && has_established_fault(*tx, taken, vps, f)),
{
    push_if(faults, tx.threshold == 0, Fault::Established(i, EstablishedFault::ZeroThreshold));
    push_if(faults, taken, Fault::Established(i, EstablishedFault::DuplicateAddress));
    push_if(faults, !has_vp(vps, &tx.vp), Fault::Established(i, EstablishedFault::UnknownVp));
    push_if(
        faults,
        tx.public_keys.len() == 0,
        Fault::Established(i, EstablishedFault::NoPublicKeys),
    );
}

/// Adds the fault of `key`, the key `name` of the validator account at `i`, if its
/// authorization is invalid.
fn push_if_unauthorized(
    faults: &mut Vec<Fault>,
    i: usize,
    unsigned: &UnsignedValidatorAccountTx,
    key: &SignedPk,
    name: ValidatorKey,
    verdicts: &Verdicts,
)
    requires
        unsigned.fits(),
    ensures
        forall|x: Fault| #[trigger]
            final(faults)@.contains(x) <==> old(faults)@.contains(x) || (x == Fault::Validator(
                i,
                ValidatorFault::Unauthorized(name),
            ) && !key_authorized(*key, unsigned.encoding(), verdicts@)),
{
    let valid: bool = validate_signature(
        unsigned,
        &key.pk.raw,
        &key.authorization.raw,
        verdicts,
    );
    push_if(faults, !valid, Fault::Validator(i, ValidatorFault::Unauthorized(name)));
}

/// Adds what is wrong with the validator account at `i`.
fn push_validator_faults(
    faults: &mut Vec<Fault>,
    i: usize,
    tx: &SignedValidatorAccountTx,
    taken: bool,
    vps: Option<&ValidityPredicates>,
    verdicts: &Verdicts,
)
    requires
        without_authorizations(*tx).fits(),
    ensures
        forall|x: Fault| #[trigger]
            final(faults)@.contains(x) <==> old(faults)@.contains(x) || (x matches Fault::Validator(
                j,
                f,
            ) && j == i && has_validator_fault(*tx, taken, vps, verdicts@, f)),
{
    let unsigned: UnsignedValidatorAccountTx = UnsignedValidatorAccountTx::from(tx);
    push_if(faults, taken, Fault::Validator(i, ValidatorFault::DuplicateAddress));
    push_if(faults, !has_vp(vps, &tx.vp), Fault::Validator(i, ValidatorFault::UnknownVp));
    push_if(
        faults,
        !tx.commission_rate.is_rate(),
        Fault::Validator(i, ValidatorFault::CommissionRate),
    );
    push_if_unauthorized(
        faults,
        i,
        &unsigned,
        &tx.account_key,
        ValidatorKey::Account,
        verdicts,
    );
    push_if_unauthorized(
        faults,
        i,
        &unsigned,
        &tx.consensus_key,
        ValidatorKey::Consensus,
        verdicts,
    );
    push_if_unauthorized(
        faults,
        i,
        &unsigned,
        &tx.protocol_key,
        ValidatorKey::Protocol,
        verdicts,
    );
    push_if_unauthorized(
        faults,
        i,
        &unsigned,
        &tx.tendermint_node_key,
        ValidatorKey::TendermintNode,
        verdicts,
    );
    push_if_unauthorized(
        faults,
        i,
        &unsigned,
        &tx.eth_hot_key,
        ValidatorKey::EthHot,
        verdicts,
    );
    push_if_unauthorized(
        faults,
        i,
        &unsigned,
        &tx.eth_cold_key,
        ValidatorKey::EthCold,
        verdicts,
    );
}

/// What is wrong with the signatures of a bond, if anything.
fn signature_fault(
    tx: &SignedBondTx<Unvalidated>,
    established_accounts: &Table<Address, AccountKeys>,
    validator_accounts: &Table<Address, PublicKey>,
    verdicts: &Verdicts,
    Ghost(balances): Ghost<BalancesView>,
    Ghost(token): Ghost<Seq<char>>,
) -> (r: Option<BondFault>)
    ensures
        forall|f: BondFault|
            f is UnknownSource || f is InvalidSignature ==> (#[trigger] has_bond_fault(
                *tx,
                balances,
                established_accounts@,
                validator_accounts@,
                token,
                verdicts@,
                f,
            ) <==> r == Some(f)),
        r matches Some(f) ==> f is UnknownSource || f is InvalidSignature,
{
    match look_up_source(&tx.data.source, established_accounts, validator_accounts) {
        Some((pks, threshold)) => match tx.verify_sig(pks.as_slice(), threshold, verdicts) {
            Ok(_) => None,
            Err(_) => Some(BondFault::InvalidSignature),
        },
        None => Some(BondFault::UnknownSource),
    }
}

/// What is wrong with the balance that a bond is paid from, if anything.
fn balance_fault(
    tx: &SignedBondTx<Unvalidated>,
    balances: &Table<Alias, TokenBalancesForValidation>,
    token: &Alias,
    amount: &DenominatedAmount,
) -> (r: Option<BondFault>)
    requires
        can_denominate(tx.data),
        *amount == denominated(tx.data).amount,
    ensures
        (r == Some(BondFault::NoToken)) == !balances@.contains_key(token@),
        (r == Some(BondFault::NoBalance)) == (balances@.contains_key(token@)
            && !balances@[token@].contains_key(tx.data.source)),
        (r is Some && r->0 is InsufficientBalance) == (balances@.contains_key(token@)
            && balances@[token@].contains_key(tx.data.source) && worth_less(
            balances@[token@][tx.data.source],
            *amount,
        )),
        r matches Some(BondFault::InsufficientBalance(got)) ==> got
            == balances@[token@][tx.data.source],
        r matches Some(f) ==> f is NoToken || f is NoBalance || f is InsufficientBalance,
{
    match balances.get(token) {
        Some(token_balances) => match token_balances.amounts.get(&tx.data.source) {
            Some(balance) => if balance.less_than(amount) {
                Some(BondFault::InsufficientBalance(*balance))
            } else {
                None
            },
            None => Some(BondFault::NoBalance),
        },
        None => Some(BondFault::NoToken),
    }
}

/// Adds what is wrong with the bond at `i`, and deducts its amount from the balance of
/// its source.
fn push_bond_faults(
    faults: &mut Vec<Fault>,
    i: usize,
    tx: &SignedBondTx<Unvalidated>,
    balances: &mut Table<Alias, TokenBalancesForValidation>,
    established_accounts: &Table<Address, AccountKeys>,
    validator_accounts: &Table<Address, PublicKey>,
    token: &Alias,
    verdicts: &Verdicts,
)
    requires
        deduction_fits(*tx, old(balances)@, token@),
    ensures
        forall|x: Fault| #[trigger]
            final(faults)@.contains(x) <==> old(faults)@.contains(x) || (x matches Fault::Bond(j, f)
                && j == i && has_bond_fault(
                *tx,
                old(balances)@,
                established_accounts@,
                validator_accounts@,
                token@,
                verdicts@,
                f,
            )),
        final(balances)@ == after_bond(*tx, old(balances)@, token@),
{
    let ghost start = balances@;
    match signature_fault(
        tx,
        established_accounts,
        validator_accounts,
        verdicts,
        Ghost(start),
        Ghost(token@),
    ) {
        Some(f) => {
            push_if(faults, true, Fault::Bond(i, f));
        },
        None => {},
    }
    match tx.data.denominate() {
        Ok(bond) => {
            let known: bool = validator_accounts.contains_key(&bond.validator);
            push_if(faults, !known, Fault::Bond(i, BondFault::UnknownValidator));
            match balance_fault(tx, balances, token, &bond.amount) {
                Some(f) => {
                    push_if(faults, true, Fault::Bond(i, f));
                },
                None => {},
            }
            let _ = pay(balances, token, &bond.source, &bond.amount);
        },
        Err(e) => {
            push_if(faults, true, Fault::Bond(i, BondFault::Amount(e)));
        },
    }
}

/// Adds what is wrong with the established accounts, and records the accounts.
fn push_all_established_faults(
    faults: &mut Vec<Fault>,
    txs: &Vec<EstablishedAccountTx>,
    vps: Option<&ValidityPredicates>,
    addresses: &AddressBook,
    all_used_addresses: &mut Table<Address, ()>,
    established_accounts: &mut Table<Address, AccountKeys>,
)
    requires
        accounts_known(txs@, addresses@),
        old(all_used_addresses)@ == Map::<Address, ()>::empty(),
        old(established_accounts)@ == Map::<Address, AccountKeysView>::empty(),
    ensures
        forall|x: Fault| #[trigger]
            final(faults)@.contains(x) <==> old(faults)@.contains(x) || (x matches Fault::Established(
                j,
                f,
            ) && j < txs@.len() && has_established_fault(
                txs@[j as int],
                established_taken(txs@, j as int, addresses@),
                vps,
                f,
            )),
        forall|a: Address| #[trigger]
            final(all_used_addresses)@.contains_key(a) <==> addresses_of(
                txs@,
                addresses@,
            ).contains(a),
        final(established_accounts)@ == established_keys(txs@, addresses@),
{
    let ghost addrs = addresses_of(txs@, addresses@);
    let ghost before = faults@;
    let mut i: usize = 0;
    assert(txs@.take(0) =~= Seq::empty());
    while i < txs.len()
        invariant
            i <= txs@.len(),
            addrs == addresses_of(txs@, addresses@),
            accounts_known(txs@, addresses@),
            forall|x: Fault| #[trigger]
                faults@.contains(x) <==> before.contains(x) || (x matches Fault::Established(j, f)
                    && j < i && has_established_fault(
                    txs@[j as int],
                    established_taken(txs@, j as int, addresses@),
                    vps,
                    f,
                )),
            forall|a: Address| #[trigger]
                all_used_addresses@.contains_key(a) <==> addrs.take(i as int).contains(a),
            established_accounts@ == established_keys(txs@.take(i as int), addresses@),
        decreases txs@.len() - i,
    {
        let ghost address = addrs[i as int];
        let ghost used = all_used_addresses@;
        assert(txs@[i as int].fits());
        assert(txs@.take(i + 1).drop_last() =~= txs@.take(i as int));
        assert(addrs.take(i + 1) =~= addrs.take(i as int).push(address));
        let taken: bool = all_used_addresses.contains_key(&txs[i].derive_address(addresses));
        push_established_faults(faults, i, &txs[i], taken, vps);
        let _ = validate_established_account(
            &txs[i],
            vps,
            addresses,
            all_used_addresses,
            established_accounts,
        );
        assert forall|a: Address| #[trigger]
            all_used_addresses@.contains_key(a) <==> addrs.take(i + 1).contains(a) by {
            lemma_push_contains(addrs.take(i as int), address, a);
            assert(used.contains_key(a) <==> addrs.take(i as int).contains(a));
        }
        i = i + 1;
    }
    assert(txs@.take(i as int) =~= txs@);
    assert(addrs.take(i as int) =~= addrs);
}

/// Adds what is wrong with the validator accounts, and records the accounts.
fn push_all_validator_faults(
    faults: &mut Vec<Fault>,
    txs: &Vec<SignedValidatorAccountTx>,
    vps: Option<&ValidityPredicates>,
    addresses: &AddressBook,
    verdicts: &Verdicts,
    Ghost(established): Ghost<Seq<EstablishedAccountTx>>,
    all_used_addresses: &mut Table<Address, ()>,
    validator_accounts: &mut Table<Address, PublicKey>,
)
    requires
        accounts_known(unsigned_accounts(txs@), addresses@),
        forall|a: Address| #[trigger]
            old(all_used_addresses)@.contains_key(a) <==> addresses_of(
                established,
                addresses@,
            ).contains(a),
        old(validator_accounts)@ == Map::<Address, PublicKey>::empty(),
    ensures
        forall|x: Fault| #[trigger]
            final(faults)@.contains(x) <==> old(faults)@.contains(x) || (x matches Fault::Validator(
                j,
                f,
            ) && j < txs@.len() && has_validator_fault(
                txs@[j as int],
                validator_taken(established, txs@, j as int, addresses@),
                vps,
                verdicts@,
                f,
            )),
        final(validator_accounts)@ == validator_keys(txs@, addresses@),
{
    let ghost first = addresses_of(established, addresses@);
    let ghost addrs = addresses_of(unsigned_accounts(txs@), addresses@);
    let ghost before = faults@;
    let mut i: usize = 0;
    assert(txs@.take(0) =~= Seq::empty());
    assert(first + addrs.take(0) =~= first);
    while i < txs.len()
        invariant
            i <= txs@.len(),
            first == addresses_of(established, addresses@),
            addrs == addresses_of(unsigned_accounts(txs@), addresses@),
            accounts_known(unsigned_accounts(txs@), addresses@),
            forall|x: Fault| #[trigger]
                faults@.contains(x) <==> before.contains(x) || (x matches Fault::Validator(j, f)
                    && j < i && has_validator_fault(
                    txs@[j as int],
                    validator_taken(established, txs@, j as int, addresses@),
                    vps,
                    verdicts@,
                    f,
                )),
            forall|a: Address| #[trigger]
                all_used_addresses@.contains_key(a) <==> (first + addrs.take(i as int)).contains(a),
            validator_accounts@ == validator_keys(txs@.take(i as int), addresses@),
        decreases txs@.len() - i,
    {
        let ghost address = addrs[i as int];
        let ghost so_far = first + addrs.take(i as int);
        let ghost used = all_used_addresses@;
        assert(unsigned_accounts(txs@)[i as int].fits());
        assert(txs@.take(i + 1).drop_last() =~= txs@.take(i as int));
        assert(first + addrs.take(i + 1) =~= so_far.push(address));
        let unsigned: UnsignedValidatorAccountTx = UnsignedValidatorAccountTx::from(&txs[i]);
        let taken: bool = all_used_addresses.contains_key(&unsigned.derive_address(addresses));
        push_validator_faults(faults, i, &txs[i], taken, vps, verdicts);
        let _ = validate_validator_account(
            &txs[i],
            vps,
            addresses,
            verdicts,
            all_used_addresses,
            validator_accounts,
        );
        assert forall|a: Address| #[trigger]
            all_used_addresses@.contains_key(a) <==> (first + addrs.take(i + 1)).contains(a) by {
            lemma_push_contains(so_far, address, a);
            assert(used.contains_key(a) <==> so_far.contains(a));
        }
        i = i + 1;
    }
    assert(txs@.take(i as int) =~= txs@);
}

/// Adds what is wrong with the bond at `i`, given the balances that the bonds before it
/// left.
fn push_nth_bond_faults(
    faults: &mut Vec<Fault>,
    i: usize,
    tx: &SignedBondTx<Unvalidated>,
    balances: &mut Table<Alias, TokenBalancesForValidation>,
    established_accounts: &Table<Address, AccountKeys>,
    validator_accounts: &Table<Address, PublicKey>,
    token: &Alias,
    verdicts: &Verdicts,
    Ghost(txs): Ghost<Seq<SignedBondTx<Unvalidated>>>,
    Ghost(start): Ghost<BalancesView>,
)
    requires
        i < txs.len(),
        *tx == txs[i as int],
        deductions_fit(txs, start, token@),
        old(balances)@ == after_bonds(txs.take(i as int), start, token@),
    ensures
        forall|x: Fault| #[trigger]
            final(faults)@.contains(x) <==> old(faults)@.contains(x) || (x matches Fault::Bond(j, f)
                && j == i && has_nth_bond_fault(
                txs,
                j as int,
                start,
                established_accounts@,
                validator_accounts@,
                token@,
                verdicts@,
                f,
            )),
        final(balances)@ == after_bonds(txs.take(i + 1), start, token@),
{
    proof {
        assert(deduction_fits(
            txs[i as int],
            after_bonds(txs.take(i as int), start, token@),
            token@,
        ));
        assert(txs.take(i + 1).drop_last() =~= txs.take(i as int));
    }
    push_bond_faults(
        faults,
        i,
        tx,
        balances,
        established_accounts,
        validator_accounts,
        token,
        verdicts,
    );
}

/// Adds what is wrong with the bonds.
fn push_all_bond_faults(
    faults: &mut Vec<Fault>,
    txs: &Vec<SignedBondTx<Unvalidated>>,
    balances: Option<&DenominatedBalances>,
    established_accounts: &Table<Address, AccountKeys>,
    validator_accounts: &Table<Address, PublicKey>,
    token: &Alias,
    verdicts: &Verdicts,
)
    requires
        deductions_fit(txs@, initial_balances(balances), token@),
    ensures
        forall|x: Fault| #[trigger]
            final(faults)@.contains(x) <==> old(faults)@.contains(x) || (x matches Fault::Bond(j, f)
                && j < txs@.len() && has_nth_bond_fault(
                txs@,
                j as int,
                initial_balances(balances),
                established_accounts@,
                validator_accounts@,
                token@,
                verdicts@,
                f,
            )),
{
    let ghost start = initial_balances(balances);
    let ghost before = faults@;
    let mut token_balances: Table<Alias, TokenBalancesForValidation> = copy_balances(balances);
    let mut i: usize = 0;
    assert(txs@.take(0) =~= Seq::empty());
    while i < txs.len()
        invariant
            i <= txs@.len(),
            deductions_fit(txs@, start, token@),
            token_balances@ == after_bonds(txs@.take(i as int), start, token@),
            forall|x: Fault| #[trigger]
                faults@.contains(x) <==> before.contains(x) || (x matches Fault::Bond(j, f) && j < i
                    && has_nth_bond_fault(
                    txs@,
                    j as int,
                    start,
                    established_accounts@,
                    validator_accounts@,
                    token@,
                    verdicts@,
                    f,
                )),
        decreases txs@.len() - i,
    {
        push_nth_bond_faults(
            faults,
            i,
            &txs[i],
            &mut token_balances,
            established_accounts,
            validator_accounts,
            token,
            verdicts,
            Ghost(txs@),
            Ghost(start),
        );
        i = i + 1;
    }
}

/// Whether the fault is one of an account that the transactions have.
spec fn has_account_fault(
    established: Seq<EstablishedAccountTx>,
    validators: Seq<SignedValidatorAccountTx>,
    vps: Option<&ValidityPredicates>,
    addresses: Map<DerivationView, EstablishedAddress>,
    verdicts: Map<SignatureCheckView, bool>,
    fault: Fault,
) -> bool {
    match fault {
        Fault::Established(i, f) => i < established.len() && has_established_fault(
            established[i as int],
            established_taken(established, i as int, addresses),
            vps,
            f,
        ),
        Fault::Validator(i, f) => i < validators.len() && has_validator_fault(
            validators[i as int],
            validator_taken(established, validators, i as int, addresses),
            vps,
            verdicts,
            f,
        ),
        _ => false,
    }
}

/// What is wrong with the accounts. They are recorded.
fn account_faults(
    established: &Option<Vec<EstablishedAccountTx>>,
    validators: &Option<Vec<SignedValidatorAccountTx>>,
    vps: Option<&ValidityPredicates>,
    addresses: &AddressBook,
    verdicts: &Verdicts,
    established_accounts: &mut Table<Address, AccountKeys>,
    validator_accounts: &mut Table<Address, PublicKey>,
) -> (r: Vec<Fault>)
    requires
        accounts_known(items(*established), addresses@),
        accounts_known(unsigned_accounts(items(*validators)), addresses@),
        old(established_accounts)@ == Map::<Address, AccountKeysView>::empty(),
        old(validator_accounts)@ == Map::<Address, PublicKey>::empty(),
    ensures
        forall|x: Fault| #[trigger]
            r@.contains(x) <==> has_account_fault(
                items(*established),
                items(*validators),
                vps,
                addresses@,
                verdicts@,
                x,
            ),
        final(established_accounts)@ == established_keys(items(*established), addresses@),
        final(validator_accounts)@ == validator_keys(items(*validators), addresses@),
{
    let ghost first = items(*established);
    let mut all_used_addresses: Table<Address, ()> = Table::new();
    let mut faults: Vec<Fault> = Vec::new();
    match established {
        Some(txs) => push_all_established_faults(
            &mut faults,
            txs,
            vps,
            addresses,
            &mut all_used_addresses,
            established_accounts,
        ),
        None => {},
    }
    match validators {
        Some(txs) => push_all_validator_faults(
            &mut faults,
            txs,
            vps,
            addresses,
            verdicts,
            Ghost(first),
            &mut all_used_addresses,
            validator_accounts,
        ),
        None => {},
    }
    faults
}

/// Everything that is wrong with genesis transactions. Nothing is, exactly where
/// `validate` accepts them.
pub fn find_faults(
    transactions: &Transactions<Unvalidated>,
    vps: Option<&ValidityPredicates>,
    balances: Option<&DenominatedBalances>,
    parameters: Option<&Parameters>,
    addresses: &AddressBook,
    verdicts: &Verdicts,
) -> (r: Vec<Fault>)
    requires
        accounts_known(items(transactions.established_account), addresses@),
        accounts_known(unsigned_accounts(items(transactions.validator_account)), addresses@),
        parameters matches Some(parameters) ==> deductions_fit(
            items(transactions.bond),
            initial_balances(balances),
            parameters.native_token@,
        ),
    ensures
        forall|x: Fault| #[trigger]
            r@.contains(x) <==> has_fault(
                *transactions,
                vps,
                balances,
                parameters,
                addresses@,
                verdicts@,
                x,
            ),
        r@.len() == 0 <==> transactions_valid(
            *transactions,
            vps,
            balances,
            parameters,
            addresses@,
            verdicts@,
        ),
{
    let faults: Vec<Fault> = collect_faults(
        transactions,
        vps,
        balances,
        parameters,
        addresses,
        verdicts,
    );
    proof {
        law_no_faults_iff_valid(
            *transactions,
            vps,
            balances,
            parameters,
            addresses@,
            verdicts@,
        );
        if faults@.len() > 0 {
            assert(faults@.contains(faults@[0]));
        } else {
            assert forall|x: Fault| !(#[trigger] has_fault(
                *transactions,
                vps,
                balances,
                parameters,
                addresses@,
                verdicts@,
                x,
            )) by {
                assert(!faults@.contains(x));
            }
        }
    }
    faults
}

/// Everything that is wrong with genesis transactions.
fn collect_faults(
    transactions: &Transactions<Unvalidated>,
    vps: Option<&ValidityPredicates>,
    balances: Option<&DenominatedBalances>,
    parameters: Option<&Parameters>,
    addresses: &AddressBook,
    verdicts: &Verdicts,
) -> (r: Vec<Fault>)
    requires
        accounts_known(items(transactions.established_account), addresses@),
        accounts_known(unsigned_accounts(items(transactions.validator_account)), addresses@),
        parameters matches Some(parameters) ==> deductions_fit(
            items(transactions.bond),
            initial_balances(balances),
            parameters.native_token@,
        ),
    ensures
        forall|x: Fault| #[trigger]
            r@.contains(x) <==> has_fault(
                *transactions,
                vps,
                balances,
                parameters,
                addresses@,
                verdicts@,
                x,
            ),
{
    let mut established_accounts: Table<Address, AccountKeys> = Table::new();
    let mut validator_accounts: Table<Address, PublicKey> = Table::new();
    let mut faults: Vec<Fault> = account_faults(
        &transactions.established_account,
        &transactions.validator_account,
        vps,
        addresses,
        verdicts,
        &mut established_accounts,
        &mut validator_accounts,
    );
    match &transactions.bond {
        Some(txs) => match parameters {
            Some(parameters) => push_all_bond_faults(
                &mut faults,
                txs,
                balances,
                &established_accounts,
                &validator_accounts,
                &parameters.native_token,
                verdicts,
            ),
            None => push_if(&mut faults, txs.len() > 0, Fault::MissingParameters),
        },
        None => {},
    }
    faults
}

/// Transactions are valid exactly where nothing is wrong with them.
pub proof fn law_no_faults_iff_valid(
    txs: Transactions<Unvalidated>,
    vps: Option<&ValidityPredicates>,
    balances: Option<&DenominatedBalances>,
    parameters: Option<&Parameters>,
    addresses: Map<DerivationView, EstablishedAddress>,
    verdicts: Map<SignatureCheckView, bool>,
)
    ensures
        transactions_valid(txs, vps, balances, parameters, addresses, verdicts) <==> forall|x: Fault|
            !(#[trigger] has_fault(txs, vps, balances, parameters, addresses, verdicts, x)),
{
    let established = items(txs.established_account);
    let validators = items(txs.validator_account);
    let bonds = items(txs.bond);
    let first = addresses_of(established, addresses);
    let second = addresses_of(unsigned_accounts(validators), addresses);
    let all = first + second;
    lemma_indices_fit(txs.established_account);
    lemma_indices_fit(txs.validator_account);
    lemma_indices_fit(txs.bond);
    if transactions_valid(txs, vps, balances, parameters, addresses, verdicts) {
        assert forall|x: Fault| !(#[trigger] has_fault(
            txs,
            vps,
            balances,
            parameters,
            addresses,
            verdicts,
            x,
        )) by {
            match x {
                Fault::Established(i, f) => if i < established.len() {
                    assert(established_account_ok(established[i as int], vps));
                    let before = first.take(i as int);
                    if before.contains(first[i as int]) {
                        let j = before.index_of(first[i as int]);
                        assert(all[j] == all[i as int]);
                    }
                },
                Fault::Validator(i, f) => if i < validators.len() {
                    assert(validator_account_ok(validators[i as int], vps, verdicts));
                    let before = first + second.take(i as int);
                    let n = first.len() + i;
                    if before.contains(second[i as int]) {
                        let j = before.index_of(second[i as int]);
                        assert(all[j] == all[n as int]);
                    }
                },
                Fault::MissingParameters => {},
                Fault::Bond(i, f) => if i < bonds.len() && parameters is Some {
                    let token = parameters->0.native_token@;
                    assert(bond_valid(
                        bonds[i as int],
                        after_bonds(bonds.take(i as int), initial_balances(balances), token),
                        established_keys(established, addresses),
                        validator_keys(validators, addresses),
                        token,
                        verdicts,
                    ));
                },
            }
        }
    }
    if forall|x: Fault|
        !(#[trigger] has_fault(txs, vps, balances, parameters, addresses, verdicts, x)) {
        assert forall|i: int| 0 <= i < established.len() implies established_account_ok(
            #[trigger] established[i],
            vps,
        ) && !established_taken(established, i, addresses) by {
            let n = i as usize;
            assert(!has_fault(
                txs,
                vps,
                balances,
                parameters,
                addresses,
                verdicts,
                Fault::Established(n, EstablishedFault::ZeroThreshold),
            ));
            assert(!has_fault(
                txs,
                vps,
                balances,
                parameters,
                addresses,
                verdicts,
                Fault::Established(n, EstablishedFault::DuplicateAddress),
            ));
            assert(!has_fault(
                txs,
                vps,
                balances,
                parameters,
                addresses,
                verdicts,
                Fault::Established(n, EstablishedFault::UnknownVp),
            ));
            assert(!has_fault(
                txs,
                vps,
                balances,
                parameters,
                addresses,
                verdicts,
                Fault::Established(n, EstablishedFault::NoPublicKeys),
            ));
        }
        assert forall|i: int| 0 <= i < validators.len() implies validator_account_ok(
            #[trigger] validators[i],
            vps,
            verdicts,
        ) && !validator_taken(established, validators, i, addresses) by {
            lemma_no_validator_faults(
                txs,
                vps,
                balances,
                parameters,
                addresses,
                verdicts,
                i as usize,
            );
        }
        assert forall|i: int, j: int| 0 <= i < j < all.len() implies all[i] != all[j] by {
            if j < first.len() {
                assert(!established_taken(established, j, addresses)) by {
                    assert(established_account_ok(established[j], vps));
                }
                assert(first.take(j)[i] == all[i]);
            } else {
                let k = j - first.len();
                assert(!validator_taken(established, validators, k, addresses)) by {
                    assert(validator_account_ok(validators[k], vps, verdicts));
                }
                assert((first + second.take(k))[i] == all[i]);
                assert(all[j] == second[k]);
            }
        }
        assert(all.no_duplicates());
        assert(accounts_valid(established, validators, vps, addresses, verdicts));
        if bonds.len() > 0 {
            assert(!has_fault(
                txs,
                vps,
                balances,
                parameters,
                addresses,
                verdicts,
                Fault::MissingParameters,
            ));
            let token = parameters->0.native_token@;
            let start = initial_balances(balances);
            let est = established_keys(established, addresses);
            let val = validator_keys(validators, addresses);
            assert forall|i: int| 0 <= i < bonds.len() implies bond_valid(
                #[trigger] bonds[i],
                after_bonds(bonds.take(i), start, token),
                est,
                val,
                token,
                verdicts,
            ) by {
                assert forall|f: BondFault| !(#[trigger] has_nth_bond_fault(
                    bonds,
                    i,
                    start,
                    est,
                    val,
                    token,
                    verdicts,
                    f,
                )) by {
                    assert(!has_fault(
                        txs,
                        vps,
                        balances,
                        parameters,
                        addresses,
                        verdicts,
                        Fault::Bond(i as usize, f),
                    ));
                }
                lemma_no_bond_faults(bonds, i, start, est, val, token, verdicts);
            }
            assert(bonds_valid(bonds, start, est, val, token, verdicts));
        }
    }
}

/// The positions in a list are machine numbers.
proof fn lemma_indices_fit<A>(list: Option<Vec<A>>)
    ensures
        items(list).len() <= usize::MAX,
{
    if let Some(v) = list {
        assert(v.len() == v@.len());
    }
}

/// A validator account without faults is valid.
proof fn lemma_no_validator_faults(
    txs: Transactions<Unvalidated>,
    vps: Option<&ValidityPredicates>,
    balances: Option<&DenominatedBalances>,
    parameters: Option<&Parameters>,
    addresses: Map<DerivationView, EstablishedAddress>,
    verdicts: Map<SignatureCheckView, bool>,
    i: usize,
)
    requires
        forall|x: Fault|
            !(#[trigger] has_fault(txs, vps, balances, parameters, addresses, verdicts, x)),
        i < items(txs.validator_account).len(),
    ensures
        validator_account_ok(items(txs.validator_account)[i as int], vps, verdicts),
        !validator_taken(
            items(txs.established_account),
            items(txs.validator_account),
            i as int,
            addresses,
        ),
{
    let tx = items(txs.validator_account)[i as int];
    let taken = validator_taken(
        items(txs.established_account),
        items(txs.validator_account),
        i as int,
        addresses,
    );
    assert forall|f: ValidatorFault| !(#[trigger] has_validator_fault(
        tx,
        taken,
        vps,
        verdicts,
        f,
    )) by {
        assert(!has_fault(
            txs,
            vps,
            balances,
            parameters,
            addresses,
            verdicts,
            Fault::Validator(i, f),
        ));
    }
    assert(!has_validator_fault(tx, taken, vps, verdicts, ValidatorFault::DuplicateAddress));
    assert(!has_validator_fault(tx, taken, vps, verdicts, ValidatorFault::UnknownVp));
    assert(!has_validator_fault(tx, taken, vps, verdicts, ValidatorFault::CommissionRate));
    assert forall|key: ValidatorKey| key_authorized(
        #[trigger] key_of(tx, key),
        without_authorizations(tx).encoding(),
        verdicts,
    ) by {
        let f = ValidatorFault::Unauthorized(key);
        assert(!has_validator_fault(tx, taken, vps, verdicts, f));
    }
    assert(key_of(tx, ValidatorKey::Account) == tx.account_key);
    assert(key_of(tx, ValidatorKey::Consensus) == tx.consensus_key);
    assert(key_of(tx, ValidatorKey::Protocol) == tx.protocol_key);
    assert(key_of(tx, ValidatorKey::TendermintNode) == tx.tendermint_node_key);
    assert(key_of(tx, ValidatorKey::EthHot) == tx.eth_hot_key);
    assert(key_of(tx, ValidatorKey::EthCold) == tx.eth_cold_key);
}

/// A bond without faults is valid.
proof fn lemma_no_bond_faults(
    txs: Seq<SignedBondTx<Unvalidated>>,
    i: int,
    balances: BalancesView,
    established_accounts: Map<Address, AccountKeysView>,
    validator_accounts: Map<Address, PublicKey>,
    token: Seq<char>,
    verdicts: Map<SignatureCheckView, bool>,
)
    requires
        forall|f: BondFault|
            !(#[trigger] has_nth_bond_fault(
                txs,
                i,
                balances,
                established_accounts,
                validator_accounts,
                token,
                verdicts,
                f,
            )),
    ensures
        bond_valid(
            txs[i],
            after_bonds(txs.take(i), balances, token),
            established_accounts,
            validator_accounts,
            token,
            verdicts,
        ),
{
    let (est, val) = (established_accounts, validator_accounts);
    let f = BondFault::UnknownSource;
    assert(!has_nth_bond_fault(txs, i, balances, est, val, token, verdicts, f));
    let f = BondFault::InvalidSignature;
    assert(!has_nth_bond_fault(txs, i, balances, est, val, token, verdicts, f));
    let f = BondFault::Amount(AmountError::PrecisionDecrease);
    assert(!has_nth_bond_fault(txs, i, balances, est, val, token, verdicts, f));
    let f = BondFault::Amount(AmountError::PrecisionOverflow);
    assert(!has_nth_bond_fault(txs, i, balances, est, val, token, verdicts, f));
    let f = BondFault::UnknownValidator;
    assert(!has_nth_bond_fault(txs, i, balances, est, val, token, verdicts, f));
    let f = BondFault::NoToken;
    assert(!has_nth_bond_fault(txs, i, balances, est, val, token, verdicts, f));
    let f = BondFault::NoBalance;
    assert(!has_nth_bond_fault(txs, i, balances, est, val, token, verdicts, f));
    let got = after_bonds(txs.take(i), balances, token)[token][txs[i].data.source];
    let f = BondFault::InsufficientBalance(got);
    assert(!has_nth_bond_fault(txs, i, balances, est, val, token, verdicts, f));
}

} // verus!
