//! Validation of genesis transactions.

use crate::account_validation::{
    accounts_valid, addresses_of, established_keys, unsigned_accounts,
    validate_established_accounts, validate_validator_accounts, validator_keys, AccountKeys,
};
use crate::address::{Address, EstablishedAddress};
use crate::answers::{AddressBook, DerivationView, SignatureCheckView, Verdicts};
use crate::bond::BondTx;
use crate::bond_validation::{
    bonds_valid, copy_balances, deductions_fit, denominated_bonds, initial_balances, validate_bonds,
    TokenBalancesForValidation,
};
use crate::keys::PublicKey;
use crate::signing::accounts_known;
use crate::table::Table;
use crate::templates::{
    Alias, DenominatedBalances, Parameters, Unvalidated, Validated, ValidityPredicates,
};
use crate::transactions::{contents, items, Transactions};
use vstd::prelude::*;

verus! {

/// Whether genesis transactions are valid.
pub open spec fn transactions_valid(
    txs: Transactions<Unvalidated>,
    vps: Option<&ValidityPredicates>,
    balances: Option<&DenominatedBalances>,
    parameters: Option<&Parameters>,
    addresses: Map<DerivationView, EstablishedAddress>,
    verdicts: Map<SignatureCheckView, bool>,
) -> bool {
    &&& accounts_valid(
        items(txs.established_account),
        items(txs.validator_account),
        vps,
        addresses,
        verdicts,
    )
    &&& items(txs.bond).len() > 0 ==> (parameters matches Some(parameters) && bonds_valid(
        items(txs.bond),
        initial_balances(balances),
        established_keys(items(txs.established_account), addresses),
        validator_keys(items(txs.validator_account), addresses),
        parameters.native_token@,
        verdicts,
    ))
}

/// Whether `validated` are the transactions with denominated bonds, if there are any
/// bonds.
pub open spec fn is_validated(
    validated: Transactions<Validated>,
    txs: Transactions<Unvalidated>,
) -> bool {
    &&& validated.established_account == txs.established_account
    &&& validated.validator_account == txs.validator_account
    &&& contents(validated.bond) == if items(txs.bond).len() > 0 {
        Some(denominated_bonds(items(txs.bond)))
    } else {
        None
    }
}

/// Validate genesis transactions against the other templates.
pub fn validate(
    transactions: Transactions<Unvalidated>,
    vps: Option<&ValidityPredicates>,
    balances: Option<&DenominatedBalances>,
    parameters: Option<&Parameters>,
    addresses: &AddressBook,
    verdicts: &Verdicts,
) -> (r: Option<Transactions<Validated>>)
    requires
        accounts_known(items(transactions.established_account), addresses@),
        accounts_known(unsigned_accounts(items(transactions.validator_account)), addresses@),
        parameters matches Some(parameters) ==> deductions_fit(
            items(transactions.bond),
            initial_balances(balances),
            parameters.native_token@,
        ),
    ensures
        r is Some <==> transactions_valid(
            transactions,
            vps,
            balances,
            parameters,
            addresses@,
            verdicts@,
        ),
        r matches Some(txs) ==> is_validated(txs, transactions),
{
    let mut is_valid: bool = true;
    let mut all_used_addresses: Table<Address, ()> = Table::new();
    let mut established_accounts: Table<Address, AccountKeys> = Table::new();
    let mut validator_accounts: Table<Address, PublicKey> = Table::new();
    let ghost established = items(transactions.established_account);
    let ghost validators = items(transactions.validator_account);
    let ghost taken = addresses_of(established, addresses@);
    let ghost others = addresses_of(unsigned_accounts(validators), addresses@);

    match &transactions.established_account {
        Some(txs) => {
            if !validate_established_accounts(
                txs,
                vps,
                addresses,
                &mut all_used_addresses,
                &mut established_accounts,
            ) {
                is_valid = false;
            }
        },
        None => {},
    }
    match &transactions.validator_account {
        Some(txs) => {
            if !validate_validator_accounts(
                txs,
                vps,
                addresses,
                verdicts,
                Ghost(taken),
                &mut all_used_addresses,
                &mut validator_accounts,
            ) {
                is_valid = false;
            }
        },
        None => {
            assert(taken + others =~= taken);
        },
    }
    proof {
        if (taken + others).no_duplicates() {
            assert forall|i: int, j: int|
                0 <= i < taken.len() && 0 <= j < taken.len() && i != j implies taken[i]
                != taken[j] by {
                assert((taken + others)[i] != (taken + others)[j]);
            }
        }
        assert(is_valid == accounts_valid(established, validators, vps, addresses@, verdicts@));
    }

    // A copy of the balances for tracking changes applied from txs
    let mut token_balances: Table<Alias, TokenBalancesForValidation> = copy_balances(balances);
    let validated_bonds: Option<Vec<BondTx<Validated>>> = match transactions.bond {
        Some(txs) => {
            if txs.len() > 0 {
                match parameters {
                    Some(parameters) => {
                        let bonds = validate_bonds(
                            txs,
                            &mut token_balances,
                            &established_accounts,
                            &validator_accounts,
                            parameters,
                            verdicts,
                        );
                        if bonds.is_none() {
                            is_valid = false;
                        }
                        bonds
                    },
                    None => {
                        is_valid = false;
                        None
                    },
                }
            } else {
                None
            }
        },
        None => None,
    };
    if is_valid {
        Some(
            Transactions {
                established_account: transactions.established_account,
                validator_account: transactions.validator_account,
                bond: validated_bonds,
            },
        )
    } else {
        None
    }
}

} // verus!
