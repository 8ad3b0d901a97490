//! The questions that validation puts about signatures.

use crate::account::{
    without_authorizations, SignedPk, SignedValidatorAccountTx, UnsignedValidatorAccountTx,
};
use crate::account_validation::{
    addresses_of, established_keys, unsigned_accounts, validate_established_accounts,
    validate_validator_accounts, validator_keys, AccountKeys, AccountKeysView,
};
use crate::address::{Address, EstablishedAddress};
use crate::answers::{
    asks, lemma_asks_concat, AddressBook, DerivationView, SignatureCheck, SignatureCheckView,
};
use crate::bond::{bond_message, is_check_of, SignedBondTx};
use crate::bond_validation::{look_up_source, source_keys};
use crate::codec::Encode;
use crate::keys::PublicKey;
use crate::signing::accounts_known;
use crate::table::Table;
use crate::templates::Unvalidated;
use crate::transactions::{items, Transactions};
use vstd::prelude::*;

verus! {

/// The question for the authorization of `key` by its signature on `message`.
pub open spec fn authorization_check(key: SignedPk, message: Seq<u8>) -> SignatureCheckView {
    SignatureCheckView { message, key: key.pk.raw, signature: key.authorization.raw }
}

/// Whether `c` asks for the authorization of one of the keys of a validator.
pub open spec fn is_authorization_check(
    tx: SignedValidatorAccountTx,
    c: SignatureCheckView,
) -> bool {
    let message = without_authorizations(tx).encoding();
    ||| c == authorization_check(tx.account_key, message)
    ||| c == authorization_check(tx.consensus_key, message)
    ||| c == authorization_check(tx.protocol_key, message)
    ||| c == authorization_check(tx.tendermint_node_key, message)
    ||| c == authorization_check(tx.eth_hot_key, message)
    ||| c == authorization_check(tx.eth_cold_key, message)
}

/// Whether `c` asks if one of the keys of the source has signed the bond.
pub open spec fn is_bond_check(
    tx: SignedBondTx<Unvalidated>,
    established_accounts: Map<Address, AccountKeysView>,
    validator_accounts: Map<Address, PublicKey>,
    c: SignatureCheckView,
) -> bool {
    &&& source_keys(tx.data.source, established_accounts, validator_accounts) matches Some(keys)
    &&& is_check_of(
        bond_message(tx.data.source, tx.data.validator, tx.data.amount),
        keys.public_keys,
        tx.signatures@,
        c,
    )
}

/// Whether `c` is a question that the validity of the transactions depends on.
pub open spec fn is_validation_check(
    txs: Transactions<Unvalidated>,
    addresses: Map<DerivationView, EstablishedAddress>,
    c: SignatureCheckView,
) -> bool {
    ||| exists|i: int|
        0 <= i < items(txs.validator_account).len() && is_authorization_check(
            #[trigger] items(txs.validator_account)[i],
            c,
        )
    ||| exists|i: int|
        0 <= i < items(txs.bond).len() && is_bond_check(
            #[trigger] items(txs.bond)[i],
            established_keys(items(txs.established_account), addresses),
            validator_keys(items(txs.validator_account), addresses),
            c,
        )
}

/// What has to be known of the signatures to tell whether the keys of a validator
/// are authorized.
fn authorization_checks(tx: &SignedValidatorAccountTx) -> (r: Vec<SignatureCheck>)
    requires
        without_authorizations(*tx).fits(),
    ensures
        forall|c: SignatureCheckView| #[trigger] asks(r@, c) <==> is_authorization_check(*tx, c),
{
    let unsigned: UnsignedValidatorAccountTx = UnsignedValidatorAccountTx::from(tx);
    let ghost message = unsigned.encoding();
    let keys: [SignedPk; 6] = [
        tx.account_key,
        tx.consensus_key,
        tx.protocol_key,
        tx.tendermint_node_key,
        tx.eth_hot_key,
        tx.eth_cold_key,
    ];
    let mut r: Vec<SignatureCheck> = Vec::new();
    let mut i: usize = 0;
    while i < 6
        invariant
            i <= 6,
            unsigned.fits(),
            message == unsigned.encoding(),
            r@.len() == i,
            forall|j: int|
                0 <= j < i ==> (#[trigger] r@[j])@ == authorization_check(keys@[j], message),
        decreases 6 - i,
    {
        r.push(
            SignatureCheck {
                message: unsigned.serialize_to_vec(),
                key: keys[i].pk.raw,
                signature: keys[i].authorization.raw,
            },
        );
        i = i + 1;
    }
    proof {
        assert(r@[0]@ == authorization_check(tx.account_key, message));
        assert(r@[1]@ == authorization_check(tx.consensus_key, message));
        assert(r@[2]@ == authorization_check(tx.protocol_key, message));
        assert(r@[3]@ == authorization_check(tx.tendermint_node_key, message));
        assert(r@[4]@ == authorization_check(tx.eth_hot_key, message));
        assert(r@[5]@ == authorization_check(tx.eth_cold_key, message));
    }
    r
}

/// What has to be known of the signatures to tell whether a bond is signed.
fn bond_checks(
    tx: &SignedBondTx<Unvalidated>,
    established_accounts: &Table<Address, AccountKeys>,
    validator_accounts: &Table<Address, PublicKey>,
) -> (r: Vec<SignatureCheck>)
    ensures
        forall|c: SignatureCheckView| #[trigger]
            asks(r@, c) <==> is_bond_check(*tx, established_accounts@, validator_accounts@, c),
{
    match look_up_source(&tx.data.source, established_accounts, validator_accounts) {
        Some((pks, _)) => tx.signature_checks(pks.as_slice()),
        None => Vec::new(),
    }
}

/// What has to be known of the signatures to tell whether the transactions are
/// valid.
pub fn signature_checks(transactions: &Transactions<Unvalidated>, addresses: &AddressBook) -> (r: Vec<
    SignatureCheck,
>)
    requires
        accounts_known(items(transactions.established_account), addresses@),
        accounts_known(unsigned_accounts(items(transactions.validator_account)), addresses@),
    ensures
        forall|c: SignatureCheckView| #[trigger]
            asks(r@, c) <==> is_validation_check(*transactions, addresses@, c),
{
    let ghost validators = items(transactions.validator_account);
    let ghost bonds = items(transactions.bond);
    let mut all_used_addresses: Table<Address, ()> = Table::new();
    let mut established_accounts: Table<Address, AccountKeys> = Table::new();
    let mut validator_accounts: Table<Address, PublicKey> = Table::new();
    let mut r: Vec<SignatureCheck> = Vec::new();
    let ghost taken = addresses_of(items(transactions.established_account), addresses@);
    match &transactions.established_account {
        Some(txs) => {
            let _ = validate_established_accounts(
                txs,
                None,
                addresses,
                &mut all_used_addresses,
                &mut established_accounts,
            );
        },
        None => {},
    }
    match &transactions.validator_account {
        Some(txs) => {
            let _ = validate_validator_accounts(
                txs,
                None,
                addresses,
                &Table::new(),
                Ghost(taken),
                &mut all_used_addresses,
                &mut validator_accounts,
            );
            let mut i: usize = 0;
            while i < txs.len()
                invariant
                    i <= txs@.len(),
                    txs@ == validators,
                    accounts_known(unsigned_accounts(validators), addresses@),
                    forall|c: SignatureCheckView| #[trigger]
                        asks(r@, c) <==> exists|j: int|
                            0 <= j < i && is_authorization_check(#[trigger] validators[j], c),
                decreases txs@.len() - i,
            {
                let ghost before = r@;
                assert(unsigned_accounts(validators)[i as int].fits());
                let mut more: Vec<SignatureCheck> = authorization_checks(&txs[i]);
                proof {
                    lemma_asks_concat(before, more@);
                }
                let ghost added = more@;
                r.append(&mut more);
                i = i + 1;
                assert forall|c: SignatureCheckView| #[trigger]
                    asks(r@, c) <==> exists|j: int|
                        0 <= j < i && is_authorization_check(#[trigger] validators[j], c) by {
                    assert(asks(r@, c) <==> asks(before, c) || asks(added, c));
                    if asks(added, c) {
                        assert(is_authorization_check(validators[i - 1], c));
                    }
                }
            }
        },
        None => {},
    }
    let ghost accounts_part = r@;
    match &transactions.bond {
        Some(txs) => {
            let mut i: usize = 0;
            while i < txs.len()
                invariant
                    i <= txs@.len(),
                    txs@ == bonds,
                    forall|c: SignatureCheckView| #[trigger]
                        asks(r@, c) <==> asks(accounts_part, c) || exists|j: int|
                            0 <= j < i && is_bond_check(
                                #[trigger] bonds[j],
                                established_accounts@,
                                validator_accounts@,
                                c,
                            ),
                decreases txs@.len() - i,
            {
                let ghost before = r@;
                let mut more: Vec<SignatureCheck> = bond_checks(
                    &txs[i],
                    &established_accounts,
                    &validator_accounts,
                );
                proof {
                    lemma_asks_concat(before, more@);
                }
                let ghost added = more@;
                r.append(&mut more);
                i = i + 1;
                assert forall|c: SignatureCheckView| #[trigger]
                    asks(r@, c) <==> asks(accounts_part, c) || exists|j: int|
                        0 <= j < i && is_bond_check(
                            #[trigger] bonds[j],
                            established_accounts@,
                            validator_accounts@,
                            c,
                        ) by {
                    assert(asks(r@, c) <==> asks(before, c) || asks(added, c));
                    if asks(added, c) {
                        assert(is_bond_check(
                            bonds[i - 1],
                            established_accounts@,
                            validator_accounts@,
                            c,
                        ));
                    }
                }
            }
        },
        None => {},
    }
    r
}

} // verus!
