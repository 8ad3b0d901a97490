//! Which questions are put, and what the faults that are told mean, in terms of the
//! fields of the transactions alone.

use crate::account::{without_authorizations, SignedPk, SignedValidatorAccountTx};
use crate::account_validation::{
    addresses_of, established_keys, unsigned_accounts, validator_keys, AccountKeysView,
};
use crate::address::{Address, EstablishedAddress, GenesisAddress, ImplicitAddress};
use crate::amount::AmountError;
use crate::answers::{
    address_of, answers_requests, asks, requests_signature, DerivationView, SignatureCheck,
    SignatureCheckView, SigningRequest, SigningRequestView,
};
use crate::bond::{bond_message, BondTx, SignedBondTx};
use crate::bond_laws::millionths;
use crate::bond_validation::{after_bonds, initial_balances, source_keys, BalancesView};
use crate::checks::{is_authorization_check, is_bond_check, is_validation_check};
use crate::codec::Encode;
use crate::faults::{
    has_bond_fault, has_fault, BondFault, EstablishedFault, Fault, ValidatorFault, ValidatorKey,
};
use crate::keys::{KeyPair, PublicKey, Signature, ValidatorWallet};
use crate::signing::{
    accounts_known, delegation_can_sign, delegations_can_sign, genesis_validator_account,
    genesis_validator_can_sign, has_genesis_address, is_delegation_request, is_delegations_request,
    is_genesis_validator_request, is_implicit_source, names_key, signing_keys, sources_have_keys,
    sources_known, GenesisValidatorData,
};
use crate::templates::{DenominatedBalances, Parameters, Unvalidated, ValidityPredicates};
use crate::transactions::{items, Transactions};
use crate::validity_laws::{is_authorized, law_every_signer_counts_once, signers};
use crate::value_laws::{
    law_amounts_are_fractions, law_denominated_in_millionths, law_rate_is_from_zero_to_one,
};
use vstd::arithmetic::power::pow;
use vstd::prelude::*;

verus! {

/// Which lists put a question, and which signatures answer all of one.
pub proof fn law_questions_in_a_list(
    checks: Seq<SignatureCheck>,
    c: SignatureCheckView,
    requests: Seq<SigningRequest>,
    q: SigningRequestView,
    signatures: Map<SigningRequestView, Signature>,
)
    ensures
        asks(checks, c) <==> checks.map_values(|x: SignatureCheck| x@).contains(c),
        requests_signature(requests, q) <==> requests.map_values(|x: SigningRequest| x@).contains(
            q,
        ),
        answers_requests(signatures, requests) <==> forall|i: int|
            0 <= i < requests.len() ==> signatures.contains_key((#[trigger] requests[i])@),
{
    let views = checks.map_values(|x: SignatureCheck| x@);
    if asks(checks, c) {
        let i = choose|i: int| 0 <= i < checks.len() && (#[trigger] checks[i])@ == c;
        assert(views[i] == c);
    }
    if views.contains(c) {
        assert(checks[views.index_of(c)]@ == c);
    }
    let views = requests.map_values(|x: SigningRequest| x@);
    if requests_signature(requests, q) {
        let i = choose|i: int| 0 <= i < requests.len() && (#[trigger] requests[i])@ == q;
        assert(views[i] == q);
    }
    if views.contains(q) {
        assert(requests[views.index_of(q)]@ == q);
    }
    if answers_requests(signatures, requests) {
        assert forall|i: int| 0 <= i < requests.len() implies signatures.contains_key(
            (#[trigger] requests[i])@,
        ) by {
            assert(requests_signature(requests, requests[i]@));
        }
    }
}

/// Whether `c` asks if `key` has signed the validator account.
pub open spec fn asks_for(
    tx: SignedValidatorAccountTx,
    key: SignedPk,
    c: SignatureCheckView,
) -> bool {
    &&& c.message == without_authorizations(tx).encoding()
    &&& c.key == key.pk.raw
    &&& c.signature == key.authorization.raw
}

/// The questions about a validator account are those for its six keys, and the
/// questions about a bond are those for each key of its source and each signature.
pub proof fn law_questions_about_signatures(
    v: SignedValidatorAccountTx,
    tx: SignedBondTx<Unvalidated>,
    established_accounts: Map<Address, AccountKeysView>,
    validator_accounts: Map<Address, PublicKey>,
    c: SignatureCheckView,
)
    ensures
        is_authorization_check(v, c) <==> asks_for(v, v.account_key, c) || asks_for(
            v,
            v.consensus_key,
            c,
        ) || asks_for(v, v.protocol_key, c) || asks_for(v, v.tendermint_node_key, c) || asks_for(
            v,
            v.eth_hot_key,
            c,
        ) || asks_for(v, v.eth_cold_key, c),
        is_bond_check(tx, established_accounts, validator_accounts, c) <==> {
            let keys = source_keys(tx.data.source, established_accounts, validator_accounts);
            &&& keys is Some
            &&& c.message == bond_message(tx.data.source, tx.data.validator, tx.data.amount)
            &&& exists|k: int|
                0 <= k < keys->0.public_keys.len() && #[trigger] keys->0.public_keys[k] == c.key
            &&& exists|j: int|
                0 <= j < tx.signatures@.len() && (#[trigger] tx.signatures@[j]).raw == c.signature
        },
{
    let keys = source_keys(tx.data.source, established_accounts, validator_accounts);
    if keys is Some {
        let pks = keys->0.public_keys;
        if pks.contains(c.key) {
            assert(pks[pks.index_of(c.key)] == c.key);
        }
    }
}

/// The questions that validation puts are those about its validator accounts and about
/// its bonds.
pub proof fn law_questions_of_validation(
    txs: Transactions<Unvalidated>,
    addresses: Map<DerivationView, EstablishedAddress>,
    c: SignatureCheckView,
)
    ensures
        is_validation_check(txs, addresses, c) <==> (exists|i: int|
            0 <= i < items(txs.validator_account).len() && is_authorization_check(
                #[trigger] items(txs.validator_account)[i],
                c,
            )) || (exists|i: int|
            0 <= i < items(txs.bond).len() && is_bond_check(
                #[trigger] items(txs.bond)[i],
                established_keys(items(txs.established_account), addresses),
                validator_keys(items(txs.validator_account), addresses),
                c,
            )),
{
}

/// The questions for a delegation are about each key of its source, on its message.
pub proof fn law_questions_of_a_delegation(
    bond: BondTx<Unvalidated>,
    wallet: Seq<KeyPair>,
    accounts: Option<Seq<crate::account::EstablishedAccountTx>>,
    addresses: Map<DerivationView, EstablishedAddress>,
    q: SigningRequestView,
)
    ensures
        is_delegation_request(bond, wallet, accounts, addresses, q) <==> {
            let keys = signing_keys(bond.source, wallet, accounts, addresses);
            &&& keys is Some
            &&& q.message == bond_message(bond.source, bond.validator, bond.amount)
            &&& exists|k: int| 0 <= k < keys->0.len() && #[trigger] keys->0[k] == q.key
        },
{
    let keys = signing_keys(bond.source, wallet, accounts, addresses);
    if keys is Some && keys->0.contains(q.key) {
        assert(keys->0[keys->0.index_of(q.key)] == q.key);
    }
}

/// The questions for delegations are those for each of them, and their sources have
/// keys, and can sign, where each of them does.
pub proof fn law_questions_of_delegations(
    bonds: Seq<BondTx<Unvalidated>>,
    wallet: Seq<KeyPair>,
    accounts: Option<Seq<crate::account::EstablishedAccountTx>>,
    addresses: Map<DerivationView, EstablishedAddress>,
    signatures: Map<SigningRequestView, Signature>,
    implicit: Map<PublicKey, ImplicitAddress>,
    q: SigningRequestView,
)
    ensures
        is_delegations_request(bonds, wallet, accounts, addresses, q) <==> exists|i: int|
            0 <= i < bonds.len() && is_delegation_request(
                #[trigger] bonds[i],
                wallet,
                accounts,
                addresses,
                q,
            ),
        sources_have_keys(bonds, wallet, accounts, addresses) <==> forall|i: int|
            0 <= i < bonds.len() ==> signing_keys(
                (#[trigger] bonds[i]).source,
                wallet,
                accounts,
                addresses,
            ) is Some,
        delegations_can_sign(bonds, wallet, accounts, addresses, signatures) <==> forall|i: int|
            0 <= i < bonds.len() ==> delegation_can_sign(
                #[trigger] bonds[i],
                wallet,
                accounts,
                addresses,
                signatures,
            ),
        sources_known(bonds, implicit) <==> forall|i: int|
            0 <= i < bonds.len() ==> has_genesis_address((#[trigger] bonds[i]).source, implicit),
{
}

/// What has to be known for accounts are their addresses, and their encodings have to
/// fit.
pub proof fn law_accounts_known(
    accounts: Seq<crate::account::EstablishedAccountTx>,
    addresses: Map<DerivationView, EstablishedAddress>,
)
    ensures
        accounts_known(accounts, addresses) <==> forall|i: int|
            0 <= i < accounts.len() ==> (#[trigger] accounts[i]).fits() && addresses.contains_key(
                (DerivationView {
                    salt: "established-account-tx"@,
                    data: accounts[i].encoding(),
                }),
            ),
{
    if accounts_known(accounts, addresses) {
        assert forall|i: int| 0 <= i < accounts.len() implies (#[trigger] accounts[i]).fits()
            && addresses.contains_key(
            (DerivationView { salt: "established-account-tx"@, data: accounts[i].encoding() }),
        ) by {
            assert(crate::answers::has_address(addresses, accounts[i]));
        }
    }
}

/// What the questions hold are their fields.
pub proof fn law_views_of_questions(
    d: crate::answers::Derivation,
    r: SigningRequest,
    c: SignatureCheck,
    k: crate::account_validation::AccountKeys,
)
    ensures
        d@.salt == d.salt@,
        d@.data == d.data@,
        r@.key == r.key,
        r@.message == r.message@,
        c@.message == c.message@,
        c@.key == c.key,
        c@.signature == c.signature,
        k@.public_keys == k.public_keys@,
        k@.threshold == k.threshold,
{
}

/// The questions for a new validator are about its six keys on its account and, where
/// it bonds anything to itself, about its account key on that bond.
pub proof fn law_questions_of_a_new_validator(
    data: GenesisValidatorData,
    wallet: ValidatorWallet,
    addresses: Map<DerivationView, EstablishedAddress>,
    signatures: Map<SigningRequestView, Signature>,
    q: SigningRequestView,
)
    ensures
        is_genesis_validator_request(data, wallet, addresses, q) <==> {
            let a = addresses[(DerivationView {
                salt: "validator-account-tx"@,
                data: genesis_validator_account(data, wallet).encoding(),
            })];
            ||| q.message == genesis_validator_account(data, wallet).encoding() && (q.key
                == wallet.account_key.secret || q.key == wallet.consensus_key.secret || q.key
                == wallet.protocol_key.secret || q.key == wallet.tendermint_node_key.secret
                || q.key == wallet.eth_hot_key.secret || q.key == wallet.eth_cold_key.secret)
            ||| data.self_bond_amount.amount@ != 0 && q.key == wallet.account_key.secret
                && q.message == bond_message(
                GenesisAddress::EstablishedAddress(a),
                Address::Established(a),
                data.self_bond_amount,
            )
        },
        genesis_validator_can_sign(data, wallet, addresses, signatures) <==> forall|
            q: SigningRequestView,
        | #[trigger]
            is_genesis_validator_request(data, wallet, addresses, q) ==> signatures.contains_key(q),
{
    crate::signing::lemma_genesis_validator_can_sign(data, wallet, addresses, signatures);
    crate::signing_laws::law_all_validator_keys_sign(
        wallet,
        q.message,
        Map::empty(),
        q.key,
    );
}

/// The implicit addresses that have to be known are those of the public keys that are
/// sources of bonds.
pub proof fn law_questions_of_implicit_sources(
    bonds: Seq<BondTx<Unvalidated>>,
    pk: PublicKey,
    source: GenesisAddress,
    implicit: Map<PublicKey, ImplicitAddress>,
)
    ensures
        is_implicit_source(bonds, pk) <==> exists|i: int|
            0 <= i < bonds.len() && ((#[trigger] bonds[i]).source matches GenesisAddress::PublicKey(
                k,
            ) && k.raw == pk),
        has_genesis_address(source, implicit) <==> (source is EstablishedAddress || (
        source matches GenesisAddress::PublicKey(k) && implicit.contains_key(k.raw))),
{
    if is_implicit_source(bonds, pk) {
        let i = choose|i: int| 0 <= i < bonds.len() && names_key((#[trigger] bonds[i]).source, pk);
        assert(bonds[i].source matches GenesisAddress::PublicKey(k) && k.raw == pk);
    }
    if exists|i: int|
        0 <= i < bonds.len() && ((#[trigger] bonds[i]).source matches GenesisAddress::PublicKey(k)
            && k.raw == pk) {
        let i = choose|i: int|
            0 <= i < bonds.len() && ((#[trigger] bonds[i]).source matches GenesisAddress::PublicKey(
                k,
            ) && k.raw == pk);
        assert(names_key(bonds[i].source, pk));
    }
}

/// What each fault of an established account says of it.
pub proof fn law_faults_of_an_established_account(
    txs: Transactions<Unvalidated>,
    i: usize,
    vps: Option<&ValidityPredicates>,
    balances: Option<&DenominatedBalances>,
    parameters: Option<&Parameters>,
    addresses: Map<DerivationView, EstablishedAddress>,
    verdicts: Map<SignatureCheckView, bool>,
    f: EstablishedFault,
)
    requires
        i < items(txs.established_account).len(),
    ensures
        ({
            let est = items(txs.established_account);
            let tx = est[i as int];
            has_fault(
                txs,
                vps,
                balances,
                parameters,
                addresses,
                verdicts,
                Fault::Established(i, f),
            ) <==> match f {
                EstablishedFault::ZeroThreshold => tx.threshold == 0,
                EstablishedFault::DuplicateAddress => exists|j: int|
                    0 <= j < i && address_of(addresses, #[trigger] est[j]) == address_of(
                        addresses,
                        tx,
                    ),
                EstablishedFault::UnknownVp => vps is None || !vps->0.wasm@.contains_key(tx.vp@),
                EstablishedFault::NoPublicKeys => tx.public_keys@.len() == 0,
            }
        }),
{
    let est = items(txs.established_account);
    let a = address_of(addresses, est[i as int]);
    let before = addresses_of(est, addresses).take(i as int);
    if before.contains(a) {
        let j = before.index_of(a);
        assert(address_of(addresses, est[j]) == a);
    }
    if exists|j: int| 0 <= j < i && address_of(addresses, #[trigger] est[j]) == a {
        let j = choose|j: int| 0 <= j < i && address_of(addresses, #[trigger] est[j]) == a;
        assert(before[j] == a);
    }
}

/// What each fault of a validator account says of it.
pub proof fn law_faults_of_a_validator_account(
    txs: Transactions<Unvalidated>,
    i: usize,
    vps: Option<&ValidityPredicates>,
    balances: Option<&DenominatedBalances>,
    parameters: Option<&Parameters>,
    addresses: Map<DerivationView, EstablishedAddress>,
    verdicts: Map<SignatureCheckView, bool>,
    f: ValidatorFault,
)
    requires
        i < items(txs.validator_account).len(),
    ensures
        ({
            let est = items(txs.established_account);
            let val = items(txs.validator_account);
            let tx = val[i as int];
            let a = address_of(addresses, without_authorizations(tx));
            has_fault(
                txs,
                vps,
                balances,
                parameters,
                addresses,
                verdicts,
                Fault::Validator(i, f),
            ) <==> match f {
                ValidatorFault::DuplicateAddress => {
                    ||| exists|j: int|
                        0 <= j < est.len() && address_of(addresses, #[trigger] est[j]) == a
                    ||| exists|j: int|
                        0 <= j < i && address_of(
                            addresses,
                            without_authorizations(#[trigger] val[j]),
                        ) == a
                },
                ValidatorFault::UnknownVp => vps is None || !vps->0.wasm@.contains_key(tx.vp@),
                ValidatorFault::CommissionRate => !(tx.commission_rate.raw.3 == 0
                    && tx.commission_rate.raw.2 == 0 && tx.commission_rate.raw.1 == 0
                    && tx.commission_rate.raw.0 <= 1_000_000_000_000),
                ValidatorFault::Unauthorized(ValidatorKey::Account) => !is_authorized(
                    tx,
                    tx.account_key,
                    verdicts,
                ),
                ValidatorFault::Unauthorized(ValidatorKey::Consensus) => !is_authorized(
                    tx,
                    tx.consensus_key,
                    verdicts,
                ),
                ValidatorFault::Unauthorized(ValidatorKey::Protocol) => !is_authorized(
                    tx,
                    tx.protocol_key,
                    verdicts,
                ),
                ValidatorFault::Unauthorized(ValidatorKey::TendermintNode) => !is_authorized(
                    tx,
                    tx.tendermint_node_key,
                    verdicts,
                ),
                ValidatorFault::Unauthorized(ValidatorKey::EthHot) => !is_authorized(
                    tx,
                    tx.eth_hot_key,
                    verdicts,
                ),
                ValidatorFault::Unauthorized(ValidatorKey::EthCold) => !is_authorized(
                    tx,
                    tx.eth_cold_key,
                    verdicts,
                ),
            }
        }),
{
    let est = items(txs.established_account);
    let val = items(txs.validator_account);
    let tx = val[i as int];
    let a = address_of(addresses, without_authorizations(tx));
    law_rate_is_from_zero_to_one(tx.commission_rate);
    let first = addresses_of(est, addresses);
    let second = addresses_of(unsigned_accounts(val), addresses);
    let before = first + second.take(i as int);
    if before.contains(a) {
        let j = before.index_of(a);
        if j < est.len() {
            assert(address_of(addresses, est[j]) == a);
        } else {
            let k = j - est.len();
            assert(second[k] == a);
            assert(address_of(addresses, without_authorizations(val[k])) == a);
        }
    }
    if exists|j: int| 0 <= j < est.len() && address_of(addresses, #[trigger] est[j]) == a {
        let j = choose|j: int| 0 <= j < est.len() && address_of(addresses, #[trigger] est[j]) == a;
        assert(before[j] == a);
    }
    if exists|j: int|
        0 <= j < i && address_of(addresses, without_authorizations(#[trigger] val[j])) == a {
        let j = choose|j: int|
            0 <= j < i && address_of(addresses, without_authorizations(#[trigger] val[j])) == a;
        assert(second[j] == a);
        assert(before[est.len() + j] == a);
    }
}

/// What each fault of a bond says of it and of the balances before it.
pub proof fn law_faults_of_a_bond(
    tx: SignedBondTx<Unvalidated>,
    balances: BalancesView,
    established_accounts: Map<Address, AccountKeysView>,
    validator_accounts: Map<Address, PublicKey>,
    token: Seq<char>,
    verdicts: Map<SignatureCheckView, bool>,
    f: BondFault,
)
    ensures
        ({
            let keys = source_keys(tx.data.source, established_accounts, validator_accounts);
            let small = tx.data.amount.denom <= 6 && millionths(tx.data.amount)
                < 0x1_0000_0000_0000_0000_0000_0000_0000_0000_0000_0000_0000_0000_0000_0000_0000_0000;
            let balance = balances[token][tx.data.source];
            has_bond_fault(
                tx,
                balances,
                established_accounts,
                validator_accounts,
                token,
                verdicts,
                f,
            ) <==> match f {
                BondFault::UnknownSource => keys is None,
                BondFault::InvalidSignature => keys is Some && !(keys->0.public_keys.len() <= 255
                    && signers(
                    bond_message(tx.data.source, tx.data.validator, tx.data.amount),
                    keys->0.public_keys,
                    tx.signatures@,
                    verdicts,
                ).len() >= keys->0.threshold),
                BondFault::Amount(AmountError::PrecisionDecrease) => tx.data.amount.denom > 6,
                BondFault::Amount(AmountError::PrecisionOverflow) => tx.data.amount.denom <= 6
                    && !small,
                BondFault::UnknownValidator => small && !validator_accounts.contains_key(
                    tx.data.validator,
                ),
                BondFault::NoToken => small && !balances.contains_key(token),
                BondFault::NoBalance => small && balances.contains_key(token)
                    && !balances[token].contains_key(tx.data.source),
                BondFault::InsufficientBalance(got) => small && balances.contains_key(token)
                    && balances[token].contains_key(tx.data.source) && got == balance
                    && balance.amount@ * pow(10, 6) < millionths(tx.data.amount) * pow(
                    10,
                    balance.denom as nat,
                ),
            }
        }),
{
    let keys = source_keys(tx.data.source, established_accounts, validator_accounts);
    law_denominated_in_millionths(tx.data);
    law_amounts_are_fractions(
        balances[token][tx.data.source],
        crate::bond::denominated(tx.data).amount,
    );
    if keys is Some {
        law_every_signer_counts_once(
            bond_message(tx.data.source, tx.data.validator, tx.data.amount),
            keys->0.public_keys,
            keys->0.threshold,
            tx.signatures@,
            verdicts,
        );
    }
}

/// Faults are told of transactions that are there, of a bond on the balances that the
/// bonds before it left, and of missing parameters only where there are bonds.
pub proof fn law_faults_name_transactions(
    txs: Transactions<Unvalidated>,
    vps: Option<&ValidityPredicates>,
    balances: Option<&DenominatedBalances>,
    parameters: Option<&Parameters>,
    addresses: Map<DerivationView, EstablishedAddress>,
    verdicts: Map<SignatureCheckView, bool>,
    i: usize,
    e: EstablishedFault,
    v: ValidatorFault,
    b: BondFault,
)
    ensures
        has_fault(
            txs,
            vps,
            balances,
            parameters,
            addresses,
            verdicts,
            Fault::Established(i, e),
        ) ==> i < items(txs.established_account).len(),
        has_fault(
            txs,
            vps,
            balances,
            parameters,
            addresses,
            verdicts,
            Fault::Validator(i, v),
        ) ==> i < items(txs.validator_account).len(),
        has_fault(
            txs,
            vps,
            balances,
            parameters,
            addresses,
            verdicts,
            Fault::MissingParameters,
        ) <==> items(txs.bond).len() > 0 && parameters is None,
        has_fault(txs, vps, balances, parameters, addresses, verdicts, Fault::Bond(i, b)) <==> i
            < items(txs.bond).len() && parameters is Some && has_bond_fault(
            items(txs.bond)[i as int],
            after_bonds(
                items(txs.bond).take(i as int),
                initial_balances(balances),
                parameters->0.native_token@,
            ),
            established_keys(items(txs.established_account), addresses),
            validator_keys(items(txs.validator_account), addresses),
            parameters->0.native_token@,
            verdicts,
            b,
        ),
{
}

} // verus!
