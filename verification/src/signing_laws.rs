//! What signing does, in terms of the fields of the transactions, of the wallets and of
//! the answers alone.

use crate::account::{
    validator_can_sign, validator_secrets, with_authorizations, without_authorizations,
    EstablishedAccountTx, SignedPk, UnsignedValidatorAccountTx,
};
use crate::address::{Address, EstablishedAddress, GenesisAddress, ImplicitAddress};
use crate::answers::{
    can_sign, established_address_of, signature_by, DerivationView, DeriveEstablishedAddress,
    SigningRequestView,
};
use crate::bond::{all_can_sign, bond_message, signatures_by, BondTx, SignedBondTx};
use crate::codec::option_chars;
use crate::keys::{
    secret_of, KeyPair, PublicKey, SecretKey, Signature, StringEncoded, ValidatorWallet,
};
use crate::signing::{
    account_keys, delegation_can_sign, genesis_address_of, genesis_validator_account,
    genesis_validator_derivation, has_self_bond, has_validator_accounts, is_genesis_validator,
    is_self_bond, is_signed_delegation, is_single_account, secrets_of, signing_keys,
    single_key_account, single_key_derivation, GenesisValidatorData,
};
use crate::templates::Unvalidated;
use crate::transactions::{items, Transactions, UnsignedTransactions};
use vstd::prelude::*;

verus! {

/// A signature is the answer for the key and the message, and it is known where there
/// is an answer.
pub proof fn law_signatures_are_answers(
    signatures: Map<SigningRequestView, Signature>,
    key: SecretKey,
    message: Seq<u8>,
)
    ensures
        signature_by(signatures, key, message) == signatures[(SigningRequestView {
            key,
            message,
        })],
        can_sign(signatures, key, message) <==> signatures.contains_key(
            (SigningRequestView { key, message }),
        ),
{
}

/// Signing with several keys gives one signature for each key, in their order, all on
/// the same message.
pub proof fn law_one_signature_per_key(
    keys: Seq<SecretKey>,
    message: Seq<u8>,
    signatures: Map<SigningRequestView, Signature>,
)
    ensures
        signatures_by(keys, message, signatures).len() == keys.len(),
        forall|i: int|
            0 <= i < keys.len() ==> (#[trigger] signatures_by(keys, message, signatures)[i]).raw
                == signatures[(SigningRequestView { key: keys[i], message })],
        all_can_sign(keys, message, signatures) <==> forall|k: SecretKey| #[trigger]
            keys.contains(k) ==> signatures.contains_key(
                (SigningRequestView { key: k, message }),
            ),
{
    if all_can_sign(keys, message, signatures) {
        assert forall|k: SecretKey| #[trigger] keys.contains(k) implies signatures.contains_key(
            (SigningRequestView { key: k, message }),
        ) by {
            assert(can_sign(signatures, keys[keys.index_of(k)], message));
        }
    }
    if forall|k: SecretKey| #[trigger]
        keys.contains(k) ==> signatures.contains_key((SigningRequestView { key: k, message })) {
        assert forall|i: int| 0 <= i < keys.len() implies can_sign(
            signatures,
            #[trigger] keys[i],
            message,
        ) by {
            assert(keys.contains(keys[i]));
        }
    }
}

/// The secret key that a wallet has for a public key is that of the first pair with the
/// public key; there is none where no pair has it.
pub proof fn law_wallet_finds_the_first_pair(wallet: Seq<KeyPair>, pk: PublicKey, i: int)
    ensures
        secret_of(wallet, pk) is Some ==> exists|j: int|
            0 <= j < wallet.len() && (#[trigger] wallet[j]).public == pk && secret_of(wallet, pk)
                == Some(wallet[j].secret),
        0 <= i < wallet.len() && wallet[i].public == pk ==> secret_of(wallet, pk) is Some,
        0 <= i < wallet.len() && wallet[i].public == pk && (forall|j: int|
            0 <= j < i ==> (#[trigger] wallet[j]).public != pk) ==> secret_of(wallet, pk) == Some(
            wallet[i].secret,
        ),
    decreases wallet.len(),
{
    if wallet.len() > 0 {
        if wallet[0].public == pk {
            assert(secret_of(wallet, pk) == Some(wallet[0].secret));
        } else {
            let rest = wallet.drop_first();
            law_wallet_finds_the_first_pair(rest, pk, i - 1);
            if secret_of(rest, pk) is Some {
                let j = choose|j: int|
                    0 <= j < rest.len() && (#[trigger] rest[j]).public == pk && secret_of(rest, pk)
                        == Some(rest[j].secret);
                assert(wallet[j + 1] == rest[j]);
            }
            if 0 < i < wallet.len() {
                assert(rest[i - 1] == wallet[i]);
                if forall|j: int| 0 <= j < i ==> (#[trigger] wallet[j]).public != pk {
                    assert forall|j: int| 0 <= j < i - 1 implies (#[trigger] rest[j]).public
                        != pk by {
                        assert(wallet[j + 1].public != pk);
                    }
                }
            }
        }
    }
}

/// The secret keys for a list of public keys are those for its parts, one after the
/// other; a public key that the wallet does not have is passed over.
pub proof fn law_secrets_keep_their_order(
    wallet: Seq<KeyPair>,
    a: Seq<StringEncoded<PublicKey>>,
    b: Seq<StringEncoded<PublicKey>>,
    pk: StringEncoded<PublicKey>,
)
    ensures
        secrets_of(wallet, a + b) == secrets_of(wallet, a) + secrets_of(wallet, b),
        secret_of(wallet, pk.raw) matches Some(sk) ==> secrets_of(wallet, seq![pk]) == seq![sk],
        secret_of(wallet, pk.raw) is None ==> secrets_of(wallet, seq![pk]).len() == 0,
        secrets_of(wallet, Seq::empty()).len() == 0,
    decreases b.len(),
{
    let one = seq![pk];
    assert(one.drop_last() =~= Seq::empty());
    assert(secrets_of(wallet, one.drop_last()) =~= Seq::empty());
    if secret_of(wallet, pk.raw) is Some {
        assert(secrets_of(wallet, one) =~= seq![secret_of(wallet, pk.raw)->0]);
    }
    if b.len() == 0 {
        assert(a + b =~= a);
        assert(secrets_of(wallet, a) + secrets_of(wallet, b) =~= secrets_of(wallet, a));
    } else {
        law_secrets_keep_their_order(wallet, a, b.drop_last(), pk);
        assert((a + b).drop_last() =~= a + b.drop_last());
        assert((a + b).last() == b.last());
        assert(secrets_of(wallet, a + b) =~= secrets_of(wallet, a) + secrets_of(wallet, b));
    }
}

/// The keys at an address are those of the first account there; there are none where
/// no account is there.
pub proof fn law_first_account_at_an_address(
    accounts: Seq<EstablishedAccountTx>,
    address: EstablishedAddress,
    addresses: Map<DerivationView, EstablishedAddress>,
)
    ensures
        account_keys(accounts, address, addresses) is Some <==> exists|i: int|
            0 <= i < accounts.len() && established_address_of(addresses, #[trigger] accounts[i])
                == address,
        forall|i: int|
            0 <= i < accounts.len() && established_address_of(addresses, #[trigger] accounts[i])
                == address && (forall|j: int|
                0 <= j < i ==> established_address_of(addresses, #[trigger] accounts[j]) != address)
                ==> account_keys(accounts, address, addresses) == Some(accounts[i].public_keys@),
    decreases accounts.len(),
{
    if accounts.len() > 0 && established_address_of(addresses, accounts[0]) != address {
        let rest = accounts.drop_first();
        law_first_account_at_an_address(rest, address, addresses);
        if account_keys(rest, address, addresses) is Some {
            let i = choose|i: int|
                0 <= i < rest.len() && established_address_of(addresses, #[trigger] rest[i])
                    == address;
            assert(established_address_of(addresses, accounts[i + 1]) == address);
        }
        if exists|i: int|
            0 <= i < accounts.len() && established_address_of(addresses, #[trigger] accounts[i])
                == address {
            let i = choose|i: int|
                0 <= i < accounts.len() && established_address_of(addresses, #[trigger] accounts[i])
                    == address;
            assert(established_address_of(addresses, rest[i - 1]) == address);
        }
        assert forall|i: int|
            0 <= i < accounts.len() && established_address_of(addresses, #[trigger] accounts[i])
                == address && (forall|j: int|
                0 <= j < i ==> established_address_of(addresses, #[trigger] accounts[j])
                    != address) implies account_keys(accounts, address, addresses) == Some(
            accounts[i].public_keys@,
        ) by {
            assert(rest[i - 1] == accounts[i]);
            assert forall|j: int| 0 <= j < i - 1 implies established_address_of(
                addresses,
                #[trigger] rest[j],
            ) != address by {
                assert(established_address_of(addresses, accounts[j + 1]) != address);
            }
        }
    } else if accounts.len() > 0 {
        assert(established_address_of(addresses, accounts[0]) == address);
    }
}

/// A source signs with its own secret key where it is a public key in the wallet, and
/// with the secret keys in the wallet for the keys of its account where it is an
/// address. A public key that is not in the wallet has no secret keys, and signing
/// fails for it only where there are no accounts at all. It fails for an address
/// without an account.
pub proof fn law_keys_that_sign(
    source: GenesisAddress,
    wallet: Seq<KeyPair>,
    accounts: Option<Seq<EstablishedAccountTx>>,
    addresses: Map<DerivationView, EstablishedAddress>,
)
    ensures
        source matches GenesisAddress::PublicKey(pk) ==> {
            &&& secret_of(wallet, pk.raw) matches Some(sk) ==> signing_keys(
                source,
                wallet,
                accounts,
                addresses,
            ) == Some(seq![sk])
            &&& secret_of(wallet, pk.raw) is None ==> (signing_keys(
                source,
                wallet,
                accounts,
                addresses,
            ) is Some <==> accounts is Some && accounts->0.len() > 0)
            &&& secret_of(wallet, pk.raw) is None && accounts is Some && accounts->0.len() > 0
                ==> signing_keys(source, wallet, accounts, addresses)->0.len() == 0
        },
        source matches GenesisAddress::EstablishedAddress(a) ==> {
            &&& signing_keys(source, wallet, accounts, addresses) is Some <==> accounts is Some
                && account_keys(accounts->0, a, addresses) is Some
            &&& accounts is Some && account_keys(accounts->0, a, addresses) is Some
                ==> signing_keys(source, wallet, accounts, addresses)->0 == secrets_of(
                wallet,
                account_keys(accounts->0, a, addresses)->0,
            )
        },
{
}

/// A signed delegation is the bond with one signature for each key of its source, in
/// their order, on the message of the bond.
pub proof fn law_signed_delegation(
    signed: SignedBondTx<Unvalidated>,
    bond: BondTx<Unvalidated>,
    wallet: Seq<KeyPair>,
    accounts: Option<Seq<EstablishedAccountTx>>,
    addresses: Map<DerivationView, EstablishedAddress>,
    signatures: Map<SigningRequestView, Signature>,
)
    ensures
        is_signed_delegation(signed, bond, wallet, accounts, addresses, signatures) ==> {
            let keys = signing_keys(bond.source, wallet, accounts, addresses);
            &&& signed.data == bond
            &&& keys is Some
            &&& signed.signatures@.len() == keys->0.len()
            &&& forall|i: int|
                0 <= i < keys->0.len() ==> (#[trigger] signed.signatures@[i]).raw
                    == signatures[(SigningRequestView {
                    key: keys->0[i],
                    message: bond_message(bond.source, bond.validator, bond.amount),
                })]
        },
        delegation_can_sign(bond, wallet, accounts, addresses, signatures) <==> {
            let keys = signing_keys(bond.source, wallet, accounts, addresses);
            &&& keys is Some
            &&& forall|k: SecretKey| #[trigger]
                keys->0.contains(k) ==> signatures.contains_key(
                    (SigningRequestView {
                        key: k,
                        message: bond_message(bond.source, bond.validator, bond.amount),
                    }),
                )
        },
{
    let keys = signing_keys(bond.source, wallet, accounts, addresses);
    if keys is Some {
        law_one_signature_per_key(
            keys->0,
            bond_message(bond.source, bond.validator, bond.amount),
            signatures,
        );
    }
}

/// A bond is a self-bond if its source, by its address or by the implicit address of
/// its key, is its validator. Transactions of a user have neither these nor validator
/// accounts.
pub proof fn law_self_bonds(
    txs: UnsignedTransactions,
    bond: BondTx<Unvalidated>,
    implicit: Map<PublicKey, ImplicitAddress>,
)
    ensures
        bond.source matches GenesisAddress::EstablishedAddress(a) ==> (is_self_bond(bond, implicit)
            <==> bond.validator == Address::Established(a)),
        bond.source matches GenesisAddress::PublicKey(pk) ==> (is_self_bond(bond, implicit)
            <==> bond.validator == Address::Implicit(implicit[pk.raw])),
        bond.source matches GenesisAddress::EstablishedAddress(a) ==> genesis_address_of(
            bond.source,
            implicit,
        ) == Address::Established(a),
        bond.source matches GenesisAddress::PublicKey(pk) ==> genesis_address_of(
            bond.source,
            implicit,
        ) == Address::Implicit(implicit[pk.raw]),
        has_self_bond(txs, implicit) <==> exists|i: int|
            0 <= i < items(txs.bond).len() && is_self_bond(
                #[trigger] items(txs.bond)[i],
                implicit,
            ),
        has_validator_accounts(txs) <==> txs.validator_account is Some
            && txs.validator_account->0@.len() > 0,
{
}

/// Whether `key` is `pk` with the signature of `pair` on `message`.
pub open spec fn is_authorized_by(
    key: SignedPk,
    pk: PublicKey,
    pair: KeyPair,
    message: Seq<u8>,
    signatures: Map<SigningRequestView, Signature>,
) -> bool {
    &&& key.pk.raw == pk
    &&& key.authorization.raw == signatures[(SigningRequestView { key: pair.secret, message })]
}

/// Signing a validator account keeps everything that it says, and gives each key the
/// signature of its own pair on the whole account.
pub proof fn law_every_key_authorizes_itself(
    tx: UnsignedValidatorAccountTx,
    wallet: ValidatorWallet,
    signatures: Map<SigningRequestView, Signature>,
)
    ensures
        ({
            let r = with_authorizations(tx, wallet, signatures);
            let m = crate::codec::Encode::encoding(&tx);
            &&& r.vp == tx.vp
            &&& r.commission_rate == tx.commission_rate
            &&& r.max_commission_rate_change == tx.max_commission_rate_change
            &&& r.email == tx.email
            &&& r.description == tx.description
            &&& r.website == tx.website
            &&& r.discord_handle == tx.discord_handle
            &&& r.net_address == tx.net_address
            &&& is_authorized_by(
                r.account_key,
                tx.account_key.raw,
                wallet.account_key,
                m,
                signatures,
            )
            &&& is_authorized_by(
                r.consensus_key,
                tx.consensus_key.raw,
                wallet.consensus_key,
                m,
                signatures,
            )
            &&& is_authorized_by(
                r.protocol_key,
                tx.protocol_key.raw,
                wallet.protocol_key,
                m,
                signatures,
            )
            &&& is_authorized_by(
                r.tendermint_node_key,
                tx.tendermint_node_key.raw,
                wallet.tendermint_node_key,
                m,
                signatures,
            )
            &&& is_authorized_by(
                r.eth_hot_key,
                tx.eth_hot_key.raw,
                wallet.eth_hot_key,
                m,
                signatures,
            )
            &&& is_authorized_by(
                r.eth_cold_key,
                tx.eth_cold_key.raw,
                wallet.eth_cold_key,
                m,
                signatures,
            )
        }),
{
}

/// A validator can sign where the answers for all six of its secret keys are known.
pub proof fn law_all_validator_keys_sign(
    wallet: ValidatorWallet,
    message: Seq<u8>,
    signatures: Map<SigningRequestView, Signature>,
    k: SecretKey,
)
    ensures
        validator_secrets(wallet).contains(k) <==> k == wallet.account_key.secret || k
            == wallet.consensus_key.secret || k == wallet.protocol_key.secret || k
            == wallet.tendermint_node_key.secret || k == wallet.eth_hot_key.secret || k
            == wallet.eth_cold_key.secret,
        validator_can_sign(wallet, message, signatures) && validator_secrets(wallet).contains(k)
            ==> signatures.contains_key((SigningRequestView { key: k, message })),
{
    let s = validator_secrets(wallet);
    assert(s[0] == wallet.account_key.secret);
    assert(s[1] == wallet.consensus_key.secret);
    assert(s[2] == wallet.protocol_key.secret);
    assert(s[3] == wallet.tendermint_node_key.secret);
    assert(s[4] == wallet.eth_hot_key.secret);
    assert(s[5] == wallet.eth_cold_key.secret);
    assert(s.len() == 6);
}

/// The account that `init_validator` makes says what the data says, field by field,
/// with the public keys of the wallet and the usual validity predicate, and each key is
/// authorized by its own pair. There is a bond exactly where the self-bond is not zero:
/// of the account to itself, of that amount, signed once, with the account key. There
/// is nothing else.
pub proof fn law_new_validator_has_its_data(
    txs: Transactions<Unvalidated>,
    data: GenesisValidatorData,
    wallet: ValidatorWallet,
    addresses: Map<DerivationView, EstablishedAddress>,
    signatures: Map<SigningRequestView, Signature>,
)
    requires
        is_genesis_validator(txs, data, wallet, addresses, signatures),
    ensures
        txs.established_account is None,
        txs.validator_account is Some,
        txs.validator_account->0@.len() == 1,
        ({
            let account = txs.validator_account->0@[0];
            let m = crate::codec::Encode::encoding(&without_authorizations(account));
            &&& account.vp@ == "vp_user"@
            &&& account.commission_rate == data.commission_rate
            &&& account.max_commission_rate_change == data.max_commission_rate_change
            &&& account.email@ == data.email@
            &&& option_chars(account.description) == option_chars(data.description)
            &&& option_chars(account.website) == option_chars(data.website)
            &&& option_chars(account.discord_handle) == option_chars(data.discord_handle)
            &&& account.net_address == data.net_address
            &&& is_authorized_by(
                account.account_key,
                wallet.account_key.public,
                wallet.account_key,
                m,
                signatures,
            )
            &&& is_authorized_by(
                account.consensus_key,
                wallet.consensus_key.public,
                wallet.consensus_key,
                m,
                signatures,
            )
            &&& is_authorized_by(
                account.protocol_key,
                wallet.protocol_key.public,
                wallet.protocol_key,
                m,
                signatures,
            )
            &&& is_authorized_by(
                account.tendermint_node_key,
                wallet.tendermint_node_key.public,
                wallet.tendermint_node_key,
                m,
                signatures,
            )
            &&& is_authorized_by(
                account.eth_hot_key,
                wallet.eth_hot_key.public,
                wallet.eth_hot_key,
                m,
                signatures,
            )
            &&& is_authorized_by(
                account.eth_cold_key,
                wallet.eth_cold_key.public,
                wallet.eth_cold_key,
                m,
                signatures,
            )
        }),
        txs.bond is Some <==> data.self_bond_amount.amount@ != 0,
        txs.bond is Some ==> {
            let account = without_authorizations(txs.validator_account->0@[0]);
            let a = established_address_of(addresses, account);
            let bond = txs.bond->0@[0];
            &&& txs.bond->0@.len() == 1
            &&& bond.data.source == GenesisAddress::EstablishedAddress(a)
            &&& bond.data.validator == Address::Established(a)
            &&& bond.data.amount == data.self_bond_amount
            &&& bond.signatures@.len() == 1
            &&& bond.signatures@[0].raw == signatures[(SigningRequestView {
                key: wallet.account_key.secret,
                message: bond_message(bond.data.source, bond.data.validator, bond.data.amount),
            })]
        },
{
    let account = txs.validator_account->0@[0];
    let unsigned = without_authorizations(account);
    assert(unsigned@ == genesis_validator_account(data, wallet));
    law_every_key_authorizes_itself(unsigned, wallet, signatures);
    assert(account == with_authorizations(unsigned, wallet, signatures));
    let view = unsigned@;
    assert(view.vp == account.vp@);
    assert(view.email == account.email@);
    assert(view.net_address == account.net_address);
}

/// Two new validators that differ in any of their data have accounts that differ.
pub proof fn law_new_validators_differ(
    data: GenesisValidatorData,
    data2: GenesisValidatorData,
    wallet: ValidatorWallet,
)
    requires
        genesis_validator_account(data, wallet) == genesis_validator_account(data2, wallet),
    ensures
        data.commission_rate == data2.commission_rate,
        data.max_commission_rate_change == data2.max_commission_rate_change,
        data.net_address == data2.net_address,
        data.email@ == data2.email@,
        option_chars(data.description) == option_chars(data2.description),
        option_chars(data.website) == option_chars(data2.website),
        option_chars(data.discord_handle) == option_chars(data2.discord_handle),
{
}

/// The account that `init_established_account` makes has the given validity predicate,
/// the given key alone, and asks for its one signature. There is nothing else.
pub proof fn law_new_account_has_its_key(
    txs: Transactions<Unvalidated>,
    vp: Seq<char>,
    public_key: PublicKey,
)
    requires
        is_single_account(txs, vp, public_key),
    ensures
        txs.validator_account is None,
        txs.bond is None,
        txs.established_account is Some,
        txs.established_account->0@.len() == 1,
        txs.established_account->0@[0].vp@ == vp,
        txs.established_account->0@[0].threshold == 1,
        txs.established_account->0@[0].public_keys@.len() == 1,
        txs.established_account->0@[0].public_keys@[0].raw == public_key,
{
    assert(txs.established_account->0@[0]@ == single_key_account(vp, public_key));
}

/// The addresses of new accounts are derived with the salts of their kinds.
pub proof fn law_addresses_of_new_accounts(
    vp: Seq<char>,
    public_key: PublicKey,
    data: GenesisValidatorData,
    wallet: ValidatorWallet,
)
    ensures
        single_key_derivation(vp, public_key).salt == "established-account-tx"@,
        single_key_derivation(vp, public_key).data == single_key_account(vp, public_key).encoding(),
        genesis_validator_derivation(data, wallet).salt == "validator-account-tx"@,
        genesis_validator_derivation(data, wallet).data == genesis_validator_account(
            data,
            wallet,
        ).encoding(),
{
}

/// What the views of account transactions hold are their fields.
pub proof fn law_views_are_fields(tx: EstablishedAccountTx, v: UnsignedValidatorAccountTx)
    ensures
        tx@.vp == tx.vp@,
        tx@.threshold == tx.threshold,
        tx@.public_keys == tx.public_keys@,
        v@.vp == v.vp@,
        v@.commission_rate == v.commission_rate,
        v@.max_commission_rate_change == v.max_commission_rate_change,
        v@.email == v.email@,
        v@.description == option_chars(v.description),
        v@.website == option_chars(v.website),
        v@.discord_handle == option_chars(v.discord_handle),
        v@.net_address == v.net_address,
        v@.account_key == v.account_key.raw,
        v@.consensus_key == v.consensus_key.raw,
        v@.protocol_key == v.protocol_key.raw,
        v@.tendermint_node_key == v.tendermint_node_key.raw,
        v@.eth_hot_key == v.eth_hot_key.raw,
        v@.eth_cold_key == v.eth_cold_key.raw,
{
}

} // verus!
