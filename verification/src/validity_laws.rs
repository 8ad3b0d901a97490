//! What it means that transactions are valid, in terms of their fields and of the
//! answers alone.

use crate::account::{
    without_authorizations, EstablishedAccountTx, SignedPk, SignedValidatorAccountTx,
    UnsignedValidatorAccountTx,
};
use crate::account_validation::{
    addresses_of, established_account_ok, established_keys, keys_of, unsigned_accounts,
    validator_accepted, validator_account_ok, validator_keys,
};
use crate::address::{Address, EstablishedAddress};
use crate::answers::{
    accepts, address_of, established_address_of, DerivationView, DeriveEstablishedAddress,
    SignatureCheckView,
};
use crate::bond::{has_signature, signed_keys, verify_outcome, VerifySigError};
use crate::bond_validation::{after_bonds, bond_valid, initial_balances};
use crate::codec::Encode;
use crate::keys::{PublicKey, Signature, StringEncoded};
use crate::templates::{DenominatedBalances, Parameters, Unvalidated, ValidityPredicates};
use crate::transactions::{items, Transactions};
use crate::validate::transactions_valid;
use crate::value_laws::law_rate_is_from_zero_to_one;
use vstd::prelude::*;
use vstd::set_lib::{lemma_int_range, set_int_range};

verus! {

/// A signature counts exactly where the verdict on it is that it is valid, whatever
/// the kind of the key. One without a verdict does not count.
pub proof fn law_only_a_verdict_counts(
    verdicts: Map<SignatureCheckView, bool>,
    message: Seq<u8>,
    key: PublicKey,
    signature: Signature,
)
    ensures
        accepts(verdicts, message, key, signature) <==> verdicts.contains_pair(
            (SignatureCheckView { message, key, signature }),
            true,
        ),
{
}

/// The positions of the keys that have a signature of `message` with the verdict that
/// it is valid.
pub open spec fn signers(
    message: Seq<u8>,
    pks: Seq<PublicKey>,
    signatures: Seq<StringEncoded<Signature>>,
    verdicts: Map<SignatureCheckView, bool>,
) -> Set<int> {
    set_int_range(0, pks.len() as int).filter(
        |k: int|
            exists|j: int|
                0 <= j < signatures.len() && verdicts.contains_pair(
                    (SignatureCheckView {
                        message,
                        key: pks[k],
                        signature: (#[trigger] signatures[j]).raw,
                    }),
                    true,
                ),
    )
}

/// The number of the keys that have signed.
proof fn lemma_signers(
    message: Seq<u8>,
    pks: Seq<PublicKey>,
    signatures: Seq<StringEncoded<Signature>>,
    verdicts: Map<SignatureCheckView, bool>,
)
    ensures
        signers(message, pks, signatures, verdicts).finite(),
        signed_keys(message, pks, signatures, verdicts) == signers(
            message,
            pks,
            signatures,
            verdicts,
        ).len(),
        signers(message, pks, signatures, verdicts).len() <= pks.len(),
        forall|k: int| #[trigger]
            signers(message, pks, signatures, verdicts).contains(k) <==> 0 <= k < pks.len()
                && has_signature(message, pks[k], signatures, verdicts),
    decreases pks.len(),
{
    let all = signers(message, pks, signatures, verdicts);
    lemma_int_range(0, pks.len() as int);
    assert forall|k: int| #[trigger] all.contains(k) <==> 0 <= k < pks.len() && has_signature(
        message,
        pks[k],
        signatures,
        verdicts,
    ) by {
        if 0 <= k < pks.len() && has_signature(message, pks[k], signatures, verdicts) {
            let j = choose|j: int|
                0 <= j < signatures.len() && accepts(
                    verdicts,
                    message,
                    pks[k],
                    (#[trigger] signatures[j]).raw,
                );
            assert(verdicts.contains_pair(
                (SignatureCheckView { message, key: pks[k], signature: signatures[j].raw }),
                true,
            ));
        }
        if all.contains(k) {
            let j = choose|j: int|
                0 <= j < signatures.len() && verdicts.contains_pair(
                    (SignatureCheckView {
                        message,
                        key: pks[k],
                        signature: (#[trigger] signatures[j]).raw,
                    }),
                    true,
                );
            assert(accepts(verdicts, message, pks[k], signatures[j].raw));
        }
    }
    if pks.len() == 0 {
        assert(all =~= Set::empty());
    } else {
        let n = pks.len() - 1;
        let first = pks.drop_last();
        let before = signers(message, first, signatures, verdicts);
        lemma_signers(message, first, signatures, verdicts);
        assert(pks[n] == pks.last());
        assert forall|k: int| 0 <= k < n implies first[k] == pks[k] by {}
        if has_signature(message, pks[n], signatures, verdicts) {
            assert(all =~= before.insert(n));
            assert(!before.contains(n));
        } else {
            assert(all =~= before);
        }
    }
}

/// Verification counts the keys that have a valid signature, each once. It is refused
/// for more than 255 keys, and where fewer have signed than the threshold asks for; then
/// it tells the threshold and the count.
pub proof fn law_every_signer_counts_once(
    message: Seq<u8>,
    pks: Seq<PublicKey>,
    threshold: u8,
    signatures: Seq<StringEncoded<Signature>>,
    verdicts: Map<SignatureCheckView, bool>,
)
    ensures
        verify_outcome(message, pks, threshold, signatures, verdicts) is Ok <==> pks.len() <= 255
            && signers(message, pks, signatures, verdicts).len() >= threshold,
        verify_outcome(message, pks, threshold, signatures, verdicts) == Err::<(), VerifySigError>(
            VerifySigError::TooGoddamnBig,
        ) <==> pks.len() > 255,
        verify_outcome(message, pks, threshold, signatures, verdicts) matches Err(
            VerifySigError::ThresholdNotMet(t, n),
        ) ==> t == threshold && n == signers(message, pks, signatures, verdicts).len() && n < t,
{
    lemma_signers(message, pks, signatures, verdicts);
}

/// Whether the authorization of `key` has the verdict that it is a valid signature of
/// the validator account without its authorizations.
pub open spec fn is_authorized(
    tx: SignedValidatorAccountTx,
    key: SignedPk,
    verdicts: Map<SignatureCheckView, bool>,
) -> bool {
    verdicts.contains_pair(
        (SignatureCheckView {
            message: without_authorizations(tx).encoding(),
            key: key.pk.raw,
            signature: key.authorization.raw,
        }),
        true,
    )
}

/// What is signed of a validator account is all of it but the authorizations.
pub proof fn law_only_authorizations_are_left_out(tx: SignedValidatorAccountTx)
    ensures
        without_authorizations(tx).vp == tx.vp,
        without_authorizations(tx).commission_rate == tx.commission_rate,
        without_authorizations(tx).max_commission_rate_change == tx.max_commission_rate_change,
        without_authorizations(tx).email == tx.email,
        without_authorizations(tx).description == tx.description,
        without_authorizations(tx).website == tx.website,
        without_authorizations(tx).discord_handle == tx.discord_handle,
        without_authorizations(tx).net_address == tx.net_address,
        without_authorizations(tx).account_key == tx.account_key.pk,
        without_authorizations(tx).consensus_key == tx.consensus_key.pk,
        without_authorizations(tx).protocol_key == tx.protocol_key.pk,
        without_authorizations(tx).tendermint_node_key == tx.tendermint_node_key.pk,
        without_authorizations(tx).eth_hot_key == tx.eth_hot_key.pk,
        without_authorizations(tx).eth_cold_key == tx.eth_cold_key.pk,
{
}

/// An established account is valid by itself exactly where it asks for at least one
/// signature, has at least one key, and has a validity predicate that is there.
pub proof fn law_established_account_ok(tx: EstablishedAccountTx, vps: Option<&ValidityPredicates>)
    ensures
        established_account_ok(tx, vps) <==> tx.threshold >= 1 && tx.public_keys@.len() >= 1
            && vps is Some && vps->0.wasm@.contains_key(tx.vp@),
        keys_of(tx).threshold == tx.threshold,
        keys_of(tx).public_keys.len() == tx.public_keys@.len(),
        forall|i: int|
            0 <= i < tx.public_keys@.len() ==> #[trigger] keys_of(tx).public_keys[i]
                == tx.public_keys@[i].raw,
{
}

/// A validator account is valid by itself exactly where it has a validity predicate
/// that is there, a commission rate from zero to one, and a verdict for each of its six
/// keys that the authorization is valid.
pub proof fn law_validator_account_ok(
    tx: SignedValidatorAccountTx,
    vps: Option<&ValidityPredicates>,
    verdicts: Map<SignatureCheckView, bool>,
)
    ensures
        validator_account_ok(tx, vps, verdicts) <==> {
            &&& vps is Some && vps->0.wasm@.contains_key(tx.vp@)
            &&& tx.commission_rate.raw.3 == 0 && tx.commission_rate.raw.2 == 0
            &&& tx.commission_rate.raw.1 == 0 && tx.commission_rate.raw.0 <= 1_000_000_000_000
            &&& is_authorized(tx, tx.account_key, verdicts)
            &&& is_authorized(tx, tx.consensus_key, verdicts)
            &&& is_authorized(tx, tx.protocol_key, verdicts)
            &&& is_authorized(tx, tx.tendermint_node_key, verdicts)
            &&& is_authorized(tx, tx.eth_hot_key, verdicts)
            &&& is_authorized(tx, tx.eth_cold_key, verdicts)
        },
{
    law_rate_is_from_zero_to_one(tx.commission_rate);
    let message = without_authorizations(tx).encoding();
    law_only_a_verdict_counts(
        verdicts,
        message,
        tx.account_key.pk.raw,
        tx.account_key.authorization.raw,
    );
}

/// A validator account is accepted exactly where it is valid by itself and its address
/// is not in use.
pub proof fn law_validator_accepted(
    tx: SignedValidatorAccountTx,
    vps: Option<&ValidityPredicates>,
    addresses: Map<DerivationView, EstablishedAddress>,
    verdicts: Map<SignatureCheckView, bool>,
    used: Map<Address, ()>,
)
    ensures
        validator_accepted(tx, vps, addresses, verdicts, used) <==> validator_account_ok(
            tx,
            vps,
            verdicts,
        ) && !used.contains_key(
            Address::Established(
                addresses[(DerivationView {
                    salt: "validator-account-tx"@,
                    data: without_authorizations(tx).encoding(),
                })],
            ),
        ),
{
}

/// Taking back the verdict on any of the six authorizations makes the account invalid.
pub proof fn law_no_authorization_is_optional(
    tx: SignedValidatorAccountTx,
    key: SignedPk,
    vps: Option<&ValidityPredicates>,
    verdicts: Map<SignatureCheckView, bool>,
)
    requires
        key == tx.account_key || key == tx.consensus_key || key == tx.protocol_key || key
            == tx.tendermint_node_key || key == tx.eth_hot_key || key == tx.eth_cold_key,
    ensures
        ({
            let check = SignatureCheckView {
                message: without_authorizations(tx).encoding(),
                key: key.pk.raw,
                signature: key.authorization.raw,
            };
            &&& !validator_account_ok(tx, vps, verdicts.remove(check))
            &&& !validator_account_ok(tx, vps, verdicts.insert(check, false))
        }),
{
    let check = SignatureCheckView {
        message: without_authorizations(tx).encoding(),
        key: key.pk.raw,
        signature: key.authorization.raw,
    };
    law_validator_account_ok(tx, vps, verdicts.remove(check));
    law_validator_account_ok(tx, vps, verdicts.insert(check, false));
}

/// The address of an account is the answer to the question with the salt of its kind
/// and its encoding.
pub proof fn law_addresses_are_answers(
    tx: EstablishedAccountTx,
    v: UnsignedValidatorAccountTx,
    addresses: Map<DerivationView, EstablishedAddress>,
)
    ensures
        address_of(addresses, tx) == Address::Established(
            addresses[(DerivationView {
                salt: "established-account-tx"@,
                data: tx.encoding(),
            })],
        ),
        address_of(addresses, v) == Address::Established(
            addresses[(DerivationView { salt: "validator-account-tx"@, data: v.encoding() })],
        ),
        Address::Established(established_address_of(addresses, tx)) == address_of(addresses, tx),
        Address::Established(established_address_of(addresses, v)) == address_of(addresses, v),
{
}

/// Transactions are valid exactly where every account is valid by itself, no two
/// accounts have the same address, and, if there are bonds, there are parameters and
/// every bond is valid on the balances that the bonds before it left.
pub proof fn law_valid_transactions(
    txs: Transactions<Unvalidated>,
    vps: Option<&ValidityPredicates>,
    balances: Option<&DenominatedBalances>,
    parameters: Option<&Parameters>,
    addresses: Map<DerivationView, EstablishedAddress>,
    verdicts: Map<SignatureCheckView, bool>,
)
    ensures
        ({
            let est = items(txs.established_account);
            let val = items(txs.validator_account);
            let bonds = items(txs.bond);
            transactions_valid(txs, vps, balances, parameters, addresses, verdicts) <==> {
                &&& forall|i: int|
                    0 <= i < est.len() ==> established_account_ok(#[trigger] est[i], vps)
                &&& forall|i: int|
                    0 <= i < val.len() ==> validator_account_ok(#[trigger] val[i], vps, verdicts)
                &&& forall|i: int, j: int|
                    0 <= i < j < est.len() ==> address_of(addresses, #[trigger] est[i])
                        != address_of(addresses, #[trigger] est[j])
                &&& forall|i: int, j: int|
                    0 <= i < j < val.len() ==> address_of(
                        addresses,
                        without_authorizations(#[trigger] val[i]),
                    ) != address_of(addresses, without_authorizations(#[trigger] val[j]))
                &&& forall|i: int, j: int|
                    0 <= i < est.len() && 0 <= j < val.len() ==> address_of(
                        addresses,
                        #[trigger] est[i],
                    ) != address_of(addresses, without_authorizations(#[trigger] val[j]))
                &&& bonds.len() > 0 ==> parameters is Some
                &&& forall|i: int|
                    0 <= i < bonds.len() ==> bond_valid(
                        #[trigger] bonds[i],
                        after_bonds(
                            bonds.take(i),
                            initial_balances(balances),
                            parameters->0.native_token@,
                        ),
                        established_keys(est, addresses),
                        validator_keys(val, addresses),
                        parameters->0.native_token@,
                        verdicts,
                    )
            }
        }),
{
    let est = items(txs.established_account);
    let val = items(txs.validator_account);
    let unsigned = unsigned_accounts(val);
    let a = addresses_of(est, addresses);
    let b = addresses_of(unsigned, addresses);
    let all = a + b;
    assert forall|i: int| 0 <= i < est.len() implies #[trigger] all[i] == address_of(
        addresses,
        est[i],
    ) by {}
    assert forall|i: int| 0 <= i < val.len() implies #[trigger] b[i] == address_of(
        addresses,
        without_authorizations(val[i]),
    ) && all[est.len() + i] == b[i] by {}
    if all.no_duplicates() {
        assert forall|i: int, j: int| 0 <= i < j < est.len() implies address_of(
            addresses,
            #[trigger] est[i],
        ) != address_of(addresses, #[trigger] est[j]) by {
            assert(all[i] != all[j]);
        }
        assert forall|i: int, j: int| 0 <= i < j < val.len() implies address_of(
            addresses,
            without_authorizations(#[trigger] val[i]),
        ) != address_of(addresses, without_authorizations(#[trigger] val[j])) by {
            assert(all[est.len() + i] != all[est.len() + j]);
            assert(b[i] != b[j]);
        }
        assert forall|i: int, j: int| 0 <= i < est.len() && 0 <= j < val.len() implies address_of(
            addresses,
            #[trigger] est[i],
        ) != address_of(addresses, without_authorizations(#[trigger] val[j])) by {
            assert(all[i] != all[est.len() + j]);
            assert(all[est.len() + j] == b[j]);
        }
    } else {
        let (i, j) = choose|i: int, j: int|
            0 <= i < all.len() && 0 <= j < all.len() && i != j && all[i] == all[j];
        let (x, y) = if i < j {
            (i, j)
        } else {
            (j, i)
        };
        assert(all[x] == all[y]);
        if y < est.len() {
            assert(address_of(addresses, est[x]) == address_of(addresses, est[y]));
        } else if x < est.len() {
            let v = y - est.len();
            assert(all[y] == b[v]);
            assert(address_of(addresses, est[x]) == address_of(
                addresses,
                without_authorizations(val[v]),
            ));
        } else {
            let (u, v) = (x - est.len(), y - est.len());
            assert(all[x] == b[u] && all[y] == b[v]);
            assert(address_of(addresses, without_authorizations(val[u])) == address_of(
                addresses,
                without_authorizations(val[v]),
            ));
        }
    }
}

/// The keys that are recorded for an address are those of the last account there, and
/// none are recorded for other addresses.
pub proof fn law_recorded_keys(
    est: Seq<EstablishedAccountTx>,
    val: Seq<SignedValidatorAccountTx>,
    addresses: Map<DerivationView, EstablishedAddress>,
    a: Address,
)
    ensures
        established_keys(est, addresses).contains_key(a) <==> exists|i: int|
            0 <= i < est.len() && address_of(addresses, #[trigger] est[i]) == a,
        forall|i: int|
            0 <= i < est.len() && address_of(addresses, #[trigger] est[i]) == a && (forall|j: int|
                i < j < est.len() ==> address_of(addresses, #[trigger] est[j]) != a)
                ==> established_keys(est, addresses)[a] == keys_of(est[i]),
        validator_keys(val, addresses).contains_key(a) <==> exists|i: int|
            0 <= i < val.len() && address_of(addresses, without_authorizations(#[trigger] val[i]))
                == a,
        forall|i: int|
            0 <= i < val.len() && address_of(addresses, without_authorizations(#[trigger] val[i]))
                == a && (forall|j: int|
                i < j < val.len() ==> address_of(
                    addresses,
                    without_authorizations(#[trigger] val[j]),
                ) != a) ==> validator_keys(val, addresses)[a] == val[i].account_key.pk.raw,
{
    lemma_established_recorded(est, addresses, a);
    lemma_validators_recorded(val, addresses, a);
}

/// The values at the addresses; of two at the same address, the last one counts.
spec fn last_at<V>(addrs: Seq<Address>, values: Seq<V>) -> Map<Address, V>
    decreases addrs.len(),
{
    if addrs.len() == 0 {
        Map::empty()
    } else {
        last_at(addrs.drop_last(), values.drop_last()).insert(addrs.last(), values.last())
    }
}

proof fn lemma_last_at<V>(addrs: Seq<Address>, values: Seq<V>, a: Address)
    requires
        addrs.len() == values.len(),
    ensures
        last_at(addrs, values).contains_key(a) <==> addrs.contains(a),
    decreases addrs.len(),
{
    if addrs.len() > 0 {
        let n = addrs.len() - 1;
        let first = addrs.drop_last();
        lemma_last_at(first, values.drop_last(), a);
        assert(addrs.last() == addrs[n]);
        if first.contains(a) {
            let i = first.index_of(a);
            assert(addrs[i] == first[i]);
        }
        if addrs.contains(a) && addrs[n] != a {
            let i = addrs.index_of(a);
            assert(first[i] == addrs[i]);
        }
    }
}

proof fn lemma_value_last_at<V>(addrs: Seq<Address>, values: Seq<V>, i: int)
    requires
        addrs.len() == values.len(),
        0 <= i < addrs.len(),
        forall|j: int| i < j < addrs.len() ==> #[trigger] addrs[j] != addrs[i],
    ensures
        last_at(addrs, values)[addrs[i]] == values[i],
    decreases addrs.len(),
{
    let n = addrs.len() - 1;
    if i < n {
        let first = addrs.drop_last();
        assert(addrs[n] != addrs[i]);
        assert(first[i] == addrs[i]);
        assert forall|j: int| i < j < first.len() implies #[trigger] first[j] != first[i] by {
            assert(addrs[j] != addrs[i]);
        }
        lemma_value_last_at(first, values.drop_last(), i);
    }
}

proof fn lemma_established_last(
    est: Seq<EstablishedAccountTx>,
    addresses: Map<DerivationView, EstablishedAddress>,
)
    ensures
        established_keys(est, addresses) == last_at(
            addresses_of(est, addresses),
            est.map_values(|tx: EstablishedAccountTx| keys_of(tx)),
        ),
    decreases est.len(),
{
    let f = |tx: EstablishedAccountTx| keys_of(tx);
    if est.len() > 0 {
        lemma_established_last(est.drop_last(), addresses);
        assert(addresses_of(est, addresses).drop_last() =~= addresses_of(
            est.drop_last(),
            addresses,
        ));
        assert(est.map_values(f).drop_last() =~= est.drop_last().map_values(f));
    }
}

proof fn lemma_validators_last(
    val: Seq<SignedValidatorAccountTx>,
    addresses: Map<DerivationView, EstablishedAddress>,
)
    ensures
        validator_keys(val, addresses) == last_at(
            addresses_of(unsigned_accounts(val), addresses),
            val.map_values(|tx: SignedValidatorAccountTx| tx.account_key.pk.raw),
        ),
    decreases val.len(),
{
    let f = |tx: SignedValidatorAccountTx| tx.account_key.pk.raw;
    if val.len() > 0 {
        lemma_validators_last(val.drop_last(), addresses);
        assert(addresses_of(unsigned_accounts(val), addresses).drop_last() =~= addresses_of(
            unsigned_accounts(val.drop_last()),
            addresses,
        ));
        assert(val.map_values(f).drop_last() =~= val.drop_last().map_values(f));
    }
}

proof fn lemma_established_recorded(
    est: Seq<EstablishedAccountTx>,
    addresses: Map<DerivationView, EstablishedAddress>,
    a: Address,
)
    ensures
        established_keys(est, addresses).contains_key(a) <==> exists|i: int|
            0 <= i < est.len() && address_of(addresses, #[trigger] est[i]) == a,
        forall|i: int|
            0 <= i < est.len() && address_of(addresses, #[trigger] est[i]) == a && (forall|j: int|
                i < j < est.len() ==> address_of(addresses, #[trigger] est[j]) != a)
                ==> established_keys(est, addresses)[a] == keys_of(est[i]),
{
    let addrs = addresses_of(est, addresses);
    let values = est.map_values(|tx: EstablishedAccountTx| keys_of(tx));
    lemma_established_last(est, addresses);
    lemma_last_at(addrs, values, a);
    if addrs.contains(a) {
        assert(address_of(addresses, est[addrs.index_of(a)]) == a);
    }
    assert forall|i: int| 0 <= i < est.len() && address_of(addresses, #[trigger] est[i]) == a implies addrs.contains(
        a,
    ) by {
        assert(addrs[i] == a);
    }
    assert forall|i: int|
        0 <= i < est.len() && address_of(addresses, #[trigger] est[i]) == a && (forall|j: int|
            i < j < est.len() ==> address_of(addresses, #[trigger] est[j])
                != a) implies established_keys(est, addresses)[a] == keys_of(est[i]) by {
        assert(addrs[i] == a);
        assert forall|j: int| i < j < addrs.len() implies #[trigger] addrs[j] != a by {
            assert(address_of(addresses, est[j]) != a);
        }
        assert(values[i] == keys_of(est[i]));
        lemma_value_last_at(addrs, values, i);
    }
}

proof fn lemma_validators_recorded(
    val: Seq<SignedValidatorAccountTx>,
    addresses: Map<DerivationView, EstablishedAddress>,
    a: Address,
)
    ensures
        validator_keys(val, addresses).contains_key(a) <==> exists|i: int|
            0 <= i < val.len() && address_of(addresses, without_authorizations(#[trigger] val[i]))
                == a,
        forall|i: int|
            0 <= i < val.len() && address_of(addresses, without_authorizations(#[trigger] val[i]))
                == a && (forall|j: int|
                i < j < val.len() ==> address_of(
                    addresses,
                    without_authorizations(#[trigger] val[j]),
                ) != a) ==> validator_keys(val, addresses)[a] == val[i].account_key.pk.raw,
{
    let addrs = addresses_of(unsigned_accounts(val), addresses);
    let values = val.map_values(|tx: SignedValidatorAccountTx| tx.account_key.pk.raw);
    lemma_validators_last(val, addresses);
    lemma_last_at(addrs, values, a);
    assert forall|i: int| 0 <= i < val.len() implies #[trigger] addrs[i] == address_of(
        addresses,
        without_authorizations(val[i]),
    ) by {}
    if addrs.contains(a) {
        let i = addrs.index_of(a);
        assert(addrs[i] == a);
        assert(address_of(addresses, without_authorizations(val[i])) == a);
    }
    assert forall|i: int|
        0 <= i < val.len() && address_of(addresses, without_authorizations(#[trigger] val[i]))
            == a implies addrs.contains(a) by {
        assert(addrs[i] == a);
    }
    assert forall|i: int|
        0 <= i < val.len() && address_of(addresses, without_authorizations(#[trigger] val[i])) == a
            && (forall|j: int|
            i < j < val.len() ==> address_of(addresses, without_authorizations(#[trigger] val[j]))
                != a) implies validator_keys(val, addresses)[a] == val[i].account_key.pk.raw by {
        assert(addrs[i] == a);
        assert forall|j: int| i < j < addrs.len() implies #[trigger] addrs[j] != a by {
            assert(address_of(addresses, without_authorizations(val[j])) != a);
        }
        assert(values[i] == val[i].account_key.pk.raw);
        lemma_value_last_at(addrs, values, i);
    }
}

} // verus!
