//! Validation of account transactions.

use crate::account::{
    without_authorizations, EstablishedAccountTx, SignedPk, SignedValidatorAccountTx,
    UnsignedValidatorAccountTx, ValidatorAccountTx,
};
use crate::address::{Address, EstablishedAddress};
use crate::amount::rate_in_bounds;
use crate::answers::{
    accepts, address_of, has_address, AddressBook, DerivationView, DeriveEstablishedAddress,
    SignatureCheckView, Verdicts,
};
use crate::bond::validate_signature;
use crate::codec::Encode;
use crate::keys::{PublicKey, StringEncoded};
use crate::signing::accounts_known;
use crate::table::Table;
use crate::templates::ValidityPredicates;
use vstd::prelude::*;

verus! {

/// The keys of an account, and how many of them have to sign for it.
#[derive(Debug)]
pub struct AccountKeys {
    pub public_keys: Vec<PublicKey>,
    pub threshold: u8,
}

/// The contents of [`AccountKeys`].
#[verifier::ext_equal]
pub struct AccountKeysView {
    pub public_keys: Seq<PublicKey>,
    pub threshold: u8,
}

impl View for AccountKeys {
    type V = AccountKeysView;

    open spec fn view(&self) -> AccountKeysView {
        AccountKeysView { public_keys: self.public_keys@, threshold: self.threshold }
    }
}

/// The public keys without the form that they are written in.
pub open spec fn raw_keys(keys: Seq<StringEncoded<PublicKey>>) -> Seq<PublicKey> {
    keys.map_values(|k: StringEncoded<PublicKey>| k.raw)
}

/// The keys of the account that `tx` establishes.
pub open spec fn keys_of(tx: EstablishedAccountTx) -> AccountKeysView {
    AccountKeysView { public_keys: raw_keys(tx.public_keys@), threshold: tx.threshold }
}

/// Whether there is a validity predicate of that name.
pub open spec fn vp_exists(vps: Option<&ValidityPredicates>, name: Seq<char>) -> bool {
    vps matches Some(vps) && vps.wasm@.contains_key(name)
}

/// Whether an account transaction is valid by itself.
pub open spec fn established_account_ok(
    tx: EstablishedAccountTx,
    vps: Option<&ValidityPredicates>,
) -> bool {
    &&& tx.threshold != 0
    &&& vp_exists(vps, tx.vp@)
    &&& tx.public_keys@.len() > 0
}

/// Whether `key` is authorized by its signature on `message`.
pub open spec fn key_authorized(
    key: SignedPk,
    message: Seq<u8>,
    verdicts: Map<SignatureCheckView, bool>,
) -> bool {
    accepts(verdicts, message, key.pk.raw, key.authorization.raw)
}

/// Whether every key of a validator account is authorized.
pub open spec fn authorizations_valid(
    tx: SignedValidatorAccountTx,
    verdicts: Map<SignatureCheckView, bool>,
) -> bool {
    let message = without_authorizations(tx).encoding();
    &&& key_authorized(tx.account_key, message, verdicts)
    &&& key_authorized(tx.consensus_key, message, verdicts)
    &&& key_authorized(tx.protocol_key, message, verdicts)
    &&& key_authorized(tx.tendermint_node_key, message, verdicts)
    &&& key_authorized(tx.eth_hot_key, message, verdicts)
    &&& key_authorized(tx.eth_cold_key, message, verdicts)
}

/// Whether a validator account is valid by itself.
pub open spec fn validator_account_ok(
    tx: SignedValidatorAccountTx,
    vps: Option<&ValidityPredicates>,
    verdicts: Map<SignatureCheckView, bool>,
) -> bool {
    &&& vp_exists(vps, tx.vp@)
    &&& rate_in_bounds(tx.commission_rate)
    &&& authorizations_valid(tx, verdicts)
}

/// Whether a validator account is valid, given the addresses that are in use before
/// it.
pub open spec fn validator_accepted(
    tx: SignedValidatorAccountTx,
    vps: Option<&ValidityPredicates>,
    addresses: Map<DerivationView, EstablishedAddress>,
    verdicts: Map<SignatureCheckView, bool>,
    used: Map<Address, ()>,
) -> bool {
    &&& validator_account_ok(tx, vps, verdicts)
    &&& !used.contains_key(address_of(addresses, without_authorizations(tx)))
}

/// Whether there is a validity predicate of that name.
pub(crate) fn has_vp(vps: Option<&ValidityPredicates>, name: &String) -> (r: bool)
    ensures
        r == vp_exists(vps, name@),
{
    match vps {
        Some(vps) => vps.wasm.contains_key(name),
        None => false,
    }
}

/// The public keys without the form that they are written in.
fn copy_raw_keys(keys: &Vec<StringEncoded<PublicKey>>) -> (r: Vec<PublicKey>)
    ensures
        r@ == raw_keys(keys@),
{
    let mut r: Vec<PublicKey> = Vec::new();
    let mut i: usize = 0;
    while i < keys.len()
        invariant
            i <= keys@.len(),
            r@ == raw_keys(keys@).take(i as int),
        decreases keys@.len() - i,
    {
        r.push(keys[i].raw);
        i = i + 1;
        assert(r@ =~= raw_keys(keys@).take(i as int));
    }
    assert(r@ =~= raw_keys(keys@));
    r
}

/// Validate the transaction of an established account, and record the account.
pub fn validate_established_account(
    tx: &EstablishedAccountTx,
    vps: Option<&ValidityPredicates>,
    addresses: &AddressBook,
    all_used_addresses: &mut Table<Address, ()>,
    established_accounts: &mut Table<Address, AccountKeys>,
) -> (r: bool)
    requires
        tx.fits(),
        has_address(addresses@, *tx),
    ensures
        r == (established_account_ok(*tx, vps) && !old(all_used_addresses)@.contains_key(
            address_of(addresses@, *tx),
        )),
        final(all_used_addresses)@ == old(all_used_addresses)@.insert(
            address_of(addresses@, *tx),
            (),
        ),
        final(established_accounts)@ == old(established_accounts)@.insert(
            address_of(addresses@, *tx),
            keys_of(*tx),
        ),
{
    let mut is_valid: bool = true;
    let established_address: Address = tx.derive_address(addresses);
    if tx.threshold == 0 {
        is_valid = false;
    }
    established_accounts.insert(
        established_address,
        AccountKeys { public_keys: copy_raw_keys(&tx.public_keys), threshold: tx.threshold },
    );

    // Check that the established address is unique
    if all_used_addresses.contains_key(&established_address) {
        is_valid = false;
        assert(all_used_addresses@.insert(established_address, ()) =~= all_used_addresses@);
    } else {
        all_used_addresses.insert(established_address, ());
    }

    // Check the VP exists
    if !has_vp(vps, &tx.vp) {
        is_valid = false;
    }
    if tx.public_keys.len() == 0 {
        is_valid = false;
    }
    is_valid
}

/// Validate the transaction of a validator account, and record the account.
pub fn validate_validator_account(
    tx: &ValidatorAccountTx<SignedPk>,
    vps: Option<&ValidityPredicates>,
    addresses: &AddressBook,
    verdicts: &Verdicts,
    all_used_addresses: &mut Table<Address, ()>,
    validator_accounts: &mut Table<Address, PublicKey>,
) -> (r: bool)
    requires
        without_authorizations(*tx).fits(),
        has_address(addresses@, without_authorizations(*tx)),
    ensures
        r == validator_accepted(*tx, vps, addresses@, verdicts@, old(all_used_addresses)@),
        final(all_used_addresses)@ == old(all_used_addresses)@.insert(
            address_of(addresses@, without_authorizations(*tx)),
            (),
        ),
        final(validator_accounts)@ == old(validator_accounts)@.insert(
            address_of(addresses@, without_authorizations(*tx)),
            tx.account_key.pk.raw,
        ),
{
    let mut is_valid: bool = true;
    let unsigned: UnsignedValidatorAccountTx = UnsignedValidatorAccountTx::from(tx);
    let established_address: Address = unsigned.derive_address(addresses);
    validator_accounts.insert(established_address, tx.account_key.pk.raw);

    // Check that address is unique
    if all_used_addresses.contains_key(&established_address) {
        is_valid = false;
        assert(all_used_addresses@.insert(established_address, ()) =~= all_used_addresses@);
    } else {
        all_used_addresses.insert(established_address, ());
    }

    // Check the VP exists
    if !has_vp(vps, &tx.vp) {
        is_valid = false;
    }
    // Check that the commission rate is bounded inside 0-1
    if !tx.commission_rate.is_rate() {
        is_valid = false;
    }
    // Check keys authorizations
    if !validate_signature(
        &unsigned,
        &tx.account_key.pk.raw,
        &tx.account_key.authorization.raw,
        verdicts,
    ) {
        is_valid = false;
    }
    if !validate_signature(
        &unsigned,
        &tx.consensus_key.pk.raw,
        &tx.consensus_key.authorization.raw,
        verdicts,
    ) {
        is_valid = false;
    }
    if !validate_signature(
        &unsigned,
        &tx.protocol_key.pk.raw,
        &tx.protocol_key.authorization.raw,
        verdicts,
    ) {
        is_valid = false;
    }
    if !validate_signature(
        &unsigned,
        &tx.tendermint_node_key.pk.raw,
        &tx.tendermint_node_key.authorization.raw,
        verdicts,
    ) {
        is_valid = false;
    }
    if !validate_signature(
        &unsigned,
        &tx.eth_hot_key.pk.raw,
        &tx.eth_hot_key.authorization.raw,
        verdicts,
    ) {
        is_valid = false;
    }
    if !validate_signature(
        &unsigned,
        &tx.eth_cold_key.pk.raw,
        &tx.eth_cold_key.authorization.raw,
        verdicts,
    ) {
        is_valid = false;
    }
    is_valid
}

/// The account transactions of validators, without the authorizations.
pub open spec fn unsigned_accounts(txs: Seq<SignedValidatorAccountTx>) -> Seq<
    UnsignedValidatorAccountTx,
> {
    txs.map_values(|tx: SignedValidatorAccountTx| without_authorizations(tx))
}

/// The addresses of the accounts that the transactions establish.
pub open spec fn addresses_of<T: DeriveEstablishedAddress>(
    txs: Seq<T>,
    addresses: Map<DerivationView, EstablishedAddress>,
) -> Seq<Address> {
    txs.map_values(|tx: T| address_of(addresses, tx))
}

/// The keys of the established accounts. Of accounts at the same address, the
/// last one counts.
pub open spec fn established_keys(
    txs: Seq<EstablishedAccountTx>,
    addresses: Map<DerivationView, EstablishedAddress>,
) -> Map<Address, AccountKeysView>
    decreases txs.len(),
{
    if txs.len() == 0 {
        Map::empty()
    } else {
        established_keys(txs.drop_last(), addresses).insert(
            address_of(addresses, txs.last()),
            keys_of(txs.last()),
        )
    }
}

/// The account keys of the validators. Of accounts at the same address, the last
/// one counts.
pub open spec fn validator_keys(
    txs: Seq<SignedValidatorAccountTx>,
    addresses: Map<DerivationView, EstablishedAddress>,
) -> Map<Address, PublicKey>
    decreases txs.len(),
{
    if txs.len() == 0 {
        Map::empty()
    } else {
        validator_keys(txs.drop_last(), addresses).insert(
            address_of(addresses, without_authorizations(txs.last())),
            txs.last().account_key.pk.raw,
        )
    }
}

/// Whether every account transaction is valid, and no two accounts share an
/// address.
pub open spec fn accounts_valid(
    established: Seq<EstablishedAccountTx>,
    validators: Seq<SignedValidatorAccountTx>,
    vps: Option<&ValidityPredicates>,
    addresses: Map<DerivationView, EstablishedAddress>,
    verdicts: Map<SignatureCheckView, bool>,
) -> bool {
    &&& forall|i: int|
        0 <= i < established.len() ==> established_account_ok(#[trigger] established[i], vps)
    &&& forall|i: int|
        0 <= i < validators.len() ==> validator_account_ok(
            #[trigger] validators[i],
            vps,
            verdicts,
        )
    &&& (addresses_of(established, addresses) + addresses_of(
        unsigned_accounts(validators),
        addresses,
    )).no_duplicates()
}

/// Adding an account to a list keeps the addresses distinct if its own is new.
pub(crate) proof fn lemma_push_distinct(addrs: Seq<Address>, address: Address)
    ensures
        addrs.push(address).no_duplicates() <==> addrs.no_duplicates() && !addrs.contains(address),
{
    let after = addrs.push(address);
    if after.no_duplicates() {
        assert forall|i: int, j: int|
            0 <= i < addrs.len() && 0 <= j < addrs.len() && i != j implies addrs[i] != addrs[j] by {
            assert(after[i] != after[j]);
        }
        if addrs.contains(address) {
            let i = addrs.index_of(address);
            assert(after[i] == after[addrs.len() as int]);
        }
    }
}

/// Validate the transactions of established accounts, and record the accounts.
pub(crate) fn validate_established_accounts(
    txs: &Vec<EstablishedAccountTx>,
    vps: Option<&ValidityPredicates>,
    addresses: &AddressBook,
    all_used_addresses: &mut Table<Address, ()>,
    established_accounts: &mut Table<Address, AccountKeys>,
) -> (r: bool)
    requires
        accounts_known(txs@, addresses@),
        old(all_used_addresses)@ == Map::<Address, ()>::empty(),
        old(established_accounts)@ == Map::<Address, AccountKeysView>::empty(),
    ensures
        r == ((forall|i: int|
            0 <= i < txs@.len() ==> established_account_ok(#[trigger] txs@[i], vps))
            && addresses_of(txs@, addresses@).no_duplicates()),
        forall|a: Address| #[trigger]
            final(all_used_addresses)@.contains_key(a) <==> addresses_of(
                txs@,
                addresses@,
            ).contains(a),
        final(established_accounts)@ == established_keys(txs@, addresses@),
{
    let ghost addrs = addresses_of(txs@, addresses@);
    let mut is_valid: bool = true;
    let mut i: usize = 0;
    assert(txs@.take(0) =~= Seq::empty());
    while i < txs.len()
        invariant
            i <= txs@.len(),
            addrs == addresses_of(txs@, addresses@),
            accounts_known(txs@, addresses@),
            is_valid == ((forall|j: int|
                0 <= j < i ==> established_account_ok(#[trigger] txs@[j], vps)) && addrs.take(
                i as int,
            ).no_duplicates()),
            forall|a: Address| #[trigger]
                all_used_addresses@.contains_key(a) <==> addrs.take(i as int).contains(a),
            established_accounts@ == established_keys(txs@.take(i as int), addresses@),
        decreases txs@.len() - i,
    {
        let ghost address = addrs[i as int];
        assert(txs@[i as int].fits());
        assert(txs@.take(i + 1).drop_last() =~= txs@.take(i as int));
        assert(addrs.take(i + 1) =~= addrs.take(i as int).push(address));
        proof {
            lemma_push_distinct(addrs.take(i as int), address);
        }
        let ghost before = all_used_addresses@;
        if !validate_established_account(
            &txs[i],
            vps,
            addresses,
            all_used_addresses,
            established_accounts,
        ) {
            is_valid = false;
        }
        assert forall|a: Address| #[trigger]
            all_used_addresses@.contains_key(a) <==> addrs.take(i + 1).contains(a) by {
            lemma_push_contains(addrs.take(i as int), address, a);
            assert(before.contains_key(a) <==> addrs.take(i as int).contains(a));
        }
        i = i + 1;
    }
    assert(txs@.take(i as int) =~= txs@);
    assert(addrs.take(i as int) =~= addrs);
    is_valid
}

/// What a list with one more address holds.
pub(crate) proof fn lemma_push_contains(addrs: Seq<Address>, address: Address, a: Address)
    ensures
        addrs.push(address).contains(a) <==> addrs.contains(a) || a == address,
{
    let after = addrs.push(address);
    assert(after[addrs.len() as int] == address);
    if addrs.contains(a) {
        assert(after[addrs.index_of(a)] == a);
    }
    if after.contains(a) && a != address {
        assert(addrs[after.index_of(a)] == a);
    }
}

/// Validate the transactions of validator accounts, and record the accounts.
/// `taken` are the addresses that are in use already.
pub(crate) fn validate_validator_accounts(
    txs: &Vec<SignedValidatorAccountTx>,
    vps: Option<&ValidityPredicates>,
    addresses: &AddressBook,
    verdicts: &Verdicts,
    Ghost(taken): Ghost<Seq<Address>>,
    all_used_addresses: &mut Table<Address, ()>,
    validator_accounts: &mut Table<Address, PublicKey>,
) -> (r: bool)
    requires
        accounts_known(unsigned_accounts(txs@), addresses@),
        forall|a: Address| #[trigger]
            old(all_used_addresses)@.contains_key(a) <==> taken.contains(a),
        old(validator_accounts)@ == Map::<Address, PublicKey>::empty(),
    ensures
        taken.no_duplicates() ==> r == ((forall|i: int|
            0 <= i < txs@.len() ==> validator_account_ok(#[trigger] txs@[i], vps, verdicts@)) && (
        taken + addresses_of(unsigned_accounts(txs@), addresses@)).no_duplicates()),
        final(validator_accounts)@ == validator_keys(txs@, addresses@),
{
    let ghost addrs = addresses_of(unsigned_accounts(txs@), addresses@);
    let mut is_valid: bool = true;
    let mut i: usize = 0;
    assert(txs@.take(0) =~= Seq::empty());
    assert(taken + addrs.take(0) =~= taken);
    while i < txs.len()
        invariant
            i <= txs@.len(),
            addrs == addresses_of(unsigned_accounts(txs@), addresses@),
            accounts_known(unsigned_accounts(txs@), addresses@),
            taken.no_duplicates() ==> is_valid == ((forall|j: int|
                0 <= j < i ==> validator_account_ok(#[trigger] txs@[j], vps, verdicts@)) && (taken
                + addrs.take(i as int)).no_duplicates()),
            forall|a: Address| #[trigger]
                all_used_addresses@.contains_key(a) <==> (taken + addrs.take(i as int)).contains(a),
            validator_accounts@ == validator_keys(txs@.take(i as int), addresses@),
        decreases txs@.len() - i,
    {
        let ghost address = addrs[i as int];
        let ghost so_far = taken + addrs.take(i as int);
        assert(unsigned_accounts(txs@)[i as int].fits());
        assert(txs@.take(i + 1).drop_last() =~= txs@.take(i as int));
        assert(taken + addrs.take(i + 1) =~= so_far.push(address));
        proof {
            lemma_push_distinct(so_far, address);
        }
        let ghost before = all_used_addresses@;
        if !validate_validator_account(
            &txs[i],
            vps,
            addresses,
            verdicts,
            all_used_addresses,
            validator_accounts,
        ) {
            is_valid = false;
        }
        assert forall|a: Address| #[trigger]
            all_used_addresses@.contains_key(a) <==> (taken + addrs.take(i + 1)).contains(a) by {
            lemma_push_contains(so_far, address, a);
            assert(before.contains_key(a) <==> so_far.contains(a));
        }
        i = i + 1;
    }
    assert(txs@.take(i as int) =~= txs@);
    assert(addrs.take(i as int) =~= addrs);
    is_valid
}

} // verus!
