//! Signing of genesis transactions.

use crate::account::{
    default_threshold, lemma_validator_can_sign, sign_validator_account_tx, validator_can_sign,
    validator_secrets, validator_signing_requests, with_authorizations, without_authorizations,
    EstablishedAccountTx, EstablishedAccountView, SignedValidatorAccountTx,
    UnsignedValidatorAccountTx, ValidatorAccountTx, ValidatorAccountView,
};
use crate::address::{Address, EstablishedAddress, GenesisAddress, ImplicitAddress, SocketAddr};
use crate::amount::{Dec, DenominatedAmount};
use crate::answers::{
    answers_requests, can_sign, established_address_of, has_address, lemma_requests_concat,
    requests_signature, AddressBook, DerivationView, DeriveEstablishedAddress, ImplicitBook,
    SignatureBook, SigningRequest, SigningRequestView,
};
use crate::bond::{all_can_sign, bond_message, signatures_by, BondTx, SignedBondTx};
use crate::codec::{option_chars, Encode};
use crate::keys::{
    secret_of, KeyPair, PublicKey, SecretKey, Signature, StringEncoded, ValidatorWallet, Wallet,
};
use crate::table::Key;
use crate::templates::Unvalidated;
use crate::transactions::{contents, items, Transactions, UnsignedTransactions};
use vstd::prelude::*;

verus! {

/// The secret keys that the wallet has for the public keys.
pub open spec fn secrets_of(
    wallet: Seq<KeyPair>,
    pks: Seq<StringEncoded<PublicKey>>,
) -> Seq<SecretKey>
    decreases pks.len(),
{
    if pks.len() == 0 {
        Seq::empty()
    } else {
        let rest = secrets_of(wallet, pks.drop_last());
        match secret_of(wallet, pks.last().raw) {
            Some(sk) => rest.push(sk),
            None => rest,
        }
    }
}

/// The public keys of the first account at `address`.
pub open spec fn account_keys(
    accounts: Seq<EstablishedAccountTx>,
    address: EstablishedAddress,
    addresses: Map<DerivationView, EstablishedAddress>,
) -> Option<Seq<StringEncoded<PublicKey>>>
    decreases accounts.len(),
{
    if accounts.len() == 0 {
        None
    } else if established_address_of(addresses, accounts[0]) == address {
        Some(accounts[0].public_keys@)
    } else {
        account_keys(accounts.drop_first(), address, addresses)
    }
}

/// The secret keys that sign for `source`. There is no answer where the source
/// is neither in the wallet nor among the established accounts.
pub open spec fn signing_keys(
    source: GenesisAddress,
    wallet: Seq<KeyPair>,
    established_accounts: Option<Seq<EstablishedAccountTx>>,
    addresses: Map<DerivationView, EstablishedAddress>,
) -> Option<Seq<SecretKey>> {
    match source {
        GenesisAddress::PublicKey(pk) => match secret_of(wallet, pk.raw) {
            Some(sk) => Some(seq![sk]),
            None => match established_accounts {
                Some(accounts) => if accounts.len() > 0 {
                    Some(Seq::empty())
                } else {
                    None
                },
                None => None,
            },
        },
        GenesisAddress::EstablishedAddress(address) => match established_accounts {
            Some(accounts) => match account_keys(accounts, address, addresses) {
                Some(pks) => Some(secrets_of(wallet, pks)),
                None => None,
            },
            None => None,
        },
    }
}

/// Whether every account transaction can be encoded, and its address is known.
pub open spec fn accounts_known<T: DeriveEstablishedAddress>(
    accounts: Seq<T>,
    addresses: Map<DerivationView, EstablishedAddress>,
) -> bool {
    forall|i: int|
        0 <= i < accounts.len() ==> (#[trigger] accounts[i]).fits() && has_address(
            addresses,
            accounts[i],
        )
}

/// The secret keys that the wallet has for the public keys.
fn find_keys(wallet: &Wallet, pks: &Vec<StringEncoded<PublicKey>>) -> (r: Vec<SecretKey>)
    ensures
        r@ == secrets_of(wallet.keys@, pks@),
{
    let mut r: Vec<SecretKey> = Vec::new();
    let mut i: usize = 0;
    assert(pks@.take(0) =~= Seq::empty());
    while i < pks.len()
        invariant
            i <= pks@.len(),
            r@ == secrets_of(wallet.keys@, pks@.take(i as int)),
        decreases pks@.len() - i,
    {
        assert(pks@.take(i + 1).drop_last() =~= pks@.take(i as int));
        match wallet.find_key_by_pk(&pks[i].raw) {
            Some(sk) => {
                r.push(sk);
            },
            None => {},
        }
        i = i + 1;
    }
    assert(pks@.take(i as int) =~= pks@);
    r
}

/// The secret keys that sign for `source`, if it is in the wallet or among the
/// established accounts.
pub fn find_signing_keys(
    source: &GenesisAddress,
    wallet: &Wallet,
    established_accounts: &Option<Vec<EstablishedAccountTx>>,
    addresses: &AddressBook,
) -> (r: Option<Vec<SecretKey>>)
    requires
        accounts_known(items(*established_accounts), addresses@),
    ensures
        contents(r) == signing_keys(
            *source,
            wallet.keys@,
            contents(*established_accounts),
            addresses@,
        ),
{
    match source {
        GenesisAddress::PublicKey(pk) => {
            let mut keys: Vec<SecretKey> = Vec::new();
            match wallet.find_key_by_pk(&pk.raw) {
                Some(sk) => {
                    keys.push(sk);
                    assert(keys@ =~= seq![sk]);
                    Some(keys)
                },
                None => match established_accounts {
                    Some(accounts) => if accounts.len() > 0 {
                        Some(keys)
                    } else {
                        None
                    },
                    None => None,
                },
            }
        },
        GenesisAddress::EstablishedAddress(address) => match established_accounts {
            Some(accounts) => {
                let mut i: usize = 0;
                assert(accounts@.skip(0) =~= accounts@);
                while i < accounts.len()
                    invariant
                        i <= accounts@.len(),
                        *source == GenesisAddress::EstablishedAddress(*address),
                        contents(*established_accounts) == Some(accounts@),
                        accounts_known(accounts@, addresses@),
                        account_keys(accounts@, *address, addresses@) == account_keys(
                            accounts@.skip(i as int),
                            *address,
                            addresses@,
                        ),
                    decreases accounts@.len() - i,
                {
                    assert(accounts@[i as int].fits());
                    assert(accounts@.skip(i as int).drop_first() =~= accounts@.skip(i + 1));
                    let found: EstablishedAddress =
                        accounts[i].derive_established_address(addresses);
                    if found.same(address) {
                        return Some(find_keys(wallet, &accounts[i].public_keys));
                    }
                    i = i + 1;
                }
                None
            },
            None => None,
        },
    }
}

/// Look up the secret keys that sign for `source`, which has to be in the wallet or
/// among the established accounts.
pub fn look_up_sk_from(
    source: &GenesisAddress,
    wallet: &Wallet,
    established_accounts: &Option<Vec<EstablishedAccountTx>>,
    addresses: &AddressBook,
) -> (r: Vec<SecretKey>)
    requires
        accounts_known(items(*established_accounts), addresses@),
        signing_keys(*source, wallet.keys@, contents(*established_accounts), addresses@) is Some,
    ensures
        Some(r@) == signing_keys(
            *source,
            wallet.keys@,
            contents(*established_accounts),
            addresses@,
        ),
{
    find_signing_keys(source, wallet, established_accounts, addresses).unwrap()
}

/// Sign the self-bond of a validator.
pub fn sign_self_bond_tx(
    unsigned_tx: BondTx<Unvalidated>,
    validator_wallet: &ValidatorWallet,
    signatures: &SignatureBook,
) -> (r: SignedBondTx<Unvalidated>)
    requires
        can_sign(
            signatures@,
            validator_wallet.account_key.secret,
            bond_message(unsigned_tx.source, unsigned_tx.validator, unsigned_tx.amount),
        ),
    ensures
        r.data == unsigned_tx,
        r.signatures@ == signatures_by(
            seq![validator_wallet.account_key.secret],
            bond_message(unsigned_tx.source, unsigned_tx.validator, unsigned_tx.amount),
            signatures@,
        ),
{
    let mut keys: Vec<SecretKey> = Vec::new();
    keys.push(validator_wallet.account_key.secret);
    assert(keys@ =~= seq![validator_wallet.account_key.secret]);
    let mut signed: SignedBondTx<Unvalidated> = SignedBondTx::from(unsigned_tx);
    signed.sign(keys.as_slice(), signatures);
    signed
}

/// Whether it is known how the keys of the source sign `bond`.
pub open spec fn delegation_can_sign(
    bond: BondTx<Unvalidated>,
    wallet: Seq<KeyPair>,
    established_accounts: Option<Seq<EstablishedAccountTx>>,
    addresses: Map<DerivationView, EstablishedAddress>,
    signatures: Map<SigningRequestView, Signature>,
) -> bool {
    &&& signing_keys(bond.source, wallet, established_accounts, addresses) matches Some(keys)
    &&& all_can_sign(keys, bond_message(bond.source, bond.validator, bond.amount), signatures)
}

/// Whether `signed` is `bond` with the signatures of the keys of its source.
pub open spec fn is_signed_delegation(
    signed: SignedBondTx<Unvalidated>,
    bond: BondTx<Unvalidated>,
    wallet: Seq<KeyPair>,
    established_accounts: Option<Seq<EstablishedAccountTx>>,
    addresses: Map<DerivationView, EstablishedAddress>,
    signatures: Map<SigningRequestView, Signature>,
) -> bool {
    &&& signed.data == bond
    &&& signing_keys(bond.source, wallet, established_accounts, addresses) matches Some(keys)
    &&& signed.signatures@ == signatures_by(
        keys,
        bond_message(bond.source, bond.validator, bond.amount),
        signatures,
    )
}

/// Sign the bond of a delegator.
pub fn sign_delegation_bond_tx(
    unsigned_tx: BondTx<Unvalidated>,
    wallet: &Wallet,
    established_accounts: &Option<Vec<EstablishedAccountTx>>,
    addresses: &AddressBook,
    signatures: &SignatureBook,
) -> (r: SignedBondTx<Unvalidated>)
    requires
        accounts_known(items(*established_accounts), addresses@),
        delegation_can_sign(
            unsigned_tx,
            wallet.keys@,
            contents(*established_accounts),
            addresses@,
            signatures@,
        ),
    ensures
        is_signed_delegation(
            r,
            unsigned_tx,
            wallet.keys@,
            contents(*established_accounts),
            addresses@,
            signatures@,
        ),
{
    let source_key: Vec<SecretKey> = look_up_sk_from(
        &unsigned_tx.source,
        wallet,
        established_accounts,
        addresses,
    );
    let mut signed: SignedBondTx<Unvalidated> = SignedBondTx::from(unsigned_tx);
    signed.sign(source_key.as_slice(), signatures);
    signed
}

/// The address of the account that `source` names.
pub open spec fn genesis_address_of(
    source: GenesisAddress,
    implicit: Map<PublicKey, ImplicitAddress>,
) -> Address {
    match source {
        GenesisAddress::EstablishedAddress(address) => Address::Established(address),
        GenesisAddress::PublicKey(pk) => Address::Implicit(implicit[pk.raw]),
    }
}

/// Whether the address of the account that `source` names is known.
pub open spec fn has_genesis_address(
    source: GenesisAddress,
    implicit: Map<PublicKey, ImplicitAddress>,
) -> bool {
    source matches GenesisAddress::PublicKey(pk) ==> implicit.contains_key(pk.raw)
}

impl GenesisAddress {
    /// The address of the account.
    pub fn address(&self, implicit: &ImplicitBook) -> (r: Address)
        requires
            has_genesis_address(*self, implicit@),
        ensures
            r == genesis_address_of(*self, implicit@),
    {
        match self {
            GenesisAddress::EstablishedAddress(address) => Address::Established(*address),
            GenesisAddress::PublicKey(pk) => Address::Implicit(*implicit.get(&pk.raw).unwrap()),
        }
    }
}

/// Whether the addresses of the sources of the bonds are known.
pub open spec fn sources_known(
    bonds: Seq<BondTx<Unvalidated>>,
    implicit: Map<PublicKey, ImplicitAddress>,
) -> bool {
    forall|i: int|
        0 <= i < bonds.len() ==> has_genesis_address((#[trigger] bonds[i]).source, implicit)
}

/// Whether a validator bonds to itself.
pub open spec fn is_self_bond(
    bond: BondTx<Unvalidated>,
    implicit: Map<PublicKey, ImplicitAddress>,
) -> bool {
    genesis_address_of(bond.source, implicit) == bond.validator
}

/// Why transactions cannot be signed with the wallet of a user.
#[derive(Clone, Copy, Debug, PartialEq, Eq, Structural)]
pub enum SignTxsError {
    /// Validator transactions must be signed with a validator wallet.
    ValidatorAccount,
    /// Validator self-bonds must be signed with a validator wallet.
    SelfBond,
}

/// Whether there are validator accounts among the transactions.
pub open spec fn has_validator_accounts(txs: UnsignedTransactions) -> bool {
    items(txs.validator_account).len() > 0
}

/// Whether there is a self-bond among the transactions.
pub open spec fn has_self_bond(
    txs: UnsignedTransactions,
    implicit: Map<PublicKey, ImplicitAddress>,
) -> bool {
    exists|i: int|
        0 <= i < items(txs.bond).len() && is_self_bond(#[trigger] items(txs.bond)[i], implicit)
}

/// Whether the transactions are of kinds that the wallet of a user can sign.
pub fn check_signable(txs: &UnsignedTransactions, implicit: &ImplicitBook) -> (r: Result<
    (),
    SignTxsError,
>)
    requires
        sources_known(items(txs.bond), implicit@),
    ensures
        match r {
            Ok(_) => !has_validator_accounts(*txs) && !has_self_bond(*txs, implicit@),
            Err(SignTxsError::ValidatorAccount) => has_validator_accounts(*txs),
            Err(SignTxsError::SelfBond) => !has_validator_accounts(*txs) && has_self_bond(
                *txs,
                implicit@,
            ),
        },
{
    match &txs.validator_account {
        Some(accounts) => {
            if accounts.len() > 0 {
                return Err(SignTxsError::ValidatorAccount);
            }
        },
        None => {},
    }
    match &txs.bond {
        Some(bonds) => {
            let mut i: usize = 0;
            while i < bonds.len()
                invariant
                    i <= bonds@.len(),
                    items(txs.bond) == bonds@,
                    !has_validator_accounts(*txs),
                    sources_known(bonds@, implicit@),
                    forall|j: int| 0 <= j < i ==> !is_self_bond(#[trigger] bonds@[j], implicit@),
                decreases bonds@.len() - i,
            {
                assert(has_genesis_address(bonds@[i as int].source, implicit@));
                if bonds[i].source.address(implicit).same(&bonds[i].validator) {
                    assert(is_self_bond(items(txs.bond)[i as int], implicit@));
                    return Err(SignTxsError::SelfBond);
                }
                i = i + 1;
            }
        },
        None => {},
    }
    Ok(())
}

/// Whether it is known how the keys of the sources sign the bonds.
pub open spec fn delegations_can_sign(
    bonds: Seq<BondTx<Unvalidated>>,
    wallet: Seq<KeyPair>,
    established_accounts: Option<Seq<EstablishedAccountTx>>,
    addresses: Map<DerivationView, EstablishedAddress>,
    signatures: Map<SigningRequestView, Signature>,
) -> bool {
    forall|i: int|
        0 <= i < bonds.len() ==> delegation_can_sign(
            #[trigger] bonds[i],
            wallet,
            established_accounts,
            addresses,
            signatures,
        )
}

/// The public keys whose implicit addresses have to be known to tell which of the
/// bonds are self-bonds: those that are the source of a bond.
pub fn implicit_questions(bonds: &Option<Vec<BondTx<Unvalidated>>>) -> (r: Vec<PublicKey>)
    ensures
        forall|pk: PublicKey| #[trigger]
            r@.contains(pk) <==> is_implicit_source(items(*bonds), pk),
        forall|implicit: Map<PublicKey, ImplicitAddress>| #[trigger]
            sources_known(items(*bonds), implicit) <==> forall|pk: PublicKey| #[trigger]
                r@.contains(pk) ==> implicit.contains_key(pk),
{
    let mut r: Vec<PublicKey> = Vec::new();
    match bonds {
        Some(txs) => {
            let mut i: usize = 0;
            while i < txs.len()
                invariant
                    i <= txs@.len(),
                    forall|pk: PublicKey| #[trigger]
                        r@.contains(pk) <==> is_implicit_source(txs@.take(i as int), pk),
                decreases txs@.len() - i,
            {
                let ghost before = r@;
                match txs[i].source {
                    GenesisAddress::PublicKey(pk) => {
                        r.push(pk.raw);
                    },
                    GenesisAddress::EstablishedAddress(_) => {},
                }
                i = i + 1;
                proof {
                    let (first, last) = (txs@.take(i - 1), txs@.take(i as int));
                    assert forall|pk: PublicKey| #[trigger]
                        r@.contains(pk) <==> is_implicit_source(last, pk) by {
                        assert(before.contains(pk) <==> is_implicit_source(first, pk));
                        if before.contains(pk) {
                            assert(r@[before.index_of(pk)] == pk);
                            let j = choose|j: int|
                                0 <= j < first.len() && names_key((#[trigger] first[j]).source, pk);
                            assert(names_key(last[j].source, pk));
                        }
                        if r@.contains(pk) && !before.contains(pk) {
                            let j = r@.index_of(pk);
                            if j < before.len() {
                                assert(before[j] == pk);
                            }
                            assert(names_key(last[i - 1].source, pk));
                        }
                        if is_implicit_source(last, pk) {
                            let j = choose|j: int|
                                0 <= j < last.len() && names_key((#[trigger] last[j]).source, pk);
                            if j < i - 1 {
                                assert(names_key(first[j].source, pk));
                            } else {
                                assert(r@[before.len() as int] == pk);
                            }
                        }
                    }
                }
            }
            assert(txs@.take(i as int) =~= txs@);
        },
        None => {},
    }
    proof {
        let all = items(*bonds);
        assert forall|implicit: Map<PublicKey, ImplicitAddress>| #[trigger]
            sources_known(all, implicit) <==> forall|pk: PublicKey| #[trigger]
                r@.contains(pk) ==> implicit.contains_key(pk) by {
            if sources_known(all, implicit) {
                assert forall|pk: PublicKey| #[trigger] r@.contains(pk) implies implicit.contains_key(
                    pk,
                ) by {
                    let j = choose|j: int|
                        0 <= j < all.len() && names_key((#[trigger] all[j]).source, pk);
                    assert(has_genesis_address(all[j].source, implicit));
                }
            }
            if forall|pk: PublicKey| #[trigger] r@.contains(pk) ==> implicit.contains_key(pk) {
                assert forall|j: int| 0 <= j < all.len() implies has_genesis_address(
                    (#[trigger] all[j]).source,
                    implicit,
                ) by {
                    if let GenesisAddress::PublicKey(pk) = all[j].source {
                        assert(names_key(all[j].source, pk.raw));
                        assert(r@.contains(pk.raw));
                    }
                }
            }
        }
    }
    r
}

/// Whether `source` is the implicit account of `pk`.
pub open spec fn names_key(source: GenesisAddress, pk: PublicKey) -> bool {
    source matches GenesisAddress::PublicKey(key) && key.raw == pk
}

/// Whether one of the bonds is from the implicit account of `pk`.
pub open spec fn is_implicit_source(bonds: Seq<BondTx<Unvalidated>>, pk: PublicKey) -> bool {
    exists|i: int| 0 <= i < bonds.len() && names_key((#[trigger] bonds[i]).source, pk)
}

/// Whether `q` asks how one of the keys of its source signs the bond.
pub open spec fn is_delegation_request(
    bond: BondTx<Unvalidated>,
    wallet: Seq<KeyPair>,
    established_accounts: Option<Seq<EstablishedAccountTx>>,
    addresses: Map<DerivationView, EstablishedAddress>,
    q: SigningRequestView,
) -> bool {
    &&& signing_keys(bond.source, wallet, established_accounts, addresses) matches Some(keys)
    &&& keys.contains(q.key)
    &&& q.message == bond_message(bond.source, bond.validator, bond.amount)
}

/// Whether `q` is such a question of one of the bonds.
pub open spec fn is_delegations_request(
    bonds: Seq<BondTx<Unvalidated>>,
    wallet: Seq<KeyPair>,
    established_accounts: Option<Seq<EstablishedAccountTx>>,
    addresses: Map<DerivationView, EstablishedAddress>,
    q: SigningRequestView,
) -> bool {
    exists|i: int|
        0 <= i < bonds.len() && is_delegation_request(
            #[trigger] bonds[i],
            wallet,
            established_accounts,
            addresses,
            q,
        )
}

/// Whether the keys of the sources of all bonds can be found.
pub open spec fn sources_have_keys(
    bonds: Seq<BondTx<Unvalidated>>,
    wallet: Seq<KeyPair>,
    established_accounts: Option<Seq<EstablishedAccountTx>>,
    addresses: Map<DerivationView, EstablishedAddress>,
) -> bool {
    forall|i: int|
        0 <= i < bonds.len() ==> signing_keys(
            (#[trigger] bonds[i]).source,
            wallet,
            established_accounts,
            addresses,
        ) is Some
}

/// The questions of the first bonds, and those of the one after them.
proof fn lemma_delegations_step(
    bonds: Seq<BondTx<Unvalidated>>,
    i: int,
    wallet: Seq<KeyPair>,
    established_accounts: Option<Seq<EstablishedAccountTx>>,
    addresses: Map<DerivationView, EstablishedAddress>,
    q: SigningRequestView,
)
    requires
        0 <= i < bonds.len(),
    ensures
        is_delegations_request(
            bonds.take(i + 1),
            wallet,
            established_accounts,
            addresses,
            q,
        ) <==> is_delegations_request(
            bonds.take(i),
            wallet,
            established_accounts,
            addresses,
            q,
        ) || is_delegation_request(bonds[i], wallet, established_accounts, addresses, q),
{
    let (first, last) = (bonds.take(i), bonds.take(i + 1));
    let accounts = established_accounts;
    if is_delegations_request(last, wallet, accounts, addresses, q) {
        let j = choose|j: int|
            0 <= j < last.len() && is_delegation_request(
                #[trigger] last[j],
                wallet,
                accounts,
                addresses,
                q,
            );
        if j < i {
            assert(is_delegation_request(first[j], wallet, accounts, addresses, q));
        }
    }
    if is_delegations_request(first, wallet, accounts, addresses, q) {
        let j = choose|j: int|
            0 <= j < first.len() && is_delegation_request(
                #[trigger] first[j],
                wallet,
                accounts,
                addresses,
                q,
            );
        assert(is_delegation_request(last[j], wallet, accounts, addresses, q));
    }
    if is_delegation_request(bonds[i], wallet, accounts, addresses, q) {
        assert(is_delegation_request(last[i], wallet, accounts, addresses, q));
    }
}

/// The bonds can be signed exactly where all the questions about them are answered.
proof fn lemma_delegations_can_sign(
    bonds: Seq<BondTx<Unvalidated>>,
    wallet: Seq<KeyPair>,
    established_accounts: Option<Seq<EstablishedAccountTx>>,
    addresses: Map<DerivationView, EstablishedAddress>,
    signatures: Map<SigningRequestView, Signature>,
)
    requires
        sources_have_keys(bonds, wallet, established_accounts, addresses),
    ensures
        delegations_can_sign(
            bonds,
            wallet,
            established_accounts,
            addresses,
            signatures,
        ) <==> forall|q: SigningRequestView| #[trigger]
            is_delegations_request(bonds, wallet, established_accounts, addresses, q)
                ==> signatures.contains_key(q),
{
    let accounts = established_accounts;
    if delegations_can_sign(bonds, wallet, accounts, addresses, signatures) {
        assert forall|q: SigningRequestView| #[trigger]
            is_delegations_request(
                bonds,
                wallet,
                accounts,
                addresses,
                q,
            ) implies signatures.contains_key(q) by {
            let i = choose|i: int|
                0 <= i < bonds.len() && is_delegation_request(
                    #[trigger] bonds[i],
                    wallet,
                    accounts,
                    addresses,
                    q,
                );
            assert(delegation_can_sign(bonds[i], wallet, accounts, addresses, signatures));
            let keys = signing_keys(bonds[i].source, wallet, accounts, addresses)->0;
            assert(can_sign(signatures, keys[keys.index_of(q.key)], q.message));
        }
    }
    if forall|q: SigningRequestView| #[trigger]
        is_delegations_request(bonds, wallet, accounts, addresses, q) ==> signatures.contains_key(
            q,
        ) {
        assert forall|i: int| 0 <= i < bonds.len() implies delegation_can_sign(
            #[trigger] bonds[i],
            wallet,
            accounts,
            addresses,
            signatures,
        ) by {
            assert(signing_keys(bonds[i].source, wallet, accounts, addresses) is Some);
            let keys = signing_keys(bonds[i].source, wallet, accounts, addresses)->0;
            let message = bond_message(bonds[i].source, bonds[i].validator, bonds[i].amount);
            assert forall|k: int| 0 <= k < keys.len() implies can_sign(
                signatures,
                #[trigger] keys[k],
                message,
            ) by {
                let q = SigningRequestView { key: keys[k], message };
                assert(keys.contains(q.key));
                assert(is_delegation_request(bonds[i], wallet, accounts, addresses, q));
                assert(is_delegations_request(bonds, wallet, accounts, addresses, q));
            }
        }
    }
}

/// What has to be known to sign the bonds with the wallet of a user. Where the keys
/// of the source of a bond cannot be found, the answer is the position of the first
/// such bond.
pub fn delegation_signing_requests(
    bonds: &Option<Vec<BondTx<Unvalidated>>>,
    wallet: &Wallet,
    established_accounts: &Option<Vec<EstablishedAccountTx>>,
    addresses: &AddressBook,
) -> (r: Result<Vec<SigningRequest>, usize>)
    requires
        accounts_known(items(*established_accounts), addresses@),
    ensures
        match r {
            Ok(requests) => {
                let accounts = contents(*established_accounts);
                &&& sources_have_keys(items(*bonds), wallet.keys@, accounts, addresses@)
                &&& forall|q: SigningRequestView| #[trigger]
                    requests_signature(requests@, q) <==> is_delegations_request(
                        items(*bonds),
                        wallet.keys@,
                        accounts,
                        addresses@,
                        q,
                    )
                &&& forall|signatures: Map<SigningRequestView, Signature>| #[trigger]
                    answers_requests(signatures, requests@) <==> delegations_can_sign(
                        items(*bonds),
                        wallet.keys@,
                        accounts,
                        addresses@,
                        signatures,
                    )
            },
            Err(i) => {
                let accounts = contents(*established_accounts);
                &&& i < items(*bonds).len()
                &&& sources_have_keys(
                    items(*bonds).take(i as int),
                    wallet.keys@,
                    accounts,
                    addresses@,
                )
                &&& signing_keys(
                    items(*bonds)[i as int].source,
                    wallet.keys@,
                    accounts,
                    addresses@,
                ) is None
            },
        },
{
    let ghost accounts = contents(*established_accounts);
    let mut r: Vec<SigningRequest> = Vec::new();
    match bonds {
        Some(txs) => {
            let mut i: usize = 0;
            while i < txs.len()
                invariant
                    i <= txs@.len(),
                    items(*bonds) == txs@,
                    accounts == contents(*established_accounts),
                    accounts_known(items(*established_accounts), addresses@),
                    sources_have_keys(txs@.take(i as int), wallet.keys@, accounts, addresses@),
                    forall|q: SigningRequestView| #[trigger]
                        requests_signature(r@, q) <==> is_delegations_request(
                            txs@.take(i as int),
                            wallet.keys@,
                            accounts,
                            addresses@,
                            q,
                        ),
                decreases txs@.len() - i,
            {
                let keys: Vec<SecretKey> = match find_signing_keys(
                    &txs[i].source,
                    wallet,
                    established_accounts,
                    addresses,
                ) {
                    Some(keys) => keys,
                    None => {
                        return Err(i);
                    },
                };
                let ghost before = r@;
                let mut more: Vec<SigningRequest> = SignedBondTx::from(txs[i]).signing_requests(
                    keys.as_slice(),
                );
                let ghost added = more@;
                r.append(&mut more);
                proof {
                    let bond = txs@[i as int];
                    lemma_requests_concat(before, added);
                    assert forall|q: SigningRequestView| #[trigger]
                        requests_signature(r@, q) <==> is_delegations_request(
                            txs@.take(i + 1),
                            wallet.keys@,
                            accounts,
                            addresses@,
                            q,
                        ) by {
                        lemma_delegations_step(
                            txs@,
                            i as int,
                            wallet.keys@,
                            accounts,
                            addresses@,
                            q,
                        );
                        assert(requests_signature(r@, q) <==> requests_signature(before, q)
                            || requests_signature(added, q));
                        if requests_signature(added, q) {
                            let k = choose|k: int|
                                0 <= k < added.len() && (#[trigger] added[k])@ == q;
                            assert(keys@[k] == q.key);
                        }
                        if is_delegation_request(
                            bond,
                            wallet.keys@,
                            accounts,
                            addresses@,
                            q,
                        ) {
                            assert(added[keys@.index_of(q.key)]@ == q);
                        }
                    }
                    assert forall|j: int| 0 <= j < i + 1 implies signing_keys(
                        (#[trigger] txs@.take(i + 1)[j]).source,
                        wallet.keys@,
                        accounts,
                        addresses@,
                    ) is Some by {
                        if j < i {
                            assert(txs@.take(i as int)[j] == txs@[j]);
                        }
                    }
                }
                i = i + 1;
            }
            assert(txs@.take(i as int) =~= txs@);
        },
        None => {},
    }
    proof {
        assert forall|signatures: Map<SigningRequestView, Signature>| #[trigger]
            answers_requests(signatures, r@) <==> delegations_can_sign(
                items(*bonds),
                wallet.keys@,
                accounts,
                addresses@,
                signatures,
            ) by {
            lemma_delegations_can_sign(
                items(*bonds),
                wallet.keys@,
                accounts,
                addresses@,
                signatures,
            );
            if answers_requests(signatures, r@) {
                assert forall|q: SigningRequestView| #[trigger]
                    is_delegations_request(
                        items(*bonds),
                        wallet.keys@,
                        accounts,
                        addresses@,
                        q,
                    ) implies signatures.contains_key(q) by {
                    assert(requests_signature(r@, q));
                }
            }
        }
    }
    Ok(r)
}

/// Sign transactions with the wallet of a user.
///
/// There must be no validator accounts and no self-bonds among them, because
/// these must be signed with a validator wallet.
pub fn sign_txs(
    txs: UnsignedTransactions,
    wallet: &Wallet,
    addresses: &AddressBook,
    implicit: &ImplicitBook,
    signatures: &SignatureBook,
) -> (r: Transactions<Unvalidated>)
    requires
        !has_validator_accounts(txs),
        sources_known(items(txs.bond), implicit@),
        !has_self_bond(txs, implicit@),
        accounts_known(items(txs.established_account), addresses@),
        delegations_can_sign(
            items(txs.bond),
            wallet.keys@,
            contents(txs.established_account),
            addresses@,
            signatures@,
        ),
    ensures
        r.established_account == txs.established_account,
        r.validator_account is None,
        r.bond is Some <==> txs.bond is Some,
        items(r.bond).len() == items(txs.bond).len(),
        forall|i: int|
            0 <= i < items(r.bond).len() ==> is_signed_delegation(
                #[trigger] items(r.bond)[i],
                items(txs.bond)[i],
                wallet.keys@,
                contents(txs.established_account),
                addresses@,
                signatures@,
            ),
{
    let bond: Option<Vec<SignedBondTx<Unvalidated>>> = match &txs.bond {
        Some(bonds) => {
            let mut signed: Vec<SignedBondTx<Unvalidated>> = Vec::new();
            let mut i: usize = 0;
            while i < bonds.len()
                invariant
                    i <= bonds@.len(),
                    signed@.len() == i,
                    accounts_known(items(txs.established_account), addresses@),
                    delegations_can_sign(
                        bonds@,
                        wallet.keys@,
                        contents(txs.established_account),
                        addresses@,
                        signatures@,
                    ),
                    forall|j: int|
                        0 <= j < i ==> is_signed_delegation(
                            #[trigger] signed@[j],
                            bonds@[j],
                            wallet.keys@,
                            contents(txs.established_account),
                            addresses@,
                            signatures@,
                        ),
                decreases bonds@.len() - i,
            {
                let tx: BondTx<Unvalidated> = bonds[i];
                assert(delegation_can_sign(
                    bonds@[i as int],
                    wallet.keys@,
                    contents(txs.established_account),
                    addresses@,
                    signatures@,
                ));
                signed.push(
                    sign_delegation_bond_tx(
                        tx,
                        wallet,
                        &txs.established_account,
                        addresses,
                        signatures,
                    ),
                );
                i = i + 1;
            }
            Some(signed)
        },
        None => None,
    };
    Transactions { established_account: txs.established_account, validator_account: None, bond }
}

/// What is known of a genesis validator besides its keys.
#[derive(Clone, Debug)]
pub struct GenesisValidatorData {
    pub commission_rate: Dec,
    pub max_commission_rate_change: Dec,
    pub net_address: SocketAddr,
    pub self_bond_amount: DenominatedAmount,
    pub email: String,
    pub description: Option<String>,
    pub website: Option<String>,
    pub discord_handle: Option<String>,
}

/// What the transaction of an established account with one key says.
pub open spec fn single_key_account(vp: Seq<char>, public_key: PublicKey) -> EstablishedAccountView {
    EstablishedAccountView {
        vp,
        threshold: 1,
        public_keys: seq![StringEncoded { raw: public_key }],
    }
}

/// What the address of an established account with one key is derived from.
pub open spec fn single_key_derivation(vp: Seq<char>, public_key: PublicKey) -> DerivationView {
    DerivationView {
        salt: EstablishedAccountTx::salt(),
        data: single_key_account(vp, public_key).encoding(),
    }
}

/// The transaction of an established account with one key.
pub fn established_account_tx(vp: String, public_key: PublicKey) -> (r: EstablishedAccountTx)
    ensures
        r@ == single_key_account(vp@, public_key),
        r.vp == vp,
        r.threshold == 1,
        r.public_keys@.len() == 1,
        r.public_keys@[0].raw == public_key,
{
    let mut public_keys: Vec<StringEncoded<PublicKey>> = Vec::new();
    public_keys.push(StringEncoded::new(public_key));
    assert(public_keys@ =~= seq![StringEncoded { raw: public_key }]);
    EstablishedAccountTx { vp, threshold: default_threshold(), public_keys }
}

/// Whether the transactions establish one account, with one key, and nothing else.
pub open spec fn is_single_account(
    txs: Transactions<Unvalidated>,
    vp: Seq<char>,
    public_key: PublicKey,
) -> bool {
    &&& txs.established_account matches Some(accounts) && accounts@.len() == 1 && accounts@[0]@
        == single_key_account(vp, public_key)
    &&& txs.validator_account is None
    &&& txs.bond is None
}

/// Create [`Transactions`] for an established account.
pub fn init_established_account(
    vp: String,
    public_key: PublicKey,
    addresses: &AddressBook,
) -> (r: (Address, Transactions<Unvalidated>))
    requires
        single_key_account(vp@, public_key).fits(),
        addresses@.contains_key(single_key_derivation(vp@, public_key)),
    ensures
        r.0 == Address::Established(addresses@[single_key_derivation(vp@, public_key)]),
        is_single_account(r.1, vp@, public_key),
        items(r.1.established_account).len() == 1,
        items(r.1.established_account)[0].vp == vp,
        items(r.1.established_account)[0].threshold == 1,
        items(r.1.established_account)[0].public_keys@.len() == 1,
        items(r.1.established_account)[0].public_keys@[0].raw == public_key,
        r.1.validator_account is None,
        r.1.bond is None,
        r.0 == Address::Established(
            established_address_of(addresses@, items(r.1.established_account)[0]),
        ),
{
    let tx: EstablishedAccountTx = established_account_tx(vp, public_key);
    let address: Address = tx.derive_address(addresses);
    let mut txs: Vec<EstablishedAccountTx> = Vec::new();
    txs.push(tx);
    (
        address,
        Transactions { established_account: Some(txs), validator_account: None, bond: None },
    )
}

/// What the account transaction of a genesis validator says.
pub open spec fn genesis_validator_account(
    data: GenesisValidatorData,
    wallet: ValidatorWallet,
) -> ValidatorAccountView {
    ValidatorAccountView {
        vp: "vp_user"@,
        commission_rate: data.commission_rate,
        max_commission_rate_change: data.max_commission_rate_change,
        email: data.email@,
        description: option_chars(data.description),
        website: option_chars(data.website),
        discord_handle: option_chars(data.discord_handle),
        net_address: data.net_address,
        account_key: wallet.account_key.public,
        consensus_key: wallet.consensus_key.public,
        protocol_key: wallet.protocol_key.public,
        tendermint_node_key: wallet.tendermint_node_key.public,
        eth_hot_key: wallet.eth_hot_key.public,
        eth_cold_key: wallet.eth_cold_key.public,
    }
}

/// What the address of a genesis validator is derived from.
pub open spec fn genesis_validator_derivation(
    data: GenesisValidatorData,
    wallet: ValidatorWallet,
) -> DerivationView {
    DerivationView {
        salt: UnsignedValidatorAccountTx::salt(),
        data: genesis_validator_account(data, wallet).encoding(),
    }
}

/// The account transaction of a genesis validator.
pub fn unsigned_validator_account_tx(
    data: GenesisValidatorData,
    validator_wallet: &ValidatorWallet,
) -> (r: UnsignedValidatorAccountTx)
    ensures
        r@ == genesis_validator_account(data, *validator_wallet),
        r.vp@ == "vp_user"@,
        r.commission_rate == data.commission_rate,
        r.max_commission_rate_change == data.max_commission_rate_change,
        r.email == data.email,
        r.description == data.description,
        r.website == data.website,
        r.discord_handle == data.discord_handle,
        r.net_address == data.net_address,
        r.account_key.raw == validator_wallet.account_key.public,
        r.consensus_key.raw == validator_wallet.consensus_key.public,
        r.protocol_key.raw == validator_wallet.protocol_key.public,
        r.tendermint_node_key.raw == validator_wallet.tendermint_node_key.public,
        r.eth_hot_key.raw == validator_wallet.eth_hot_key.public,
        r.eth_cold_key.raw == validator_wallet.eth_cold_key.public,
{
    ValidatorAccountTx {
        account_key: StringEncoded::new(validator_wallet.account_key.public),
        consensus_key: StringEncoded::new(validator_wallet.consensus_key.public),
        protocol_key: StringEncoded::new(validator_wallet.protocol_key.public),
        tendermint_node_key: StringEncoded::new(validator_wallet.tendermint_node_key.public),
        eth_hot_key: StringEncoded::new(validator_wallet.eth_hot_key.public),
        eth_cold_key: StringEncoded::new(validator_wallet.eth_cold_key.public),
        // No custom validator VPs yet
        vp: "vp_user".to_string(),
        commission_rate: data.commission_rate,
        max_commission_rate_change: data.max_commission_rate_change,
        email: data.email,
        description: data.description,
        website: data.website,
        discord_handle: data.discord_handle,
        net_address: data.net_address,
    }
}

/// The bond of a validator to itself.
pub open spec fn self_bond(
    address: EstablishedAddress,
    amount: DenominatedAmount,
) -> BondTx<Unvalidated> {
    BondTx {
        source: GenesisAddress::EstablishedAddress(address),
        validator: Address::Established(address),
        amount,
    }
}

/// The bond of a validator to itself.
pub fn self_bond_tx(address: EstablishedAddress, amount: DenominatedAmount) -> (r: BondTx<
    Unvalidated,
>)
    ensures
        r == self_bond(address, amount),
        r.source == GenesisAddress::EstablishedAddress(address),
        r.validator == Address::Established(address),
        r.amount == amount,
{
    BondTx {
        source: GenesisAddress::EstablishedAddress(address),
        validator: Address::Established(address),
        amount,
    }
}

/// Whether the transactions are the signed account of a genesis validator and, if it
/// bonds anything to itself, its signed self-bond.
pub open spec fn is_genesis_validator(
    txs: Transactions<Unvalidated>,
    data: GenesisValidatorData,
    wallet: ValidatorWallet,
    addresses: Map<DerivationView, EstablishedAddress>,
    signatures: Map<SigningRequestView, Signature>,
) -> bool {
    &&& txs.established_account is None
    &&& txs.validator_account matches Some(accounts) && accounts@.len() == 1
        && without_authorizations(accounts@[0])@ == genesis_validator_account(data, wallet)
        && accounts@[0] == with_authorizations(
        without_authorizations(accounts@[0]),
        wallet,
        signatures,
    )
    &&& match txs.bond {
        Some(bonds) => {
            &&& data.self_bond_amount.amount@ != 0
            &&& bonds@.len() == 1
            &&& bonds@[0].data == self_bond(
                addresses[genesis_validator_derivation(data, wallet)],
                data.self_bond_amount,
            )
            &&& bonds@[0].signatures@ == signatures_by(
                seq![wallet.account_key.secret],
                self_bond_message(data, wallet, addresses),
                signatures,
            )
        },
        None => data.self_bond_amount.amount@ == 0,
    }
}

/// Create signed [`Transactions`] for a genesis validator.
pub fn init_validator(
    data: GenesisValidatorData,
    validator_wallet: &ValidatorWallet,
    addresses: &AddressBook,
    signatures: &SignatureBook,
) -> (r: (Address, Transactions<Unvalidated>))
    requires
        genesis_validator_account(data, *validator_wallet).fits(),
        addresses@.contains_key(genesis_validator_derivation(data, *validator_wallet)),
        genesis_validator_can_sign(data, *validator_wallet, addresses@, signatures@),
    ensures
        r.0 == Address::Established(
            addresses@[genesis_validator_derivation(data, *validator_wallet)],
        ),
        is_genesis_validator(r.1, data, *validator_wallet, addresses@, signatures@),
        r.1.established_account is None,
        items(r.1.validator_account).len() == 1,
        ({
            let account = items(r.1.validator_account)[0];
            &&& account.vp@ == "vp_user"@
            &&& account.commission_rate == data.commission_rate
            &&& account.max_commission_rate_change == data.max_commission_rate_change
            &&& account.email == data.email
            &&& account.description == data.description
            &&& account.website == data.website
            &&& account.discord_handle == data.discord_handle
            &&& account.net_address == data.net_address
            &&& account.account_key.pk.raw == validator_wallet.account_key.public
            &&& account.consensus_key.pk.raw == validator_wallet.consensus_key.public
            &&& account.protocol_key.pk.raw == validator_wallet.protocol_key.public
            &&& account.tendermint_node_key.pk.raw == validator_wallet.tendermint_node_key.public
            &&& account.eth_hot_key.pk.raw == validator_wallet.eth_hot_key.public
            &&& account.eth_cold_key.pk.raw == validator_wallet.eth_cold_key.public
        }),
        r.1.bond is Some <==> data.self_bond_amount.amount@ != 0,
        r.1.bond is Some ==> {
            &&& items(r.1.bond).len() == 1
            &&& Address::Established(items(r.1.bond)[0].data.source->EstablishedAddress_0) == r.0
            &&& items(r.1.bond)[0].data.source is EstablishedAddress
            &&& items(r.1.bond)[0].data.validator == r.0
            &&& items(r.1.bond)[0].data.amount == data.self_bond_amount
            &&& items(r.1.bond)[0].signatures@.len() == 1
        },
{
    let self_bond_amount: DenominatedAmount = data.self_bond_amount;
    let unsigned_tx: UnsignedValidatorAccountTx = unsigned_validator_account_tx(
        data,
        validator_wallet,
    );
    let validator_addr: EstablishedAddress = unsigned_tx.derive_established_address(addresses);
    let mut accounts: Vec<SignedValidatorAccountTx> = Vec::new();
    accounts.push(sign_validator_account_tx(unsigned_tx, validator_wallet, signatures));
    let bond: Option<Vec<SignedBondTx<Unvalidated>>> = if self_bond_amount.amount.is_zero() {
        None
    } else {
        let unsigned_bond_tx: BondTx<Unvalidated> = self_bond_tx(validator_addr, self_bond_amount);
        let mut bonds: Vec<SignedBondTx<Unvalidated>> = Vec::new();
        bonds.push(sign_self_bond_tx(unsigned_bond_tx, validator_wallet, signatures));
        Some(bonds)
    };
    (
        Address::Established(validator_addr),
        Transactions { established_account: None, validator_account: Some(accounts), bond },
    )
}

/// Whether the signatures that a genesis validator gives are known: those of all its
/// keys on its account and, if it bonds anything to itself, the one of its account key
/// on the self-bond.
pub open spec fn genesis_validator_can_sign(
    data: GenesisValidatorData,
    wallet: ValidatorWallet,
    addresses: Map<DerivationView, EstablishedAddress>,
    signatures: Map<SigningRequestView, Signature>,
) -> bool {
    &&& validator_can_sign(wallet, genesis_validator_account(data, wallet).encoding(), signatures)
    &&& data.self_bond_amount.amount@ != 0 ==> can_sign(
        signatures,
        wallet.account_key.secret,
        self_bond_message(data, wallet, addresses),
    )
}

/// Whether `q` asks for one of these signatures.
pub open spec fn is_genesis_validator_request(
    data: GenesisValidatorData,
    wallet: ValidatorWallet,
    addresses: Map<DerivationView, EstablishedAddress>,
    q: SigningRequestView,
) -> bool {
    ||| validator_secrets(wallet).contains(q.key) && q.message == genesis_validator_account(
        data,
        wallet,
    ).encoding()
    ||| data.self_bond_amount.amount@ != 0 && q.key == wallet.account_key.secret && q.message
        == self_bond_message(data, wallet, addresses)
}

/// What has to be known to sign the transactions of a genesis validator.
pub fn genesis_validator_signing_requests(
    data: GenesisValidatorData,
    validator_wallet: &ValidatorWallet,
    addresses: &AddressBook,
) -> (r: Vec<SigningRequest>)
    requires
        genesis_validator_account(data, *validator_wallet).fits(),
        addresses@.contains_key(genesis_validator_derivation(data, *validator_wallet)),
    ensures
        forall|q: SigningRequestView| #[trigger]
            requests_signature(r@, q) <==> is_genesis_validator_request(
                data,
                *validator_wallet,
                addresses@,
                q,
            ),
        forall|signatures: Map<SigningRequestView, Signature>| #[trigger]
            answers_requests(signatures, r@) <==> genesis_validator_can_sign(
                data,
                *validator_wallet,
                addresses@,
                signatures,
            ),
{
    let self_bond_amount: DenominatedAmount = data.self_bond_amount;
    let unsigned_tx: UnsignedValidatorAccountTx = unsigned_validator_account_tx(
        data,
        validator_wallet,
    );
    let mut r: Vec<SigningRequest> = validator_signing_requests(&unsigned_tx, validator_wallet);
    let mut more: Vec<SigningRequest> = Vec::new();
    if !self_bond_amount.amount.is_zero() {
        let validator_addr: EstablishedAddress = unsigned_tx.derive_established_address(addresses);
        let bond: BondTx<Unvalidated> = self_bond_tx(validator_addr, self_bond_amount);
        more.push(
            SigningRequest {
                key: validator_wallet.account_key.secret,
                message: bond.message_to_sign(),
            },
        );
    }
    let ghost (first, added) = (r@, more@);
    r.append(&mut more);
    proof {
        let wallet = *validator_wallet;
        let keys = validator_secrets(wallet);
        lemma_requests_concat(first, added);
        assert forall|q: SigningRequestView| #[trigger]
            requests_signature(r@, q) <==> is_genesis_validator_request(
                data,
                wallet,
                addresses@,
                q,
            ) by {
            assert(requests_signature(r@, q) <==> requests_signature(first, q)
                || requests_signature(added, q));
            if requests_signature(first, q) {
                let i = choose|i: int| 0 <= i < first.len() && (#[trigger] first[i])@ == q;
                assert(keys[i] == q.key);
            }
            if keys.contains(q.key) && q.message == unsigned_tx.encoding() {
                assert(first[keys.index_of(q.key)]@ == q);
            }
            if data.self_bond_amount.amount@ != 0 {
                assert(added[0]@ == (SigningRequestView {
                    key: wallet.account_key.secret,
                    message: self_bond_message(data, wallet, addresses@),
                }));
            }
        }
        assert forall|signatures: Map<SigningRequestView, Signature>| #[trigger]
            answers_requests(signatures, r@) <==> genesis_validator_can_sign(
                data,
                wallet,
                addresses@,
                signatures,
            ) by {
            lemma_genesis_validator_can_sign(data, wallet, addresses@, signatures);
            if answers_requests(signatures, r@) {
                assert forall|q: SigningRequestView| #[trigger]
                    is_genesis_validator_request(
                        data,
                        wallet,
                        addresses@,
                        q,
                    ) implies signatures.contains_key(q) by {
                    assert(requests_signature(r@, q));
                }
            }
        }
    }
    r
}

/// A genesis validator can sign exactly where all the questions are answered.
pub(crate) proof fn lemma_genesis_validator_can_sign(
    data: GenesisValidatorData,
    wallet: ValidatorWallet,
    addresses: Map<DerivationView, EstablishedAddress>,
    signatures: Map<SigningRequestView, Signature>,
)
    ensures
        genesis_validator_can_sign(data, wallet, addresses, signatures) <==> forall|
            q: SigningRequestView,
        | #[trigger]
            is_genesis_validator_request(data, wallet, addresses, q) ==> signatures.contains_key(q),
{
    let keys = validator_secrets(wallet);
    let message = genesis_validator_account(data, wallet).encoding();
    if genesis_validator_can_sign(data, wallet, addresses, signatures) {
        assert forall|q: SigningRequestView| #[trigger]
            is_genesis_validator_request(data, wallet, addresses, q) implies signatures.contains_key(
            q,
        ) by {
            if keys.contains(q.key) && q.message == message {
                let i = keys.index_of(q.key);
                assert(0 <= i < 6 && keys[i] == q.key);
                assert(can_sign(signatures, keys[i], message));
            } else {
                assert(can_sign(signatures, q.key, q.message));
            }
        }
    }
    if forall|q: SigningRequestView| #[trigger]
        is_genesis_validator_request(data, wallet, addresses, q) ==> signatures.contains_key(q) {
        assert forall|i: int| 0 <= i < 6 implies can_sign(
            signatures,
            #[trigger] keys[i],
            message,
        ) by {
            let q = SigningRequestView { key: keys[i], message };
            assert(keys.contains(q.key));
            assert(is_genesis_validator_request(data, wallet, addresses, q));
        }
        lemma_validator_can_sign(wallet, message, signatures);
        if data.self_bond_amount.amount@ != 0 {
            let q = SigningRequestView {
                key: wallet.account_key.secret,
                message: self_bond_message(data, wallet, addresses),
            };
            assert(is_genesis_validator_request(data, wallet, addresses, q));
        }
    }
}

/// The message that a genesis validator signs for its bond to itself.
pub open spec fn self_bond_message(
    data: GenesisValidatorData,
    wallet: ValidatorWallet,
    addresses: Map<DerivationView, EstablishedAddress>,
) -> Seq<u8> {
    let bond = self_bond(
        addresses[genesis_validator_derivation(data, wallet)],
        data.self_bond_amount,
    );
    bond_message(bond.source, bond.validator, bond.amount)
}

} // verus!
