use genesis_transactions::account::{
    default_threshold, deserialize_single_or_vec, sign_tx, sign_validator_account_tx,
    validator_signing_requests, EstablishedAccountTx, SignedValidatorAccountTx,
    UnsignedValidatorAccountTx,
};
use genesis_transactions::account_validation::{
    validate_established_account, validate_validator_account, AccountKeys,
};
use genesis_transactions::address::{
    Address, EstablishedAddress, GenesisAddress, ImplicitAddress, SocketAddr,
};
use genesis_transactions::amount::{
    Amount, AmountError, Dec, DenominatedAmount, Uint, DEC_ONE,
};
use genesis_transactions::answers::{
    AddressBook, Derivation, DeriveEstablishedAddress, ImplicitBook, SignatureBook,
    SignatureCheck, SigningRequest, Verdicts,
};
use genesis_transactions::bond::{
    validate_signature, BondTx, Signed, SignedBondTx, VerifySigError,
};
use genesis_transactions::bond_validation::{
    check_deductions, validate_bond, TokenBalancesForValidation,
};
use genesis_transactions::checks::signature_checks;
use genesis_transactions::codec::Encode;
use genesis_transactions::faults::{
    find_faults, BondFault, EstablishedFault, Fault, ValidatorFault, ValidatorKey,
};
use genesis_transactions::keys::{
    KeyPair, PublicKey, SecretKey, Signature, StringEncoded, ValidatorWallet, Wallet,
};
use genesis_transactions::signing::{
    check_signable, delegation_signing_requests, established_account_tx, find_signing_keys,
    genesis_validator_signing_requests, implicit_questions, init_established_account,
    init_validator, look_up_sk_from, self_bond_tx, sign_delegation_bond_tx, sign_self_bond_tx,
    sign_txs, unsigned_validator_account_tx, GenesisValidatorData, SignTxsError,
};
use genesis_transactions::table::Table;
use genesis_transactions::templates::{
    DenominatedBalances, Parameters, TokenBalances, Unvalidated, ValidityPredicates,
};
use genesis_transactions::transactions::{Transactions, UnsignedTransactions};
use genesis_transactions::validate::validate;

// A stand-in for the cryptography: keys, hashes and signatures that tests can
// tell apart.

fn mix(bytes: &[u8]) -> [u8; 8] {
    let mut state: u64 = 0xcbf2_9ce4_8422_2325;
    for byte in bytes {
        state = (state ^ *byte as u64).wrapping_mul(0x0100_0000_01b3);
    }
    state.to_le_bytes()
}

fn pair(byte: u8) -> KeyPair {
    KeyPair { secret: SecretKey::Ed25519([byte; 32]), public: PublicKey::Ed25519([byte; 32]) }
}

fn public(byte: u8) -> StringEncoded<PublicKey> {
    StringEncoded::new(pair(byte).public)
}

fn signature(key: u8, message: &[u8]) -> Signature {
    let mut bytes = [key; 64];
    bytes[..8].copy_from_slice(&mix(message));
    Signature::Ed25519(bytes)
}

fn answer_request(book: &mut SignatureBook, request: SigningRequest) {
    let answer = match request.key {
        SecretKey::Ed25519(bytes) => signature(bytes[0], &request.message),
        SecretKey::Secp256k1(_) => Signature::Secp256k1([0; 65]),
    };
    book.insert(request, answer);
}

fn answer_checks(checks: Vec<SignatureCheck>) -> Verdicts {
    let mut verdicts: Verdicts = Table::new();
    for check in checks {
        let valid = match check.key {
            PublicKey::Ed25519(bytes) => check.signature == signature(bytes[0], &check.message),
            PublicKey::Secp256k1(_) => false,
        };
        verdicts.insert(check, valid);
    }
    verdicts
}

fn derive(derivation: &Derivation) -> EstablishedAddress {
    let mut bytes = derivation.salt.clone().into_bytes();
    bytes.extend(&derivation.data);
    let mut hash = [0u8; 20];
    hash[..8].copy_from_slice(&mix(&bytes));
    EstablishedAddress { hash }
}

fn remember<T: DeriveEstablishedAddress>(book: &mut AddressBook, tx: &T) -> EstablishedAddress {
    let derivation = tx.derivation();
    let address = derive(&derivation);
    book.insert(derivation, address);
    address
}

fn native(raw: u64) -> DenominatedAmount {
    DenominatedAmount { amount: Amount { raw: Uint(raw, 0, 0, 0) }, denom: 6 }
}

fn vps() -> ValidityPredicates {
    let mut wasm = Table::new();
    wasm.insert("vp_user".to_string(), ());
    ValidityPredicates { wasm }
}

fn parameters() -> Parameters {
    Parameters { native_token: "nam".to_string() }
}

fn balances(entries: &[(GenesisAddress, DenominatedAmount)]) -> DenominatedBalances {
    let mut nam = Table::new();
    for (source, amount) in entries {
        nam.insert(*source, *amount);
    }
    let mut token = Table::new();
    token.insert("nam".to_string(), TokenBalances(nam));
    DenominatedBalances { token }
}

fn wallet() -> ValidatorWallet {
    ValidatorWallet {
        account_key: pair(11),
        consensus_key: pair(12),
        protocol_key: pair(13),
        tendermint_node_key: pair(14),
        eth_hot_key: pair(15),
        eth_cold_key: pair(16),
    }
}

fn validator_data(bond: u64) -> GenesisValidatorData {
    GenesisValidatorData {
        commission_rate: Dec { raw: Uint(5, 0, 0, 0) },
        max_commission_rate_change: Dec { raw: Uint(1, 0, 0, 0) },
        net_address: SocketAddr::V4([127, 0, 0, 1], 26656),
        self_bond_amount: native(bond),
        email: "v@example.org".to_string(),
        description: None,
        website: Some("https://example.org".to_string()),
        discord_handle: None,
    }
}

fn make_validator(
    bond: u64,
    addresses: &mut AddressBook,
) -> (Address, Transactions<Unvalidated>) {
    let mut signatures: SignatureBook = Table::new();
    let unsigned = unsigned_validator_account_tx(validator_data(bond), &wallet());
    remember(addresses, &unsigned);
    for request in
        genesis_validator_signing_requests(validator_data(bond), &wallet(), addresses)
    {
        answer_request(&mut signatures, request);
    }
    init_validator(validator_data(bond), &wallet(), addresses, &signatures)
}

fn make_account(threshold: u8, keys: &[u8]) -> EstablishedAccountTx {
    EstablishedAccountTx {
        vp: "vp_user".to_string(),
        threshold,
        public_keys: keys.iter().map(|k| public(*k)).collect(),
    }
}

fn signed_bond(source: GenesisAddress, validator: Address, amount: DenominatedAmount, keys: &[u8])
    -> SignedBondTx<Unvalidated> {
    let mut bond = SignedBondTx::from(BondTx { source, validator, amount });
    let secrets: Vec<SecretKey> = keys.iter().map(|k| pair(*k).secret).collect();
    let mut book: SignatureBook = Table::new();
    for request in bond.signing_requests(&secrets) {
        answer_request(&mut book, request);
    }
    bond.sign(&secrets, &book);
    bond
}

fn faults(
    txs: &Transactions<Unvalidated>,
    balances: Option<&DenominatedBalances>,
    addresses: &AddressBook,
) -> Vec<Fault> {
    let verdicts = answer_checks(signature_checks(txs, addresses));
    find_faults(txs, Some(&vps()), balances, Some(&parameters()), addresses, &verdicts)
}

fn is_valid(
    txs: Transactions<Unvalidated>,
    balances: Option<&DenominatedBalances>,
    addresses: &AddressBook,
) -> bool {
    let verdicts = answer_checks(signature_checks(&txs, addresses));
    let without_faults = faults(&txs, balances, addresses).is_empty();
    let valid =
        validate(txs, Some(&vps()), balances, Some(&parameters()), addresses, &verdicts).is_some();
    assert_eq!(valid, without_faults);
    valid
}

// Accounts

#[test]
fn the_default_threshold_is_one() {
    assert_eq!(default_threshold(), 1);
}

#[test]
fn keys_are_read_as_one_or_as_a_list() {
    let single: Result<Vec<u8>, bool> = deserialize_single_or_vec(Ok(7), Err(false));
    assert_eq!(single, Ok(vec![7]));
    let list: Result<Vec<u8>, bool> = deserialize_single_or_vec(Err(true), Ok(vec![1, 2]));
    assert_eq!(list, Ok(vec![1, 2]));
    let neither: Result<Vec<u8>, bool> = deserialize_single_or_vec(Err(true), Err(false));
    assert_eq!(neither, Err(false));
}

#[test]
fn a_transaction_is_signed_over_its_encoding() {
    let tx = make_account(1, &[1]);
    let mut book: SignatureBook = Table::new();
    answer_request(
        &mut book,
        SigningRequest { key: pair(1).secret, message: tx.serialize_to_vec() },
    );
    let sig = sign_tx(&tx, &pair(1).secret, &book);
    assert_eq!(sig.raw, signature(1, &tx.serialize_to_vec()));
    let checks = vec![SignatureCheck {
        message: tx.serialize_to_vec(),
        key: pair(1).public,
        signature: sig.raw,
    }];
    let verdicts = answer_checks(checks);
    assert!(validate_signature(&tx, &pair(1).public, &sig.raw, &verdicts));
    assert!(!validate_signature(&tx, &pair(2).public, &sig.raw, &verdicts));
    let other = make_account(2, &[1]);
    assert!(!validate_signature(&other, &pair(1).public, &sig.raw, &verdicts));
}

#[test]
fn every_validator_key_authorizes_itself() {
    let unsigned = unsigned_validator_account_tx(validator_data(0), &wallet());
    let message = unsigned.serialize_to_vec();
    let mut book: SignatureBook = Table::new();
    let requests = validator_signing_requests(&unsigned, &wallet());
    assert_eq!(requests.len(), 6);
    for request in requests {
        answer_request(&mut book, request);
    }
    let signed = sign_validator_account_tx(unsigned.clone(), &wallet(), &book);
    assert_eq!(signed.account_key.authorization.raw, signature(11, &message));
    assert_eq!(signed.consensus_key.authorization.raw, signature(12, &message));
    assert_eq!(signed.protocol_key.authorization.raw, signature(13, &message));
    assert_eq!(signed.tendermint_node_key.authorization.raw, signature(14, &message));
    assert_eq!(signed.eth_hot_key.authorization.raw, signature(15, &message));
    assert_eq!(signed.eth_cold_key.authorization.raw, signature(16, &message));
    assert_eq!(UnsignedValidatorAccountTx::from(&signed), unsigned);
    assert_eq!(UnsignedValidatorAccountTx::from(&signed).derivation().data, message);
}

#[test]
fn the_two_kinds_of_accounts_have_different_addresses() {
    let mut book: AddressBook = Table::new();
    let account = make_account(1, &[1]);
    let validator = unsigned_validator_account_tx(validator_data(0), &wallet());
    let a = remember(&mut book, &account);
    let v = remember(&mut book, &validator);
    assert_ne!(a, v);
    assert_eq!(account.derive_established_address(&book), a);
    assert_eq!(account.derive_address(&book), Address::Established(a));
    assert_eq!(validator.derive_address(&book), Address::Established(v));
}

#[test]
fn an_established_account_is_recorded_and_checked() {
    let mut addresses: AddressBook = Table::new();
    let tx = make_account(2, &[1, 2]);
    let address = Address::Established(remember(&mut addresses, &tx));
    let mut used: Table<Address, ()> = Table::new();
    let mut accounts: Table<Address, AccountKeys> = Table::new();
    assert!(validate_established_account(&tx, Some(&vps()), &addresses, &mut used, &mut accounts));
    assert!(used.contains_key(&address));
    let keys = accounts.get(&address).unwrap();
    assert_eq!(keys.public_keys, vec![pair(1).public, pair(2).public]);
    assert_eq!(keys.threshold, 2);
    // The same address again
    assert!(!validate_established_account(&tx, Some(&vps()), &addresses, &mut used, &mut accounts));
}

#[test]
fn an_established_account_needs_a_threshold_keys_and_a_known_vp() {
    let mut no_threshold = make_account(0, &[1]);
    let no_keys = make_account(1, &[]);
    let mut unknown_vp = make_account(1, &[1]);
    unknown_vp.vp = "vp_other".to_string();
    for tx in [&no_threshold, &no_keys, &unknown_vp] {
        let mut addresses: AddressBook = Table::new();
        remember(&mut addresses, tx);
        let mut used: Table<Address, ()> = Table::new();
        let mut accounts: Table<Address, AccountKeys> = Table::new();
        assert!(!validate_established_account(
            tx,
            Some(&vps()),
            &addresses,
            &mut used,
            &mut accounts
        ));
        assert_eq!(accounts.len(), 1);
    }
    // No validity predicates at all
    no_threshold.threshold = 1;
    let mut addresses: AddressBook = Table::new();
    remember(&mut addresses, &no_threshold);
    let mut used: Table<Address, ()> = Table::new();
    let mut accounts: Table<Address, AccountKeys> = Table::new();
    assert!(!validate_established_account(
        &no_threshold,
        None,
        &addresses,
        &mut used,
        &mut accounts
    ));
}

fn validator_account_valid(tx: &SignedValidatorAccountTx, vps: Option<&ValidityPredicates>) -> bool {
    let mut addresses: AddressBook = Table::new();
    remember(&mut addresses, &UnsignedValidatorAccountTx::from(tx));
    let txs: Transactions<Unvalidated> = Transactions {
        established_account: None,
        validator_account: Some(vec![tx.clone()]),
        bond: None,
    };
    let verdicts = answer_checks(signature_checks(&txs, &addresses));
    let mut used: Table<Address, ()> = Table::new();
    let mut accounts: Table<Address, genesis_transactions::keys::PublicKey> = Table::new();
    let valid =
        validate_validator_account(tx, vps, &addresses, &verdicts, &mut used, &mut accounts);
    assert_eq!(accounts.value_at(0), &tx.account_key.pk.raw);
    valid
}

#[test]
fn a_validator_account_needs_every_authorization() {
    let mut addresses: AddressBook = Table::new();
    let (_, txs) = make_validator(0, &mut addresses);
    let tx = txs.validator_account.unwrap().remove(0);
    assert!(validator_account_valid(&tx, Some(&vps())));
    assert!(!validator_account_valid(&tx, None));
    let forged = StringEncoded::new(Signature::Ed25519([0; 64]));
    let mut bad = tx.clone();
    bad.account_key.authorization = forged;
    assert!(!validator_account_valid(&bad, Some(&vps())));
    let mut bad = tx.clone();
    bad.consensus_key.authorization = forged;
    assert!(!validator_account_valid(&bad, Some(&vps())));
    let mut bad = tx.clone();
    bad.protocol_key.authorization = forged;
    assert!(!validator_account_valid(&bad, Some(&vps())));
    let mut bad = tx.clone();
    bad.tendermint_node_key.authorization = forged;
    assert!(!validator_account_valid(&bad, Some(&vps())));
    let mut bad = tx.clone();
    bad.eth_hot_key.authorization = forged;
    assert!(!validator_account_valid(&bad, Some(&vps())));
    let mut bad = tx.clone();
    bad.eth_cold_key.authorization = forged;
    assert!(!validator_account_valid(&bad, Some(&vps())));
    // Changing what was signed makes every signature invalid
    let mut bad = tx;
    bad.email = "w@example.org".to_string();
    assert!(!validator_account_valid(&bad, Some(&vps())));
}

fn signed_with_rate(rate: Dec) -> SignedValidatorAccountTx {
    let mut data = validator_data(0);
    data.commission_rate = rate;
    let unsigned = unsigned_validator_account_tx(data, &wallet());
    let mut book: SignatureBook = Table::new();
    for request in validator_signing_requests(&unsigned, &wallet()) {
        answer_request(&mut book, request);
    }
    sign_validator_account_tx(unsigned, &wallet(), &book)
}

#[test]
fn a_commission_rate_is_bounded() {
    let max = u64::MAX;
    for (raw, inside) in [
        (Uint(0, 0, 0, 0), true),
        (Uint(DEC_ONE, 0, 0, 0), true),
        (Uint(DEC_ONE + 1, 0, 0, 0), false),
        (Uint(0, 1, 0, 0), false),
        // Minus one, in the smallest unit
        (Uint(max, max, max, max), false),
    ] {
        let rate = Dec { raw };
        assert_eq!(rate.is_rate(), inside);
        assert_eq!(validator_account_valid(&signed_with_rate(rate), Some(&vps())), inside);
    }
}

#[test]
fn a_signed_validator_account_is_valid_once() {
    let tx = signed_with_rate(Dec { raw: Uint(1, 0, 0, 0) });
    let mut addresses: AddressBook = Table::new();
    let address = remember(&mut addresses, &UnsignedValidatorAccountTx::from(&tx));
    let txs: Transactions<Unvalidated> =
        Transactions { validator_account: Some(vec![tx.clone()]), ..Transactions::default() };
    let verdicts = answer_checks(signature_checks(&txs, &addresses));
    let mut used: Table<Address, ()> = Table::new();
    let mut accounts: Table<Address, PublicKey> = Table::new();
    let vps = vps();
    for expected in [true, false] {
        let valid = validate_validator_account(
            &tx,
            Some(&vps),
            &addresses,
            &verdicts,
            &mut used,
            &mut accounts,
        );
        assert_eq!(valid, expected);
        assert!(used.contains_key(&Address::Established(address)));
        assert_eq!(accounts.get(&Address::Established(address)), Some(&pair(11).public));
    }
}

// Bonds

fn verify(bond: &SignedBondTx<Unvalidated>, keys: &[u8], threshold: u8) -> Result<(), VerifySigError> {
    let pks: Vec<PublicKey> = keys.iter().map(|k| pair(*k).public).collect();
    let verdicts = answer_checks(bond.signature_checks(&pks));
    bond.verify_sig(&pks, threshold, &verdicts)
}

fn some_bond(keys: &[u8]) -> SignedBondTx<Unvalidated> {
    signed_bond(
        GenesisAddress::PublicKey(public(1)),
        Address::Established(EstablishedAddress { hash: [7; 20] }),
        native(10),
        keys,
    )
}

#[test]
fn what_is_signed_verifies() {
    let bond = some_bond(&[1, 2]);
    assert_eq!(bond.signatures.len(), 2);
    assert_eq!(verify(&bond, &[1, 2], 2), Ok(()));
    assert_eq!(verify(&bond, &[1, 2, 3], 2), Ok(()));
}

#[test]
fn a_threshold_that_is_not_met_is_reported() {
    let bond = some_bond(&[2]);
    assert_eq!(verify(&bond, &[1, 2, 3], 1), Ok(()));
    assert_eq!(verify(&bond, &[1, 2, 3], 2), Err(VerifySigError::ThresholdNotMet(2, 1)));
    assert_eq!(verify(&bond, &[1, 3], 1), Err(VerifySigError::ThresholdNotMet(1, 0)));
    assert_eq!(verify(&bond, &[], 0), Ok(()));
    assert_eq!(verify(&some_bond(&[]), &[1], 0), Ok(()));
}

#[test]
fn too_many_keys_are_refused() {
    let bond = some_bond(&[1]);
    let verdicts: Verdicts = Table::new();
    let many = vec![pair(1).public; 256];
    assert_eq!(bond.verify_sig(&many, 0, &verdicts), Err(VerifySigError::TooGoddamnBig));
    let enough = vec![pair(1).public; 255];
    assert_eq!(bond.verify_sig(&enough, 0, &verdicts), Ok(()));
}

#[test]
fn more_signatures_never_hurt() {
    let mut bond = some_bond(&[1]);
    assert_eq!(verify(&bond, &[1], 1), Ok(()));
    bond.signatures.push(StringEncoded::new(Signature::Secp256k1([3; 65])));
    assert_eq!(verify(&bond, &[1], 1), Ok(()));
    bond.signatures.insert(0, StringEncoded::new(Signature::Ed25519([3; 64])));
    assert_eq!(verify(&bond, &[1], 1), Ok(()));
}

#[test]
fn a_signature_is_of_one_bond_only() {
    let mut bond = some_bond(&[1]);
    bond.data.amount = native(11);
    assert_eq!(verify(&bond, &[1], 1), Err(VerifySigError::ThresholdNotMet(1, 0)));
}

#[test]
fn signing_adds_to_the_signatures() {
    let mut bond = some_bond(&[1]);
    let first = bond.signatures[0];
    let mut book: SignatureBook = Table::new();
    for request in bond.signing_requests(&[pair(2).secret]) {
        answer_request(&mut book, request);
    }
    bond.sign(&[pair(2).secret], &book);
    assert_eq!(bond.signatures.len(), 2);
    assert_eq!(bond.signatures[0], first);
    assert_eq!(bond.signatures[1].raw, signature(2, &bond.data.message_to_sign()));
}

#[test]
fn bonds_convert() {
    let bond = some_bond(&[]).data;
    let signed: SignedBondTx<Unvalidated> = Signed::from(bond);
    assert!(signed.signatures.is_empty());
    assert_eq!(BondTx::from(&signed), bond);
}

#[test]
fn denominating_keeps_the_worth() {
    let mut bond = some_bond(&[]).data;
    bond.amount = DenominatedAmount { amount: Amount { raw: Uint(25, 0, 0, 0) }, denom: 1 };
    let validated = bond.denominate().unwrap();
    assert_eq!(validated.amount, native(2_500_000));
    assert_eq!(validated.source, bond.source);
    assert_eq!(validated.validator, bond.validator);
    assert!(!validated.amount.less_than(&bond.amount));
    assert!(!bond.amount.less_than(&validated.amount));
}

#[test]
fn signatures_do_not_depend_on_the_denomination() {
    let coarse = DenominatedAmount { amount: Amount { raw: Uint(5, 0, 0, 0) }, denom: 0 };
    let bond = signed_bond(
        GenesisAddress::PublicKey(public(1)),
        Address::Established(EstablishedAddress { hash: [7; 20] }),
        coarse,
        &[1],
    );
    let validated = Signed {
        data: bond.data.denominate().unwrap(),
        signatures: bond.signatures.clone(),
    };
    assert_eq!(validated.data.amount, native(5_000_000));
    assert_eq!(validated.data.message_to_sign(), bond.data.message_to_sign());
    let pks = [pair(1).public];
    let verdicts = answer_checks(bond.signature_checks(&pks));
    assert_eq!(bond.verify_sig(&pks, 1, &verdicts), Ok(()));
    assert_eq!(validated.verify_sig(&pks, 1, &verdicts), Ok(()));
    // What cannot be denominated is signed as it is
    let mut fine = bond.data;
    fine.amount.denom = 7;
    let message = fine.message_to_sign();
    assert_eq!(message[message.len() - 1], 7);
}

#[test]
fn the_order_of_signatures_does_not_matter() {
    let mut bond = some_bond(&[1, 2]);
    bond.signatures.reverse();
    assert_eq!(verify(&bond, &[1, 2], 2), Ok(()));
    // Nor does that of the keys
    let mut one = some_bond(&[2]);
    assert_eq!(verify(&one, &[2, 1], 1), verify(&one, &[1, 2], 1));
    one.signatures.clear();
    assert_eq!(verify(&one, &[2, 1], 1), verify(&one, &[1, 2], 1));
    let first = bond.signatures[0];
    bond.signatures.push(first);
    assert_eq!(verify(&bond, &[1, 2, 3], 3), Err(VerifySigError::ThresholdNotMet(3, 2)));
}

#[test]
fn amounts_that_cannot_be_denominated() {
    let mut bond = some_bond(&[]).data;
    bond.amount.denom = 7;
    assert_eq!(bond.denominate(), Err(AmountError::PrecisionDecrease));
    bond.amount = DenominatedAmount { amount: Amount { raw: Uint(0, 0, 0, u64::MAX) }, denom: 0 };
    assert_eq!(bond.denominate(), Err(AmountError::PrecisionOverflow));
}

// Signing

#[test]
fn a_wallet_finds_its_keys() {
    let wallet = Wallet { keys: vec![pair(1), pair(2)] };
    assert_eq!(wallet.find_key_by_pk(&pair(2).public), Some(pair(2).secret));
    assert_eq!(wallet.find_key_by_pk(&pair(3).public), None);
}

#[test]
fn the_keys_of_a_source_are_looked_up() {
    let wallet = Wallet { keys: vec![pair(1), pair(2)] };
    let mut addresses: AddressBook = Table::new();
    let account = make_account(1, &[3, 2, 1]);
    let other = make_account(1, &[9]);
    let address = remember(&mut addresses, &account);
    remember(&mut addresses, &other);
    let accounts = Some(vec![other, account]);
    let established = GenesisAddress::EstablishedAddress(address);
    // Keys that the wallet does not have are left out
    assert_eq!(
        look_up_sk_from(&established, &wallet, &accounts, &addresses),
        vec![pair(2).secret, pair(1).secret]
    );
    let implicit = GenesisAddress::PublicKey(public(1));
    assert_eq!(look_up_sk_from(&implicit, &wallet, &None, &addresses), vec![pair(1).secret]);
    // A key that the wallet does not have
    let unknown = GenesisAddress::PublicKey(public(5));
    assert_eq!(find_signing_keys(&unknown, &wallet, &accounts, &addresses), Some(vec![]));
    assert_eq!(find_signing_keys(&unknown, &wallet, &None, &addresses), None);
    assert_eq!(find_signing_keys(&unknown, &wallet, &Some(vec![]), &addresses), None);
    // An account that is not there
    let missing = GenesisAddress::EstablishedAddress(EstablishedAddress { hash: [1; 20] });
    assert_eq!(find_signing_keys(&missing, &wallet, &accounts, &addresses), None);
    assert_eq!(find_signing_keys(&established, &wallet, &None, &addresses), None);
}

#[test]
fn a_self_bond_is_signed_with_the_account_key() {
    let bond = self_bond_tx(EstablishedAddress { hash: [4; 20] }, native(3));
    let mut book: SignatureBook = Table::new();
    for request in SignedBondTx::from(bond).signing_requests(&[pair(11).secret]) {
        answer_request(&mut book, request);
    }
    let signed = sign_self_bond_tx(bond, &wallet(), &book);
    assert_eq!(signed.data, bond);
    assert_eq!(signed.signatures.len(), 1);
    assert_eq!(verify(&signed, &[11], 1), Ok(()));
}

#[test]
fn a_delegation_is_signed_with_the_keys_of_its_source() {
    let wallet = Wallet { keys: vec![pair(1), pair(2)] };
    let mut addresses: AddressBook = Table::new();
    let account = make_account(2, &[1, 2]);
    let address = remember(&mut addresses, &account);
    let bond: BondTx<Unvalidated> = BondTx {
        source: GenesisAddress::EstablishedAddress(address),
        validator: Address::Established(EstablishedAddress { hash: [4; 20] }),
        amount: native(3),
    };
    let mut book: SignatureBook = Table::new();
    for request in SignedBondTx::from(bond).signing_requests(&[pair(1).secret, pair(2).secret]) {
        answer_request(&mut book, request);
    }
    let signed = sign_delegation_bond_tx(bond, &wallet, &Some(vec![account]), &addresses, &book);
    assert_eq!(verify(&signed, &[1, 2], 2), Ok(()));
}

fn implicit_book() -> ImplicitBook {
    let mut book: ImplicitBook = Table::new();
    for byte in 1..20 {
        book.insert(pair(byte).public, ImplicitAddress { hash: [byte; 20] });
    }
    book
}

#[test]
fn validator_transactions_need_a_validator_wallet() {
    let unsigned = unsigned_validator_account_tx(validator_data(0), &wallet());
    let hash = [4; 20];
    let self_bond = self_bond_tx(EstablishedAddress { hash }, native(3));
    let mut txs = UnsignedTransactions {
        established_account: None,
        validator_account: Some(vec![unsigned]),
        bond: Some(vec![self_bond]),
    };
    let book = implicit_book();
    assert_eq!(check_signable(&txs, &book), Err(SignTxsError::ValidatorAccount));
    txs.validator_account = Some(vec![]);
    assert_eq!(check_signable(&txs, &book), Err(SignTxsError::SelfBond));
    txs.bond = Some(vec![BondTx {
        source: GenesisAddress::PublicKey(public(1)),
        validator: Address::Implicit(ImplicitAddress { hash: [1; 20] }),
        amount: native(1),
    }]);
    assert_eq!(check_signable(&txs, &book), Err(SignTxsError::SelfBond));
    txs.bond = Some(vec![BondTx {
        source: GenesisAddress::PublicKey(public(1)),
        validator: Address::Implicit(ImplicitAddress { hash: [2; 20] }),
        amount: native(1),
    }]);
    assert_eq!(check_signable(&txs, &book), Ok(()));
    assert_eq!(
        GenesisAddress::PublicKey(public(3)).address(&book),
        Address::Implicit(ImplicitAddress { hash: [3; 20] })
    );
}

#[test]
fn the_questions_for_delegations_are_enough() {
    let user = Wallet { keys: vec![pair(1), pair(2)] };
    let mut addresses: AddressBook = Table::new();
    let account = make_account(2, &[1, 3, 2]);
    let address = remember(&mut addresses, &account);
    let validator = Address::Established(EstablishedAddress { hash: [4; 20] });
    let bond = |source: GenesisAddress| -> BondTx<Unvalidated> {
        BondTx { source, validator, amount: native(3) }
    };
    let from_account = bond(GenesisAddress::EstablishedAddress(address));
    let from_key = bond(GenesisAddress::PublicKey(public(2)));
    let mut txs = UnsignedTransactions {
        established_account: Some(vec![account]),
        bond: Some(vec![from_account, from_key]),
        ..UnsignedTransactions::default()
    };
    assert_eq!(txs.validator_account, None);
    assert_eq!(implicit_questions(&txs.bond), vec![pair(2).public]);
    assert_eq!(implicit_questions(&None), vec![]);

    let requests =
        delegation_signing_requests(&txs.bond, &user, &txs.established_account, &addresses)
            .unwrap();
    assert_eq!(requests.len(), 3);
    for (request, (key, asked)) in
        requests.iter().zip([(1, from_account), (2, from_account), (2, from_key)])
    {
        assert_eq!(request.key, pair(key).secret);
        assert_eq!(request.message, asked.message_to_sign());
    }
    let mut implicit: ImplicitBook = Table::new();
    for pk in implicit_questions(&txs.bond) {
        implicit.insert(pk, ImplicitAddress { hash: [2; 20] });
    }
    let mut book: SignatureBook = Table::new();
    for request in requests {
        answer_request(&mut book, request);
    }
    assert_eq!(check_signable(&txs, &implicit), Ok(()));
    let signed = sign_txs(txs.clone(), &user, &addresses, &implicit, &book).bond.unwrap();
    assert_eq!(signed[0].signatures.len(), 2);
    assert_eq!(verify(&signed[0], &[1, 2], 2), Ok(()));
    assert_eq!(verify(&signed[1], &[2], 1), Ok(()));

    // The first bond whose source is not known is named
    let unknown = bond(GenesisAddress::EstablishedAddress(EstablishedAddress { hash: [9; 20] }));
    txs.bond = Some(vec![from_account, unknown, from_key, unknown]);
    let told =
        delegation_signing_requests(&txs.bond, &user, &txs.established_account, &addresses);
    assert_eq!(told.err(), Some(1));
    let told = delegation_signing_requests(&txs.bond, &user, &None, &addresses);
    assert_eq!(told.err(), Some(0));
}

#[test]
fn the_questions_for_a_validator_are_enough() {
    let mut addresses: AddressBook = Table::new();
    let unsigned = unsigned_validator_account_tx(validator_data(7), &wallet());
    let address = remember(&mut addresses, &unsigned);
    let requests = genesis_validator_signing_requests(validator_data(7), &wallet(), &addresses);
    assert_eq!(requests.len(), 7);
    for request in &requests[..6] {
        assert_eq!(request.message, unsigned.serialize_to_vec());
    }
    assert_eq!(requests[6].key, pair(11).secret);
    assert_eq!(requests[6].message, self_bond_tx(address, native(7)).message_to_sign());
    let requests = genesis_validator_signing_requests(validator_data(0), &wallet(), &addresses);
    assert_eq!(requests.len(), 6);
}

#[test]
fn the_scope_of_an_address_is_kept() {
    let mut data = validator_data(0);
    data.net_address = SocketAddr::V6([1; 16], 26656, 0, 3);
    let unsigned = unsigned_validator_account_tx(data.clone(), &wallet());
    let mut addresses: AddressBook = Table::new();
    let address = remember(&mut addresses, &unsigned);
    let mut book: SignatureBook = Table::new();
    for request in genesis_validator_signing_requests(data.clone(), &wallet(), &addresses) {
        answer_request(&mut book, request);
    }
    let (_, txs) = init_validator(data.clone(), &wallet(), &addresses, &book);
    let verdicts = answer_checks(signature_checks(&txs, &addresses));
    let validated = validate(txs, Some(&vps()), None, None, &addresses, &verdicts).unwrap();
    assert!(validated.has_at_least_one_validator());
    assert_eq!(validated.bond, None);
    assert_eq!(
        validated.validator_account.unwrap()[0].net_address,
        SocketAddr::V6([1; 16], 26656, 0, 3)
    );
    // It is no part of what the address is derived from
    data.net_address = SocketAddr::V6([1; 16], 26656, 5, 0);
    let other = unsigned_validator_account_tx(data, &wallet());
    assert_eq!(remember(&mut addresses, &other), address);
}

#[test]
fn signed_transactions_are_valid() {
    let user = Wallet { keys: vec![pair(1), pair(2)] };
    let mut addresses: AddressBook = Table::new();
    let (validator, mut genesis) = make_validator(100, &mut addresses);
    let account = make_account(2, &[1, 2]);
    let address = remember(&mut addresses, &account);
    let from_account: BondTx<Unvalidated> = BondTx {
        source: GenesisAddress::EstablishedAddress(address),
        validator,
        amount: native(30),
    };
    let from_key: BondTx<Unvalidated> = BondTx {
        source: GenesisAddress::PublicKey(public(1)),
        validator,
        amount: DenominatedAmount { amount: Amount { raw: Uint(2, 0, 0, 0) }, denom: 5 },
    };
    let mut book: SignatureBook = Table::new();
    for request in SignedBondTx::from(from_account)
        .signing_requests(&[pair(1).secret, pair(2).secret])
    {
        answer_request(&mut book, request);
    }
    for request in SignedBondTx::from(from_key).signing_requests(&[pair(1).secret]) {
        answer_request(&mut book, request);
    }
    let txs = UnsignedTransactions {
        established_account: Some(vec![account]),
        validator_account: None,
        bond: Some(vec![from_account, from_key]),
    };
    assert_eq!(check_signable(&txs, &implicit_book()), Ok(()));
    let signed = sign_txs(txs.clone(), &user, &addresses, &implicit_book(), &book);
    assert_eq!(signed.established_account, txs.established_account);
    assert_eq!(signed.validator_account, None);
    assert_eq!(signed.bond.as_ref().unwrap().len(), 2);
    genesis.merge(signed);

    let source = match validator {
        Address::Established(address) => GenesisAddress::EstablishedAddress(address),
        _ => panic!("a validator has an established address"),
    };
    let balances = balances(&[
        (source, native(100)),
        (GenesisAddress::EstablishedAddress(address), native(31)),
        (GenesisAddress::PublicKey(public(1)), native(20)),
    ]);
    let verdicts = answer_checks(signature_checks(&genesis, &addresses));
    assert!(check_deductions(genesis.bond.as_ref().unwrap(), Some(&balances), &parameters()));
    let validated = validate(
        genesis.clone(),
        Some(&vps()),
        Some(&balances),
        Some(&parameters()),
        &addresses,
        &verdicts,
    )
    .unwrap();
    assert_eq!(validated.established_account, genesis.established_account);
    assert_eq!(validated.validator_account, genesis.validator_account);
    let bonds = validated.bond.unwrap();
    assert_eq!(bonds.len(), 3);
    assert_eq!(bonds[0].amount, native(100));
    assert_eq!(bonds[1].amount, native(30));
    assert_eq!(bonds[2].amount, native(20));
}

#[test]
fn a_new_established_account_is_valid() {
    let tx = established_account_tx("vp_user".to_string(), pair(1).public);
    let mut addresses: AddressBook = Table::new();
    let derived = remember(&mut addresses, &tx);
    let (address, txs) =
        init_established_account("vp_user".to_string(), pair(1).public, &addresses);
    assert_eq!(address, Address::Established(derived));
    assert_eq!(txs.established_account, Some(vec![make_account(1, &[1])]));
    assert_eq!(txs.validator_account, None);
    assert_eq!(txs.bond, None);
    assert!(is_valid(txs, None, &addresses));
}

#[test]
fn a_new_validator_is_valid() {
    let mut addresses: AddressBook = Table::new();
    let (address, txs) = make_validator(100, &mut addresses);
    let source = match address {
        Address::Established(address) => GenesisAddress::EstablishedAddress(address),
        _ => panic!("a validator has an established address"),
    };
    let bond = &txs.bond.as_ref().unwrap()[0];
    assert_eq!(bond.data.source, source);
    assert_eq!(bond.data.validator, address);
    assert_eq!(bond.data.amount, native(100));
    assert_eq!(txs.validator_account.as_ref().unwrap()[0].vp, "vp_user");
    assert!(is_valid(txs.clone(), Some(&balances(&[(source, native(100))])), &addresses));
    assert!(!is_valid(txs.clone(), Some(&balances(&[(source, native(99))])), &addresses));
    assert!(!is_valid(txs, Some(&balances(&[])), &addresses));
}

#[test]
fn a_validator_without_a_self_bond_has_no_bonds() {
    let mut addresses: AddressBook = Table::new();
    let (_, txs) = make_validator(0, &mut addresses);
    assert_eq!(txs.bond, None);
    assert!(is_valid(txs, None, &addresses));
}

// Validation

#[test]
fn no_transactions_are_valid() {
    let addresses: AddressBook = Table::new();
    let verdicts: Verdicts = Table::new();
    let txs: Transactions<Unvalidated> = Transactions::default();
    let validated = validate(txs, None, None, None, &addresses, &verdicts).unwrap();
    assert_eq!(validated, Transactions::default());
    // Neither is an empty list of bonds a bond
    let txs: Transactions<Unvalidated> =
        Transactions { bond: Some(vec![]), ..Transactions::default() };
    let validated = validate(txs, None, None, None, &addresses, &verdicts).unwrap();
    assert_eq!(validated.bond, None);
}

#[test]
fn accounts_do_not_share_an_address() {
    let mut addresses: AddressBook = Table::new();
    let account = make_account(1, &[1]);
    remember(&mut addresses, &account);
    let txs: Transactions<Unvalidated> = Transactions {
        established_account: Some(vec![account.clone(), account]),
        ..Transactions::default()
    };
    assert!(!is_valid(txs, None, &addresses));

    // An established account and a validator, were their addresses the same
    let mut addresses: AddressBook = Table::new();
    let (_, mut txs) = make_validator(0, &mut addresses);
    let account = make_account(1, &[1]);
    let validator = UnsignedValidatorAccountTx::from(&txs.validator_account.as_ref().unwrap()[0]);
    addresses.insert(account.derivation(), validator.derive_established_address(&addresses));
    txs.established_account = Some(vec![account]);
    assert!(!is_valid(txs, None, &addresses));
}

#[test]
fn bonds_need_parameters() {
    let mut addresses: AddressBook = Table::new();
    let (address, txs) = make_validator(100, &mut addresses);
    let source = match address {
        Address::Established(address) => GenesisAddress::EstablishedAddress(address),
        _ => panic!("a validator has an established address"),
    };
    let verdicts = answer_checks(signature_checks(&txs, &addresses));
    let balances = balances(&[(source, native(100))]);
    assert!(validate(txs, Some(&vps()), Some(&balances), None, &addresses, &verdicts).is_none());
}

fn with_bonds(bonds: Vec<(u64, u8)>, balance: DenominatedAmount) -> bool {
    let mut addresses: AddressBook = Table::new();
    let (validator, mut txs) = make_validator(0, &mut addresses);
    let source = GenesisAddress::PublicKey(public(1));
    txs.bond = Some(
        bonds
            .into_iter()
            .map(|(amount, key)| signed_bond(source, validator, native(amount), &[key]))
            .collect(),
    );
    is_valid(txs, Some(&balances(&[(source, balance)])), &addresses)
}

#[test]
fn no_account_bonds_more_than_it_has() {
    assert!(with_bonds(vec![(6, 1), (4, 1)], native(10)));
    assert!(with_bonds(vec![(6, 1), (3, 1)], native(10)));
    assert!(!with_bonds(vec![(6, 1), (5, 1)], native(10)));
    // Once nothing is left, there is no balance to take nothing from
    assert!(!with_bonds(vec![(10, 1), (0, 1)], native(10)));
    assert!(with_bonds(vec![(0, 1), (10, 1)], native(10)));
}

#[test]
fn bonds_are_signed_by_their_source() {
    assert!(with_bonds(vec![(1, 1)], native(10)));
    assert!(!with_bonds(vec![(1, 2)], native(10)));
}

#[test]
fn one_invalid_bond_makes_the_transactions_invalid() {
    assert!(!with_bonds(vec![(1, 1), (1, 2)], native(10)));
}

#[test]
fn a_balance_may_have_more_decimal_places() {
    let balance = DenominatedAmount { amount: Amount { raw: Uint(1000, 0, 0, 0) }, denom: 8 };
    // It is worth ten of the smallest unit of the native token
    assert!(with_bonds(vec![(10, 1)], balance));
    assert!(!with_bonds(vec![(11, 1)], balance));
}

#[test]
fn a_balance_with_fewer_decimal_places_is_told_apart() {
    let source = GenesisAddress::PublicKey(public(1));
    let validator = Address::Established(EstablishedAddress { hash: [7; 20] });
    let coarse = DenominatedAmount { amount: Amount { raw: Uint(1, 0, 0, 0) }, denom: 0 };
    let bonds = vec![signed_bond(source, validator, native(10), &[1])];
    assert!(!check_deductions(&bonds, Some(&balances(&[(source, coarse)])), &parameters()));
    assert!(check_deductions(&bonds, Some(&balances(&[(source, native(10))])), &parameters()));
    assert!(check_deductions(&bonds, None, &parameters()));
}

#[test]
fn bonds_go_to_validators() {
    let mut addresses: AddressBook = Table::new();
    let (_, mut txs) = make_validator(0, &mut addresses);
    let source = GenesisAddress::PublicKey(public(1));
    let nobody = Address::Established(EstablishedAddress { hash: [7; 20] });
    txs.bond = Some(vec![signed_bond(source, nobody, native(1), &[1])]);
    assert!(!is_valid(txs, Some(&balances(&[(source, native(10))])), &addresses));
}

#[test]
fn the_native_token_needs_balances() {
    let mut addresses: AddressBook = Table::new();
    let (validator, mut txs) = make_validator(0, &mut addresses);
    let source = GenesisAddress::PublicKey(public(1));
    txs.bond = Some(vec![signed_bond(source, validator, native(1), &[1])]);
    let mut other = balances(&[]);
    other.token = Table::new();
    assert!(!is_valid(txs.clone(), Some(&other), &addresses));
    assert!(!is_valid(txs.clone(), None, &addresses));
    assert!(is_valid(txs, Some(&balances(&[(source, native(1))])), &addresses));
}

#[test]
fn balances_are_copied() {
    let mut amounts = Table::new();
    amounts.insert(GenesisAddress::PublicKey(public(1)), native(5));
    let mut balances = TokenBalancesForValidation { amounts };
    let copy = balances.clone();
    balances.amounts.remove(&GenesisAddress::PublicKey(public(1)));
    assert_eq!(balances.amounts.len(), 0);
    assert_eq!(copy.amounts.get(&GenesisAddress::PublicKey(public(1))), Some(&native(5)));
}

fn empty_accounts() -> (Table<Address, AccountKeys>, Table<Address, PublicKey>) {
    (Table::new(), Table::new())
}

#[test]
fn a_bond_takes_its_amount_from_the_balance() {
    let source = GenesisAddress::PublicKey(public(1));
    let other = GenesisAddress::PublicKey(public(2));
    let validator = Address::Established(EstablishedAddress { hash: [7; 20] });
    let (accounts, mut validators) = empty_accounts();
    validators.insert(validator, pair(11).public);
    let mut amounts = Table::new();
    amounts.insert(source, native(10));
    amounts.insert(other, native(5));
    let mut book = Table::new();
    book.insert("nam".to_string(), TokenBalancesForValidation { amounts });

    let bond = signed_bond(source, validator, native(4), &[1]);
    let verdicts = answer_checks(bond.signature_checks(&[pair(1).public]));
    let validated =
        validate_bond(bond.clone(), &mut book, &accounts, &validators, &parameters(), &verdicts);
    assert_eq!(validated.unwrap().amount, native(4));
    let nam = book.get(&"nam".to_string()).unwrap();
    assert_eq!(nam.amounts.get(&source), Some(&native(6)));
    assert_eq!(nam.amounts.get(&other), Some(&native(5)));

    // Even a bond that nobody signed takes its amount, as long as it can be paid
    let unsigned = signed_bond(source, validator, native(6), &[]);
    let validated =
        validate_bond(unsigned, &mut book, &accounts, &validators, &parameters(), &verdicts);
    assert!(validated.is_none());
    let nam = book.get(&"nam".to_string()).unwrap();
    assert_eq!(nam.amounts.get(&source), None);

    let validated = validate_bond(bond, &mut book, &accounts, &validators, &parameters(), &verdicts);
    assert!(validated.is_none());
}

#[test]
fn an_account_signs_with_its_own_threshold() {
    let mut addresses: AddressBook = Table::new();
    let (validator, mut txs) = make_validator(0, &mut addresses);
    let account = make_account(2, &[1, 2, 3]);
    let source = GenesisAddress::EstablishedAddress(remember(&mut addresses, &account));
    txs.established_account = Some(vec![account]);
    let balances = balances(&[(source, native(10))]);
    txs.bond = Some(vec![signed_bond(source, validator, native(1), &[1, 3])]);
    assert!(is_valid(txs.clone(), Some(&balances), &addresses));
    txs.bond = Some(vec![signed_bond(source, validator, native(1), &[1])]);
    assert!(!is_valid(txs, Some(&balances), &addresses));
}

#[test]
fn the_questions_decide() {
    let mut addresses: AddressBook = Table::new();
    let (_, txs) = make_validator(100, &mut addresses);
    let checks = signature_checks(&txs, &addresses);
    // One for each key of the account, and one for the bond
    assert_eq!(checks.len(), 7);
    let source = match txs.bond.as_ref().unwrap()[0].data.validator {
        Address::Established(address) => GenesisAddress::EstablishedAddress(address),
        _ => panic!("a validator has an established address"),
    };
    let balances = balances(&[(source, native(100))]);
    // Without an answer, a signature counts as invalid
    let verdicts: Verdicts = Table::new();
    let validated = validate(
        txs.clone(),
        Some(&vps()),
        Some(&balances),
        Some(&parameters()),
        &addresses,
        &verdicts,
    );
    assert!(validated.is_none());
    // Answers to other questions change nothing
    let mut verdicts = answer_checks(checks);
    verdicts.insert(
        SignatureCheck {
            message: vec![1, 2, 3],
            key: pair(1).public,
            signature: Signature::Ed25519([0; 64]),
        },
        true,
    );
    let validated = validate(
        txs,
        Some(&vps()),
        Some(&balances),
        Some(&parameters()),
        &addresses,
        &verdicts,
    );
    assert!(validated.is_some());
}

// Faults

#[test]
fn faults_of_established_accounts() {
    let mut addresses: AddressBook = Table::new();
    let good = make_account(1, &[1]);
    let mut bad = make_account(0, &[]);
    bad.vp = "vp_other".to_string();
    remember(&mut addresses, &good);
    remember(&mut addresses, &bad);
    let txs: Transactions<Unvalidated> = Transactions {
        established_account: Some(vec![good.clone(), bad, good]),
        ..Transactions::default()
    };
    assert_eq!(
        faults(&txs, None, &addresses),
        vec![
            Fault::Established(1, EstablishedFault::ZeroThreshold),
            Fault::Established(1, EstablishedFault::UnknownVp),
            Fault::Established(1, EstablishedFault::NoPublicKeys),
            Fault::Established(2, EstablishedFault::DuplicateAddress),
        ]
    );
}

#[test]
fn faults_of_validator_accounts() {
    let mut addresses: AddressBook = Table::new();
    let mut tx = signed_with_rate(Dec { raw: Uint(DEC_ONE + 1, 0, 0, 0) });
    let forged = StringEncoded::new(Signature::Ed25519([0; 64]));
    tx.consensus_key.authorization = forged;
    tx.eth_hot_key.authorization = forged;
    remember(&mut addresses, &UnsignedValidatorAccountTx::from(&tx));
    let mut txs: Transactions<Unvalidated> = Transactions {
        validator_account: Some(vec![tx.clone()]),
        ..Transactions::default()
    };
    let expected = vec![
        Fault::Validator(0, ValidatorFault::CommissionRate),
        Fault::Validator(0, ValidatorFault::Unauthorized(ValidatorKey::Consensus)),
        Fault::Validator(0, ValidatorFault::Unauthorized(ValidatorKey::EthHot)),
    ];
    assert_eq!(faults(&txs, None, &addresses), expected);
    let verdicts = answer_checks(signature_checks(&txs, &addresses));
    let no_vps = find_faults(&txs, None, None, None, &addresses, &verdicts);
    assert!(no_vps.contains(&Fault::Validator(0, ValidatorFault::UnknownVp)));
    assert_eq!(no_vps.len(), 4);

    // Were every other authorization forged, and the address in use
    tx.account_key.authorization = forged;
    tx.protocol_key.authorization = forged;
    tx.tendermint_node_key.authorization = forged;
    tx.eth_cold_key.authorization = forged;
    let account = make_account(1, &[1]);
    let address = UnsignedValidatorAccountTx::from(&tx).derive_established_address(&addresses);
    addresses.insert(account.derivation(), address);
    txs.established_account = Some(vec![account]);
    txs.validator_account = Some(vec![tx]);
    let all = faults(&txs, None, &addresses);
    assert_eq!(all.len(), 8);
    assert_eq!(all[0], Fault::Validator(0, ValidatorFault::DuplicateAddress));
    for key in [
        ValidatorKey::Account,
        ValidatorKey::Consensus,
        ValidatorKey::Protocol,
        ValidatorKey::TendermintNode,
        ValidatorKey::EthHot,
        ValidatorKey::EthCold,
    ] {
        assert!(all.contains(&Fault::Validator(0, ValidatorFault::Unauthorized(key))));
    }
}

#[test]
fn faults_of_bonds() {
    let mut addresses: AddressBook = Table::new();
    let (validator, mut txs) = make_validator(0, &mut addresses);
    let source = GenesisAddress::PublicKey(public(1));
    let poor = GenesisAddress::PublicKey(public(2));
    let unknown = GenesisAddress::EstablishedAddress(EstablishedAddress { hash: [9; 20] });
    let nobody = Address::Established(EstablishedAddress { hash: [7; 20] });
    let mut fine = native(1);
    fine.denom = 7;
    let huge = DenominatedAmount { amount: Amount { raw: Uint(0, 0, 0, u64::MAX) }, denom: 0 };
    txs.bond = Some(vec![
        signed_bond(source, validator, native(6), &[1]),
        signed_bond(source, nobody, native(1), &[2]),
        signed_bond(source, validator, native(4), &[1]),
        signed_bond(poor, validator, native(1), &[2]),
        signed_bond(unknown, validator, native(1), &[1]),
        signed_bond(source, nobody, fine, &[1]),
        signed_bond(source, nobody, huge, &[1]),
    ]);
    let book = balances(&[(source, native(10)), (unknown, native(1))]);
    assert_eq!(
        faults(&txs, Some(&book), &addresses),
        vec![
            Fault::Bond(1, BondFault::InvalidSignature),
            Fault::Bond(1, BondFault::UnknownValidator),
            // The bond before it is not valid, but has used up a part of the balance
            Fault::Bond(2, BondFault::InsufficientBalance(native(3))),
            Fault::Bond(3, BondFault::NoBalance),
            Fault::Bond(4, BondFault::UnknownSource),
            Fault::Bond(5, BondFault::Amount(AmountError::PrecisionDecrease)),
            Fault::Bond(6, BondFault::Amount(AmountError::PrecisionOverflow)),
        ]
    );
    txs.bond = Some(vec![signed_bond(source, validator, native(1), &[1])]);
    assert_eq!(faults(&txs, None, &addresses), vec![Fault::Bond(0, BondFault::NoToken)]);
    let verdicts = answer_checks(signature_checks(&txs, &addresses));
    assert_eq!(
        find_faults(&txs, Some(&vps()), Some(&book), None, &addresses, &verdicts),
        vec![Fault::MissingParameters]
    );
    assert_eq!(faults(&txs, Some(&book), &addresses), vec![]);
}
