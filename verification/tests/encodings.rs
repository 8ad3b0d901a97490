use genesis_transactions::account::{
    EstablishedAccountTx, UnsignedValidatorAccountTx, ValidatorAccountTx,
};
use genesis_transactions::address::{
    Address, EstablishedAddress, GenesisAddress, ImplicitAddress, InternalAddress, SocketAddr,
};
use genesis_transactions::amount::{Amount, Dec, DenominatedAmount, Uint};
use genesis_transactions::answers::DeriveEstablishedAddress;
use genesis_transactions::bond::BondTx;
use genesis_transactions::codec::Encode;
use genesis_transactions::keys::{PublicKey, StringEncoded};
use genesis_transactions::templates::Unvalidated;

fn key(byte: u8) -> StringEncoded<PublicKey> {
    StringEncoded::new(PublicKey::Ed25519([byte; 32]))
}

fn validator() -> UnsignedValidatorAccountTx {
    ValidatorAccountTx {
        vp: "vp".to_string(),
        commission_rate: Dec { raw: Uint(1, 0, 0, 0) },
        max_commission_rate_change: Dec { raw: Uint(2, 0, 0, 0) },
        email: "é".to_string(),
        description: Some("d".to_string()),
        website: None,
        discord_handle: Some(String::new()),
        net_address: SocketAddr::V4([127, 0, 0, 1], 0x1234),
        account_key: key(1),
        consensus_key: key(2),
        protocol_key: key(3),
        tendermint_node_key: key(4),
        eth_hot_key: key(5),
        eth_cold_key: key(6),
    }
}

#[test]
fn public_keys() {
    let mut expected = vec![0u8];
    expected.extend([9u8; 32]);
    assert_eq!(PublicKey::Ed25519([9; 32]).serialize_to_vec(), expected);
    let mut expected = vec![1u8];
    expected.extend([8u8; 33]);
    assert_eq!(PublicKey::Secp256k1([8; 33]).serialize_to_vec(), expected);
}

#[test]
fn addresses() {
    let mut expected = vec![0u8];
    expected.extend([5u8; 20]);
    let established = EstablishedAddress { hash: [5; 20] };
    assert_eq!(Address::Established(established).serialize_to_vec(), expected);
    assert_eq!(GenesisAddress::EstablishedAddress(established).serialize_to_vec(), expected);
    expected[0] = 1;
    let implicit = Address::Implicit(ImplicitAddress { hash: [5; 20] });
    assert_eq!(implicit.serialize_to_vec(), expected);
    let single = Address::Internal(InternalAddress::Single(7));
    assert_eq!(single.serialize_to_vec(), vec![2, 7]);
    let hashed = Address::Internal(InternalAddress::Hashed(8, [5; 20]));
    let mut expected = vec![2u8, 8];
    expected.extend([5u8; 20]);
    assert_eq!(hashed.serialize_to_vec(), expected);
    let mut expected = vec![1u8, 0];
    expected.extend([3u8; 32]);
    assert_eq!(GenesisAddress::PublicKey(key(3)).serialize_to_vec(), expected);
}

#[test]
fn network_addresses() {
    assert_eq!(
        SocketAddr::V4([10, 1, 2, 3], 0x1234).serialize_to_vec(),
        vec![0, 10, 1, 2, 3, 0x34, 0x12]
    );
    let mut expected = vec![1u8];
    expected.extend([4u8; 16]);
    expected.extend([0x01u8, 0x00]);
    assert_eq!(SocketAddr::V6([4; 16], 1, 0, 0).serialize_to_vec(), expected);
    // Flow information and scope are not encoded
    assert_eq!(SocketAddr::V6([4; 16], 1, 2, 3).serialize_to_vec(), expected);
}

#[test]
fn established_accounts() {
    let tx = EstablishedAccountTx {
        vp: "vp_é".to_string(),
        threshold: 2,
        public_keys: vec![key(1), key(2)],
    };
    let mut expected = vec![5u8, 0, 0, 0];
    expected.extend("vp_é".as_bytes());
    expected.push(2);
    expected.extend([2u8, 0, 0, 0, 0]);
    expected.extend([1u8; 32]);
    expected.push(0);
    expected.extend([2u8; 32]);
    assert_eq!(tx.serialize_to_vec(), expected);
    let derivation = tx.derivation();
    assert_eq!(derivation.salt, "established-account-tx");
    assert_eq!(derivation.data, expected);
}

#[test]
fn validator_accounts() {
    let tx = validator();
    let mut expected = vec![2u8, 0, 0, 0];
    expected.extend("vp".as_bytes());
    expected.push(1);
    expected.extend([0u8; 31]);
    expected.push(2);
    expected.extend([0u8; 31]);
    expected.extend([2u8, 0, 0, 0]);
    expected.extend("é".as_bytes());
    expected.extend([1u8, 1, 0, 0, 0]);
    expected.extend("d".as_bytes());
    expected.push(0);
    expected.extend([1u8, 0, 0, 0, 0]);
    expected.extend([0u8, 127, 0, 0, 1, 0x34, 0x12]);
    for byte in 1u8..7 {
        expected.push(0);
        expected.extend([byte; 32]);
    }
    assert_eq!(tx.serialize_to_vec(), expected);
    let derivation = tx.derivation();
    assert_eq!(derivation.salt, "validator-account-tx");
    assert_eq!(derivation.data, expected);
}

#[test]
fn the_data_of_a_bond_is_signed_as_a_byte_string() {
    let bond: BondTx<Unvalidated> = BondTx {
        source: GenesisAddress::PublicKey(key(3)),
        validator: Address::Established(EstablishedAddress { hash: [5; 20] }),
        amount: DenominatedAmount { amount: Amount { raw: Uint(9, 0, 0, 0) }, denom: 6 },
    };
    let mut data = vec![1u8, 0];
    data.extend([3u8; 32]);
    data.push(0);
    data.extend([5u8; 20]);
    data.push(9);
    data.extend([0u8; 31]);
    data.push(6);
    assert_eq!(bond.data_to_sign(), data);
    let mut message = vec![data.len() as u8, 0, 0, 0];
    message.extend(data);
    assert_eq!(bond.message_to_sign(), message);
}

#[test]
fn different_bonds_have_different_messages() {
    let bond: BondTx<Unvalidated> = BondTx {
        source: GenesisAddress::PublicKey(key(3)),
        validator: Address::Established(EstablishedAddress { hash: [5; 20] }),
        amount: DenominatedAmount { amount: Amount { raw: Uint(9, 0, 0, 0) }, denom: 6 },
    };
    let mut other = bond;
    other.amount.denom = 5;
    assert_ne!(bond.message_to_sign(), other.message_to_sign());
    let mut other = bond;
    other.validator = Address::Implicit(ImplicitAddress { hash: [5; 20] });
    assert_ne!(bond.message_to_sign(), other.message_to_sign());
    assert_eq!(bond.message_to_sign(), bond.message_to_sign());
}
