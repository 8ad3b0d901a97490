use genesis_transactions::account::EstablishedAccountTx;
use genesis_transactions::address::{Address, EstablishedAddress, GenesisAddress};
use genesis_transactions::amount::{Amount, Dec, DenominatedAmount, Uint};
use genesis_transactions::answers::{StakeConversion, VotingPowers};
use genesis_transactions::bond::BondTx;
use genesis_transactions::keys::{PublicKey, StringEncoded};
use genesis_transactions::table::Table;
use genesis_transactions::templates::Validated;
use genesis_transactions::transactions::Transactions;

fn account(name: &str) -> EstablishedAccountTx {
    EstablishedAccountTx { vp: name.to_string(), threshold: 1, public_keys: vec![] }
}

fn accounts(names: &[&str]) -> Transactions<Validated> {
    Transactions {
        established_account: Some(names.iter().map(|n| account(n)).collect()),
        ..Transactions::default()
    }
}

fn address(byte: u8) -> Address {
    Address::Established(EstablishedAddress { hash: [byte; 20] })
}

fn bond(validator: u8, raw: Uint) -> BondTx<Validated> {
    BondTx {
        source: GenesisAddress::PublicKey(StringEncoded::new(PublicKey::Ed25519([1; 32]))),
        validator: address(validator),
        amount: DenominatedAmount { amount: Amount { raw }, denom: 6 },
    }
}

fn bonds(list: Vec<BondTx<Validated>>) -> Transactions<Validated> {
    Transactions { bond: Some(list), ..Transactions::default() }
}

#[test]
fn merging_puts_lists_one_after_the_other() {
    let mut txs = accounts(&["a", "b"]);
    txs.merge(accounts(&["c"]));
    assert_eq!(txs, accounts(&["a", "b", "c"]));
    txs.merge(bonds(vec![bond(1, Uint(1, 0, 0, 0))]));
    assert_eq!(txs.established_account, accounts(&["a", "b", "c"]).established_account);
    assert_eq!(txs.bond, Some(vec![bond(1, Uint(1, 0, 0, 0))]));
    assert_eq!(txs.validator_account, None);
}

#[test]
fn merging_with_nothing_changes_nothing() {
    let mut txs = accounts(&["a"]);
    txs.merge(Transactions::default());
    assert_eq!(txs, accounts(&["a"]));
    let mut nothing: Transactions<Validated> = Transactions::default();
    nothing.merge(txs);
    assert_eq!(nothing, accounts(&["a"]));
    let mut nothing: Transactions<Validated> = Transactions::default();
    nothing.merge(Transactions::default());
    assert_eq!(nothing.established_account, None);
}

#[test]
fn merging_is_associative() {
    let mut left = accounts(&["a"]);
    left.merge(accounts(&["b"]));
    left.merge(accounts(&["c"]));
    let mut tail = accounts(&["b"]);
    tail.merge(accounts(&["c"]));
    let mut right = accounts(&["a"]);
    right.merge(tail);
    assert_eq!(left, right);
}

#[test]
fn validators_are_counted() {
    let mut txs: Transactions<Validated> = Transactions::default();
    assert!(!txs.has_at_least_one_validator());
    txs.validator_account = Some(vec![]);
    assert!(!txs.has_at_least_one_validator());
}

#[test]
fn stakes_are_summed_by_validator() {
    let txs = bonds(vec![
        bond(1, Uint(3, 0, 0, 0)),
        bond(2, Uint(5, 0, 0, 0)),
        bond(1, Uint(4, 0, 0, 0)),
    ]);
    let stakes = txs.validator_stakes().unwrap();
    assert_eq!(stakes.len(), 2);
    assert_eq!(stakes.get(&address(1)), Some(&Amount { raw: Uint(7, 0, 0, 0) }));
    assert_eq!(stakes.get(&address(2)), Some(&Amount { raw: Uint(5, 0, 0, 0) }));
    assert_eq!(stakes.get(&address(3)), None);
}

#[test]
fn a_stake_that_does_not_fit_is_told() {
    let max = Uint(u64::MAX, u64::MAX, u64::MAX, u64::MAX);
    assert!(bonds(vec![bond(1, max), bond(1, Uint(1, 0, 0, 0))]).validator_stakes().is_none());
    assert!(bonds(vec![bond(1, max), bond(2, Uint(1, 0, 0, 0))]).validator_stakes().is_some());
}

// A vote for every three units
fn powers(txs: &Transactions<Validated>, rate: Dec) -> VotingPowers {
    let mut powers: VotingPowers = Table::new();
    for question in txs.stake_conversions(rate) {
        let votes = (question.stake.raw.0 / 3) as i64;
        powers.insert(question, votes);
    }
    powers
}

#[test]
fn voting_power_comes_from_the_whole_stake() {
    let rate = Dec { raw: Uint(1, 0, 0, 0) };
    let txs = bonds(vec![bond(1, Uint(2, 0, 0, 0)), bond(2, Uint(2, 0, 0, 0))]);
    assert!(!txs.has_validator_with_positive_voting_power(rate, &powers(&txs, rate)));
    let txs = bonds(vec![bond(1, Uint(2, 0, 0, 0)), bond(1, Uint(2, 0, 0, 0))]);
    assert!(txs.has_validator_with_positive_voting_power(rate, &powers(&txs, rate)));
}

#[test]
fn only_the_stakes_count() {
    let rate = Dec { raw: Uint(1, 0, 0, 0) };
    let (x, y, z) =
        (bond(1, Uint(2, 0, 0, 0)), bond(2, Uint(1, 0, 0, 0)), bond(1, Uint(3, 0, 0, 0)));
    let mut from_other = x;
    from_other.source =
        GenesisAddress::PublicKey(StringEncoded::new(PublicKey::Ed25519([2; 32])));
    for list in [
        vec![x, y, z],
        vec![z, y, x],
        vec![from_other, y, z],
        vec![bond(1, Uint(5, 0, 0, 0)), y],
    ] {
        let txs = bonds(list);
        let stakes = txs.validator_stakes().unwrap();
        assert_eq!(stakes.len(), 2);
        assert_eq!(stakes.get(&address(1)), Some(&Amount { raw: Uint(5, 0, 0, 0) }));
        assert_eq!(stakes.get(&address(2)), Some(&Amount { raw: Uint(1, 0, 0, 0) }));
        assert!(txs.has_validator_with_positive_voting_power(rate, &powers(&txs, rate)));
    }
}

#[test]
fn without_bonds_there_is_no_voting_power() {
    let rate = Dec { raw: Uint(1, 0, 0, 0) };
    let powers: VotingPowers = Table::new();
    let txs: Transactions<Validated> = Transactions::default();
    assert!(!txs.has_validator_with_positive_voting_power(rate, &powers));
    assert!(!bonds(vec![]).has_validator_with_positive_voting_power(rate, &powers));
}

#[test]
fn the_rate_is_part_of_the_question() {
    let txs = bonds(vec![bond(1, Uint(3, 0, 0, 0))]);
    let rate = Dec { raw: Uint(9, 0, 0, 0) };
    let questions: Vec<StakeConversion> = txs.stake_conversions(rate);
    assert_eq!(questions.len(), 1);
    assert_eq!(questions[0].votes_per_token, rate);
    assert_eq!(questions[0].stake, Amount { raw: Uint(3, 0, 0, 0) });
}
