//! Sets of genesis transactions.

use crate::account::{EstablishedAccountTx, SignedValidatorAccountTx, UnsignedValidatorAccountTx};
use crate::address::Address;
use crate::amount::{lemma_uint_from, lemma_uint_view, uint_from, uint_limit, Amount, Dec};
use crate::answers::{StakeConversion, VotingPowers};
use crate::bond::BondTx;
use crate::table::Table;
use crate::templates::{TemplateValidation, Unvalidated, Validated};
use vstd::prelude::*;

verus! {

/// Transactions, with the account transactions signed.
#[derive(Clone, Debug, PartialEq, Eq)]
pub struct Transactions<T: TemplateValidation> {
    pub established_account: Option<Vec<EstablishedAccountTx>>,
    pub validator_account: Option<Vec<SignedValidatorAccountTx>>,
    pub bond: Option<Vec<T::BondTx>>,
}

/// Transactions that are not signed yet.
#[derive(Clone, Debug, PartialEq, Eq)]
pub struct UnsignedTransactions {
    pub established_account: Option<Vec<EstablishedAccountTx>>,
    pub validator_account: Option<Vec<UnsignedValidatorAccountTx>>,
    pub bond: Option<Vec<BondTx<Unvalidated>>>,
}

/// The contents of [`Transactions`].
#[verifier::ext_equal]
pub struct TransactionsView<B> {
    pub established_account: Option<Seq<EstablishedAccountTx>>,
    pub validator_account: Option<Seq<SignedValidatorAccountTx>>,
    pub bond: Option<Seq<B>>,
}

/// The contents of an optional list.
pub open spec fn contents<A>(list: Option<Vec<A>>) -> Option<Seq<A>> {
    match list {
        Some(list) => Some(list@),
        None => None,
    }
}

/// The items of an optional list; none where there is no list.
pub open spec fn items<A>(list: Option<Vec<A>>) -> Seq<A> {
    match list {
        Some(list) => list@,
        None => Seq::empty(),
    }
}

/// The union of two optional lists: the items of the first, then those of the
/// second.
pub open spec fn joined<A>(a: Option<Seq<A>>, b: Option<Seq<A>>) -> Option<Seq<A>> {
    match (a, b) {
        (Some(a), Some(b)) => Some(a + b),
        (Some(a), None) => Some(a),
        (None, b) => b,
    }
}

impl<B> TransactionsView<B> {
    /// No transactions.
    pub open spec fn none() -> Self {
        TransactionsView { established_account: None, validator_account: None, bond: None }
    }

    /// The union of two sets of transactions.
    pub open spec fn merge(self, other: Self) -> Self {
        TransactionsView {
            established_account: joined(self.established_account, other.established_account),
            validator_account: joined(self.validator_account, other.validator_account),
            bond: joined(self.bond, other.bond),
        }
    }
}

impl<T: TemplateValidation> View for Transactions<T> {
    type V = TransactionsView<T::BondTx>;

    open spec fn view(&self) -> TransactionsView<T::BondTx> {
        TransactionsView {
            established_account: contents(self.established_account),
            validator_account: contents(self.validator_account),
            bond: contents(self.bond),
        }
    }
}

/// The union of two optional lists.
fn join<A>(a: Option<Vec<A>>, b: Option<Vec<A>>) -> (r: Option<Vec<A>>)
    ensures
        contents(r) == joined(contents(a), contents(b)),
{
    match a {
        Some(mut txs) => {
            match b {
                Some(mut new_txs) => {
                    txs.append(&mut new_txs);
                },
                None => {},
            }
            Some(txs)
        },
        None => b,
    }
}

impl<T: TemplateValidation> Transactions<T> {
    /// Take the union of two sets of transactions
    pub fn merge(&mut self, other: Self)
        ensures
            final(self)@ == old(self)@.merge(other@),
            items(final(self).established_account) == items(old(self).established_account) + items(
                other.established_account,
            ),
            items(final(self).validator_account) == items(old(self).validator_account) + items(
                other.validator_account,
            ),
            items(final(self).bond) == items(old(self).bond) + items(other.bond),
            final(self).established_account is Some <==> old(self).established_account is Some
                || other.established_account is Some,
            final(self).validator_account is Some <==> old(self).validator_account is Some
                || other.validator_account is Some,
            final(self).bond is Some <==> old(self).bond is Some || other.bond is Some,
    {
        self.established_account =
            join(self.established_account.take(), other.established_account);
        self.validator_account = join(self.validator_account.take(), other.validator_account);
        self.bond = join(self.bond.take(), other.bond);
    }
}

impl<T: TemplateValidation> Default for Transactions<T> {
    fn default() -> (r: Self)
        ensures
            r@ == TransactionsView::<T::BondTx>::none(),
            r.established_account is None,
            r.validator_account is None,
            r.bond is None,
    {
        Transactions { established_account: None, validator_account: None, bond: None }
    }
}

impl Default for UnsignedTransactions {
    fn default() -> (r: Self)
        ensures
            r.established_account is None,
            r.validator_account is None,
            r.bond is None,
    {
        UnsignedTransactions { established_account: None, validator_account: None, bond: None }
    }
}

/// The number of tokens that the bonds give to `validator`.
pub open spec fn stake_of(bonds: Seq<BondTx<Validated>>, validator: Address) -> nat
    decreases bonds.len(),
{
    if bonds.len() == 0 {
        0
    } else {
        stake_of(bonds.drop_last(), validator) + if bonds.last().validator == validator {
            bonds.last().amount.amount@
        } else {
            0
        }
    }
}

/// Whether the tokens that are bonded to a validator always fit into 256 bits.
pub open spec fn stakes_fit(bonds: Seq<BondTx<Validated>>) -> bool {
    forall|v: Address| #[trigger] stake_of(bonds, v) < uint_limit()
}

/// Whether one of the bonds is for `validator`.
pub open spec fn is_bonded(bonds: Seq<BondTx<Validated>>, validator: Address) -> bool {
    exists|i: int| 0 <= i < bonds.len() && (#[trigger] bonds[i]).validator == validator
}

/// The question for the voting power of `validator`.
pub open spec fn conversion_of(
    bonds: Seq<BondTx<Validated>>,
    validator: Address,
    votes_per_token: Dec,
) -> StakeConversion {
    StakeConversion {
        votes_per_token,
        stake: Amount { raw: uint_from(stake_of(bonds, validator)) },
    }
}

/// Whether one of the validators with bonds has positive voting power.
pub open spec fn has_voting_power(
    bonds: Seq<BondTx<Validated>>,
    votes_per_token: Dec,
    powers: Map<StakeConversion, i64>,
) -> bool {
    exists|v: Address| #[trigger]
        is_bonded(bonds, v) && powers[conversion_of(bonds, v, votes_per_token)] > 0
}

/// The first bonds do not give more to a validator than all.
proof fn lemma_stake_of_prefix(bonds: Seq<BondTx<Validated>>, n: int, validator: Address)
    requires
        0 <= n <= bonds.len(),
    ensures
        stake_of(bonds.take(n), validator) <= stake_of(bonds, validator),
    decreases bonds.len(),
{
    if n < bonds.len() {
        lemma_stake_of_prefix(bonds.drop_last(), n, validator);
        assert(bonds.drop_last().take(n) =~= bonds.take(n));
    } else {
        assert(bonds.take(n) =~= bonds);
    }
}

/// Without a bond there is no stake.
proof fn lemma_not_bonded(bonds: Seq<BondTx<Validated>>, validator: Address)
    requires
        !is_bonded(bonds, validator),
    ensures
        stake_of(bonds, validator) == 0,
    decreases bonds.len(),
{
    if bonds.len() > 0 {
        assert(bonds[bonds.len() - 1].validator != validator);
        assert forall|i: int| 0 <= i < bonds.drop_last().len() implies (
        #[trigger] bonds.drop_last()[i]).validator != validator by {
            assert(bonds[i].validator != validator);
        }
        lemma_not_bonded(bonds.drop_last(), validator);
    }
}

impl Transactions<Validated> {
    /// Check that there is at least one validator.
    pub fn has_at_least_one_validator(&self) -> (r: bool)
        ensures
            r == (items(self.validator_account).len() > 0),
            r <==> self.validator_account is Some && self.validator_account->0@.len() > 0,
    {
        match &self.validator_account {
            Some(txs) => txs.len() > 0,
            None => false,
        }
    }

    /// The tokens that are bonded to each validator. There is no answer where those
    /// of one of them do not fit into 256 bits.
    pub fn validator_stakes(&self) -> (r: Option<Table<Address, Amount>>)
        ensures
            r is Some <==> stakes_fit(items(self.bond)),
            r matches Some(stakes) ==> {
                &&& forall|v: Address| #[trigger]
                    stakes@.contains_key(v) <==> is_bonded(items(self.bond), v)
                &&& forall|v: Address| #[trigger]
                    stakes@.contains_key(v) ==> stakes@[v] == stake_of(items(self.bond), v)
            },
    {
        let mut stakes: Table<Address, Amount> = Table::new();
        match &self.bond {
            Some(txs) => {
                let mut i: usize = 0;
                assert(items(self.bond) == txs@);
                assert(txs@.take(0) =~= Seq::empty());
                while i < txs.len()
                    invariant
                        i <= txs@.len(),
                        items(self.bond) == txs@,
                        forall|v: Address| #[trigger]
                            stake_of(txs@.take(i as int), v) < uint_limit(),
                        forall|v: Address| #[trigger]
                            stakes@.contains_key(v) <==> is_bonded(txs@.take(i as int), v),
                        forall|v: Address| #[trigger]
                            stakes@.contains_key(v) ==> stakes@[v] == stake_of(
                                txs@.take(i as int),
                                v,
                            ),
                    decreases txs@.len() - i,
                {
                    let ghost before = txs@.take(i as int);
                    let ghost after = txs@.take(i + 1);
                    let validator: Address = txs[i].validator;
                    let entry: Amount = match stakes.get(&validator) {
                        Some(stake) => *stake,
                        None => Amount::zero(),
                    };
                    proof {
                        if !stakes@.contains_key(validator) {
                            lemma_not_bonded(before, validator);
                        }
                        assert(after.drop_last() =~= before);
                        assert(after.last() == txs@[i as int]);
                        lemma_stake_of_prefix(txs@, i + 1, validator);
                    }
                    let sum: Amount = match entry.raw.checked_add(&txs[i].amount.amount.raw) {
                        Some(raw) => Amount { raw },
                        None => {
                            assert(stake_of(txs@, validator) >= uint_limit());
                            return None;
                        },
                    };
                    proof {
                        lemma_uint_view(sum.raw, sum.raw);
                        assert forall|v: Address| #[trigger] stake_of(after, v)
                            < uint_limit() by {
                            assert(stake_of(before, v) < uint_limit());
                        }
                    }
                    let ghost stakes_before = stakes@;
                    stakes.insert(validator, sum);
                    proof {
                        assert forall|v: Address| #[trigger]
                            stakes@.contains_key(v) <==> is_bonded(after, v) by {
                            if v == validator {
                                assert(after[i as int].validator == v);
                            } else if is_bonded(after, v) {
                                let j = choose|j: int|
                                    0 <= j < after.len() && (#[trigger] after[j]).validator == v;
                                assert(before[j].validator == v);
                            } else if stakes_before.contains_key(v) {
                                let j = choose|j: int|
                                    0 <= j < before.len() && (#[trigger] before[j]).validator == v;
                                assert(after[j].validator == v);
                            }
                        }
                        assert forall|v: Address| #[trigger] stakes@.contains_key(v) implies stakes@[v]
                            == stake_of(after, v) by {
                            if v != validator {
                                assert(stakes_before.contains_key(v));
                            }
                        }
                    }
                    i = i + 1;
                }
                assert(txs@.take(i as int) =~= txs@);
            },
            None => {},
        }
        Some(stakes)
    }

    /// What has to be known to tell which validators have voting power.
    pub fn stake_conversions(&self, votes_per_token: Dec) -> (r: Vec<StakeConversion>)
        requires
            stakes_fit(items(self.bond)),
        ensures
            forall|q: StakeConversion| #[trigger]
                r@.contains(q) <==> exists|v: Address| #[trigger]
                    is_bonded(items(self.bond), v) && q == conversion_of(
                        items(self.bond),
                        v,
                        votes_per_token,
                    ),
    {
        let ghost bonds = items(self.bond);
        let stakes: Table<Address, Amount> = self.validator_stakes().unwrap();
        proof {
            stakes.lemma_keys();
        }
        let mut r: Vec<StakeConversion> = Vec::new();
        let mut i: usize = 0;
        while i < stakes.len()
            invariant
                i <= stakes.keys().len(),
                r@.len() == i,
                bonds == items(self.bond),
                stakes_fit(bonds),
                forall|v: Address| #[trigger]
                    stakes@.contains_key(v) ==> stakes@[v] == stake_of(bonds, v),
                forall|k: Address| stakes@.contains_key(k) <==> #[trigger] stakes.keys().contains(k),
                forall|j: int|
                    0 <= j < i ==> #[trigger] r@[j] == conversion_of(
                        bonds,
                        stakes.keys()[j],
                        votes_per_token,
                    ),
            decreases stakes.keys().len() - i,
        {
            let stake: Amount = *stakes.value_at(i);
            proof {
                let v = stakes.keys()[i as int];
                assert(stakes.keys().contains(v));
                lemma_conversion(bonds, v, votes_per_token, stake);
            }
            r.push(StakeConversion { votes_per_token, stake });
            i = i + 1;
        }
        proof {
            assert forall|q: StakeConversion| #[trigger]
                r@.contains(q) <==> exists|v: Address| #[trigger]
                    is_bonded(bonds, v) && q == conversion_of(bonds, v, votes_per_token) by {
                if r@.contains(q) {
                    let j = choose|j: int| 0 <= j < r@.len() && r@[j] == q;
                    let v = stakes.keys()[j];
                    assert(stakes.keys().contains(v));
                    assert(stakes@.contains_key(v));
                    assert(is_bonded(bonds, v));
                }
                if exists|v: Address| #[trigger]
                    is_bonded(bonds, v) && q == conversion_of(bonds, v, votes_per_token) {
                    let v = choose|v: Address| #[trigger]
                        is_bonded(bonds, v) && q == conversion_of(bonds, v, votes_per_token);
                    assert(stakes@.contains_key(v));
                    assert(stakes.keys().contains(v));
                    let j = choose|j: int| 0 <= j < stakes.keys().len() && stakes.keys()[j] == v;
                    assert(r@[j] == q);
                }
            }
        }
        r
    }

    /// Check if there is at least one validator with positive Tendermint voting
    /// power. The voting power is converted from the validator's stake using the
    /// `tm_votes_per_token` PoS parameter.
    pub fn has_validator_with_positive_voting_power(
        &self,
        votes_per_token: Dec,
        powers: &VotingPowers,
    ) -> (r: bool)
        requires
            stakes_fit(items(self.bond)),
            forall|v: Address| #[trigger]
                is_bonded(items(self.bond), v) ==> powers@.contains_key(
                    conversion_of(items(self.bond), v, votes_per_token),
                ),
        ensures
            r == has_voting_power(items(self.bond), votes_per_token, powers@),
            r <==> exists|i: int|
                0 <= i < items(self.bond).len() && powers@[conversion_of(
                    items(self.bond),
                    (#[trigger] items(self.bond)[i]).validator,
                    votes_per_token,
                )] >= 1,
    {
        let ghost bonds = items(self.bond);
        let stakes: Table<Address, Amount> = self.validator_stakes().unwrap();
        proof {
            stakes.lemma_keys();
        }
        let mut i: usize = 0;
        while i < stakes.len()
            invariant
                i <= stakes.keys().len(),
                bonds == items(self.bond),
                stakes_fit(bonds),
                forall|v: Address| #[trigger]
                    is_bonded(bonds, v) ==> powers@.contains_key(
                        conversion_of(bonds, v, votes_per_token),
                    ),
                forall|v: Address| #[trigger] stakes@.contains_key(v) <==> is_bonded(bonds, v),
                forall|v: Address| #[trigger]
                    stakes@.contains_key(v) ==> stakes@[v] == stake_of(bonds, v),
                forall|k: Address| stakes@.contains_key(k) <==> #[trigger] stakes.keys().contains(k),
                forall|j: int|
                    0 <= j < i ==> powers@[conversion_of(
                        bonds,
                        #[trigger] stakes.keys()[j],
                        votes_per_token,
                    )] <= 0,
            decreases stakes.keys().len() - i,
        {
            let stake: Amount = *stakes.value_at(i);
            let ghost v = stakes.keys()[i as int];
            proof {
                assert(stakes.keys().contains(v));
                lemma_conversion(bonds, v, votes_per_token, stake);
                assert(stakes@.contains_key(v));
                assert(is_bonded(bonds, v));
                let k = choose|k: int| 0 <= k < bonds.len() && (#[trigger] bonds[k]).validator == v;
                assert(bonds[k].validator == v);
            }
            let question: StakeConversion = StakeConversion { votes_per_token, stake };
            let tendermint_voting_power: i64 = *powers.get(&question).unwrap();
            if tendermint_voting_power > 0 {
                return true;
            }
            i = i + 1;
        }
        proof {
            assert forall|v: Address| #[trigger] is_bonded(bonds, v) implies powers@[conversion_of(
                bonds,
                v,
                votes_per_token,
            )] <= 0 by {
                assert(stakes@.contains_key(v));
                assert(stakes.keys().contains(v));
                let j = choose|j: int| 0 <= j < stakes.keys().len() && stakes.keys()[j] == v;
                assert(stakes.keys()[j] == v);
            }
            assert forall|k: int| 0 <= k < bonds.len() implies powers@[conversion_of(
                bonds,
                (#[trigger] bonds[k]).validator,
                votes_per_token,
            )] <= 0 by {
                assert(is_bonded(bonds, bonds[k].validator));
            }
        }
        false
    }
}

/// A stake is the one that its question names.
proof fn lemma_conversion(
    bonds: Seq<BondTx<Validated>>,
    validator: Address,
    votes_per_token: Dec,
    stake: Amount,
)
    requires
        stake@ == stake_of(bonds, validator),
    ensures
        (StakeConversion { votes_per_token, stake }) == conversion_of(
            bonds,
            validator,
            votes_per_token,
        ),
{
    lemma_uint_view(stake.raw, stake.raw);
    lemma_uint_from(stake@);
    lemma_uint_view(stake.raw, uint_from(stake@));
}

} // verus!
