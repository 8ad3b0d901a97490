//! What amounts, sets of transactions and stakes are, in terms of plain numbers and
//! lists.

use crate::address::Address;
use crate::amount::{
    dec_units, fits_native, lemma_pow10_positive, lemma_uint_from, lemma_uint_view, native_amount,
    pow10, precision_fits, rate_in_bounds, uint_from, uint_limit, worth_less, worth_same, Amount,
    Dec, DenominatedAmount, Uint,
};
use crate::answers::StakeConversion;
use crate::bond::{can_denominate, denominated, signable_amount, BondTx};
use crate::codec::option_chars;
use crate::templates::{Unvalidated, Validated};
use crate::transactions::{
    contents, conversion_of, has_voting_power, is_bonded, items, joined, stake_of, stakes_fit,
    TransactionsView,
};
use vstd::arithmetic::power::{lemma_pow0, pow};
use vstd::prelude::*;

verus! {

/// The limbs of a number are its digits to the base of two to the power of 64.
pub proof fn law_uint_is_its_limbs(a: Uint)
    ensures
        a@ == a.0 + 0x1_0000_0000_0000_0000 * a.1
            + 0x1_0000_0000_0000_0000_0000_0000_0000_0000 * a.2
            + 0x1_0000_0000_0000_0000_0000_0000_0000_0000_0000_0000_0000_0000 * a.3,
        uint_limit()
            == 0x1_0000_0000_0000_0000_0000_0000_0000_0000_0000_0000_0000_0000_0000_0000_0000_0000,
        a@ < uint_limit(),
        (Amount { raw: a })@ == a@,
        uint_from(a@) == a,
{
    lemma_uint_view(a, a);
    lemma_uint_from(a@);
    lemma_uint_view(a, uint_from(a@));
}

/// The powers of ten are those of arithmetic.
pub proof fn law_pow10_is_a_power(n: nat)
    ensures
        pow10(n) == pow(10, n),
    decreases n,
{
    if n == 0 {
        lemma_pow0(10);
    } else {
        law_pow10_is_a_power((n - 1) as nat);
        reveal(pow);
    }
}

/// A commission rate is in bounds if it is a whole number of 10^-12 from zero to one:
/// nothing negative, which has its highest bit set, and nothing above one.
pub proof fn law_rate_is_from_zero_to_one(rate: Dec)
    ensures
        rate_in_bounds(rate) <==> rate.raw.3 == 0 && rate.raw.2 == 0 && rate.raw.1 == 0
            && rate.raw.0 <= 1_000_000_000_000,
        rate_in_bounds(rate) ==> dec_units(rate) == rate.raw@,
        rate.raw.3 >= 0x8000_0000_0000_0000 <==> dec_units(rate) < 0,
{
    law_uint_is_its_limbs(rate.raw);
}

/// Amounts compare as the fractions that they are: exactly one of two amounts is worth
/// less, or they are worth the same.
pub proof fn law_amounts_are_fractions(a: DenominatedAmount, b: DenominatedAmount)
    ensures
        worth_less(a, b) <==> a.amount@ * pow(10, b.denom as nat) < b.amount@ * pow(
            10,
            a.denom as nat,
        ),
        worth_same(a, b) <==> a.amount@ * pow(10, b.denom as nat) == b.amount@ * pow(
            10,
            a.denom as nat,
        ),
        worth_less(a, b) ==> !worth_less(b, a) && !worth_same(a, b),
        worth_same(a, b) ==> !worth_less(a, b) && !worth_less(b, a),
        worth_less(a, b) || worth_less(b, a) || worth_same(a, b),
        a.denom == b.denom ==> (worth_less(a, b) <==> a.amount@ < b.amount@),
{
    law_pow10_is_a_power(a.denom as nat);
    law_pow10_is_a_power(b.denom as nat);
    lemma_pow10_positive(a.denom as nat);
    if a.denom == b.denom {
        let (x, y, p) = (a.amount@, b.amount@, pow10(a.denom as nat));
        assert(x * p < y * p <==> x < y) by (nonlinear_arith)
            requires
                p >= 1,
        ;
    }
}

/// An amount can be denominated if it has at most six decimal places and its number
/// of millionths fits into 256 bits. Denominating gives that number with six decimal
/// places, to the same source and validator; it is what is signed too.
pub proof fn law_denominated_in_millionths(bond: BondTx<Unvalidated>)
    ensures
        can_denominate(bond) <==> bond.amount.denom <= 6 && bond.amount.amount@ * pow(
            10,
            (6 - bond.amount.denom) as nat,
        ) < 0x1_0000_0000_0000_0000_0000_0000_0000_0000_0000_0000_0000_0000_0000_0000_0000_0000,
        can_denominate(bond) <==> fits_native(bond.amount),
        can_denominate(bond) ==> {
            &&& denominated(bond).source == bond.source
            &&& denominated(bond).validator == bond.validator
            &&& denominated(bond).amount.denom == 6
            &&& denominated(bond).amount.amount@ == bond.amount.amount@ * pow(
                10,
                (6 - bond.amount.denom) as nat,
            )
            &&& native_amount(bond.amount) == denominated(bond).amount
            &&& signable_amount(bond.amount) == denominated(bond).amount
        },
        !can_denominate(bond) ==> signable_amount(bond.amount) == bond.amount,
{
    law_uint_is_its_limbs(bond.amount.amount.raw);
    if bond.amount.denom <= 6 {
        let d = (6 - bond.amount.denom) as nat;
        law_pow10_is_a_power(d);
        lemma_scale_is_small(d);
        lemma_uint_view(bond.amount.amount.raw, bond.amount.amount.raw);
        if can_denominate(bond) {
            lemma_uint_from(bond.amount.amount@ * pow10(d));
        }
    }
}

/// A scale of up to a million fits into 256 bits.
proof fn lemma_scale_is_small(d: nat)
    requires
        d <= 6,
    ensures
        pow10(d) <= 1_000_000,
{
    reveal_with_fuel(pow10, 7);
}

/// An amount can be written with more decimal places if both the scale and the scaled
/// number fit into 256 bits.
pub proof fn law_precision_fits(a: DenominatedAmount, denom: u8)
    requires
        a.denom <= denom,
    ensures
        precision_fits(a, denom) <==> pow(10, (denom - a.denom) as nat)
            < 0x1_0000_0000_0000_0000_0000_0000_0000_0000_0000_0000_0000_0000_0000_0000_0000_0000
            && a.amount@ * pow(10, (denom - a.denom) as nat)
            < 0x1_0000_0000_0000_0000_0000_0000_0000_0000_0000_0000_0000_0000_0000_0000_0000_0000,
{
    law_uint_is_its_limbs(a.amount.raw);
    law_pow10_is_a_power((denom - a.denom) as nat);
}

/// What an optional list and an optional string hold.
pub proof fn law_optional_contents<A>(list: Option<Vec<A>>, text: Option<String>)
    ensures
        list matches Some(v) ==> contents(list) == Some(v@) && items(list) == v@,
        list is None ==> contents(list) == None::<Seq<A>> && items(list).len() == 0,
        text matches Some(s) ==> option_chars(text) == Some(s@),
        text is None ==> option_chars(text) == None::<Seq<char>>,
{
}

/// Whether `m` has all the items of both lists and nothing else: first those of `a`,
/// then those of `b`, each in their order. Where there is only one list, it is that
/// one, and where there is none, there is none.
pub open spec fn is_union<A>(m: Option<Seq<A>>, a: Option<Seq<A>>, b: Option<Seq<A>>) -> bool {
    let first = if a is Some {
        a->0.len()
    } else {
        0
    };
    let second = if b is Some {
        b->0.len()
    } else {
        0
    };
    &&& m is Some <==> a is Some || b is Some
    &&& m is Some ==> m->0.len() == first + second
    &&& forall|i: int| 0 <= i < first ==> m->0[i] == #[trigger] a->0[i]
    &&& forall|i: int| 0 <= i < second ==> m->0[first + i] == #[trigger] b->0[i]
}

/// In the union of two sets of transactions, no list loses an item of either set, and
/// none has an item that neither has.
pub proof fn law_merge_keeps_everything<B>(a: TransactionsView<B>, b: TransactionsView<B>)
    ensures
        is_union(
            a.merge(b).established_account,
            a.established_account,
            b.established_account,
        ),
        is_union(a.merge(b).validator_account, a.validator_account, b.validator_account),
        is_union(a.merge(b).bond, a.bond, b.bond),
{
    lemma_joined_is_union(a.established_account, b.established_account);
    lemma_joined_is_union(a.validator_account, b.validator_account);
    lemma_joined_is_union(a.bond, b.bond);
}

proof fn lemma_joined_is_union<A>(a: Option<Seq<A>>, b: Option<Seq<A>>)
    ensures
        is_union(joined(a, b), a, b),
{
}

/// The number of each item in the union of two sets of transactions is the sum of its
/// numbers in the two.
pub proof fn law_merge_counts<B>(
    a: TransactionsView<B>,
    b: TransactionsView<B>,
)
    requires
        a.established_account is Some,
        b.established_account is Some,
        a.validator_account is Some,
        b.validator_account is Some,
        a.bond is Some,
        b.bond is Some,
    ensures
        a.merge(b).established_account->0.to_multiset()
            == a.established_account->0.to_multiset().add(b.established_account->0.to_multiset()),
        a.merge(b).validator_account->0.to_multiset()
            == a.validator_account->0.to_multiset().add(b.validator_account->0.to_multiset()),
        a.merge(b).bond->0.to_multiset() == a.bond->0.to_multiset().add(b.bond->0.to_multiset()),
{
    vstd::seq_lib::lemma_multiset_commutative(a.established_account->0, b.established_account->0);
    vstd::seq_lib::lemma_multiset_commutative(a.validator_account->0, b.validator_account->0);
    vstd::seq_lib::lemma_multiset_commutative(a.bond->0, b.bond->0);
}

/// Every bond adds its amount to the stake of its own validator, and nothing to the
/// stake of others. Without bonds nobody has a stake.
pub proof fn law_bond_adds_to_stake(
    bonds: Seq<BondTx<Validated>>,
    bond: BondTx<Validated>,
    validator: Address,
)
    ensures
        bond.validator == validator ==> stake_of(bonds.push(bond), validator) == stake_of(
            bonds,
            validator,
        ) + bond.amount.amount@,
        bond.validator != validator ==> stake_of(bonds.push(bond), validator) == stake_of(
            bonds,
            validator,
        ),
        stake_of(Seq::empty(), validator) == 0,
        is_bonded(bonds.push(bond), validator) <==> is_bonded(bonds, validator) || bond.validator
            == validator,
        !is_bonded(Seq::empty(), validator),
{
    let after = bonds.push(bond);
    assert(after.drop_last() =~= bonds);
    if is_bonded(bonds, validator) {
        let i = choose|i: int|
            0 <= i < bonds.len() && (#[trigger] bonds[i]).validator == validator;
        assert(after[i].validator == validator);
    }
    if bond.validator == validator {
        assert(after[bonds.len() as int].validator == validator);
    }
    if is_bonded(after, validator) && bond.validator != validator {
        let i = choose|i: int|
            0 <= i < after.len() && (#[trigger] after[i]).validator == validator;
        assert(bonds[i].validator == validator);
    }
}

/// The question for a validator's voting power is about its whole stake, at the rate
/// that is given.
pub proof fn law_whole_stake_is_asked(
    bonds: Seq<BondTx<Validated>>,
    validator: Address,
    votes_per_token: Dec,
)
    requires
        stakes_fit(bonds),
    ensures
        conversion_of(bonds, validator, votes_per_token).votes_per_token == votes_per_token,
        conversion_of(bonds, validator, votes_per_token).stake@ == stake_of(bonds, validator),
{
    assert(stake_of(bonds, validator) < uint_limit());
    lemma_uint_from(stake_of(bonds, validator));
}

/// The stakes fit if none reaches two to the power of 256.
pub proof fn law_stakes_fit(bonds: Seq<BondTx<Validated>>)
    ensures
        stakes_fit(bonds) <==> forall|v: Address| #[trigger]
            stake_of(bonds, v)
                < 0x1_0000_0000_0000_0000_0000_0000_0000_0000_0000_0000_0000_0000_0000_0000_0000_0000,
{
    law_uint_is_its_limbs(Uint(0, 0, 0, 0));
}

/// Where the validator of one of the bonds has voting power, however much, there is
/// voting power.
pub proof fn law_any_voting_power_counts(
    bonds: Seq<BondTx<Validated>>,
    i: int,
    stake: Amount,
    votes_per_token: Dec,
    powers: Map<StakeConversion, i64>,
)
    requires
        stakes_fit(bonds),
        0 <= i < bonds.len(),
        stake@ == stake_of(bonds, bonds[i].validator),
        powers[(StakeConversion { votes_per_token, stake })] >= 1,
    ensures
        has_voting_power(bonds, votes_per_token, powers),
{
    let v = bonds[i].validator;
    assert(is_bonded(bonds, v));
    law_whole_stake_is_asked(bonds, v, votes_per_token);
    lemma_uint_view(stake.raw, conversion_of(bonds, v, votes_per_token).stake.raw);
}

/// Where no validator of a bond has voting power, there is none.
pub proof fn law_no_voting_power_without_a_validator(
    bonds: Seq<BondTx<Validated>>,
    votes_per_token: Dec,
    powers: Map<StakeConversion, i64>,
)
    requires
        stakes_fit(bonds),
        forall|i: int, stake: Amount|
            0 <= i < bonds.len() && #[trigger] stake@ == stake_of(
                bonds,
                (#[trigger] bonds[i]).validator,
            ) ==> powers[(StakeConversion { votes_per_token, stake })] <= 0,
    ensures
        !has_voting_power(bonds, votes_per_token, powers),
{
    assert forall|v: Address| #[trigger] is_bonded(bonds, v) implies powers[conversion_of(
        bonds,
        v,
        votes_per_token,
    )] <= 0 by {
        let i = choose|i: int| 0 <= i < bonds.len() && (#[trigger] bonds[i]).validator == v;
        law_whole_stake_is_asked(bonds, v, votes_per_token);
        let stake = conversion_of(bonds, v, votes_per_token).stake;
        assert(stake@ == stake_of(bonds, bonds[i].validator));
    }
}

/// Raising voting powers never loses voting power.
pub proof fn law_voting_power_is_monotonic(
    bonds: Seq<BondTx<Validated>>,
    votes_per_token: Dec,
    powers: Map<StakeConversion, i64>,
    more: Map<StakeConversion, i64>,
)
    requires
        has_voting_power(bonds, votes_per_token, powers),
        forall|q: StakeConversion| powers[q] <= #[trigger] more[q],
    ensures
        has_voting_power(bonds, votes_per_token, more),
{
    let v = choose|v: Address| #[trigger]
        is_bonded(bonds, v) && powers[conversion_of(bonds, v, votes_per_token)] > 0;
    assert(more[conversion_of(bonds, v, votes_per_token)] > 0);
}

} // verus!
