use genesis_transactions::amount::{
    Amount, AmountError, Dec, DenominatedAmount, Uint, NATIVE_MAX_DECIMAL_PLACES,
};
use genesis_transactions::codec::Encode;

fn amount(raw: u64, denom: u8) -> DenominatedAmount {
    DenominatedAmount { amount: Amount { raw: Uint(raw, 0, 0, 0) }, denom }
}

#[test]
fn addition_carries_over_every_limb() {
    let a = Uint(u64::MAX, u64::MAX, u64::MAX, 0);
    assert_eq!(a.checked_add(&Uint(1, 0, 0, 0)), Some(Uint(0, 0, 0, 1)));
    let max = Uint(u64::MAX, u64::MAX, u64::MAX, u64::MAX);
    assert_eq!(max.checked_add(&Uint(1, 0, 0, 0)), None);
    assert_eq!(max.checked_add(&Uint::zero()), Some(max));
}

#[test]
fn subtraction_borrows_from_every_limb() {
    let a = Uint(0, 0, 0, 1);
    assert_eq!(a.checked_sub(&Uint(1, 0, 0, 0)), Some(Uint(u64::MAX, u64::MAX, u64::MAX, 0)));
    assert_eq!(Uint(4, 0, 0, 0).checked_sub(&Uint(5, 0, 0, 0)), None);
    assert_eq!(a.checked_sub(&a), Some(Uint::zero()));
}

#[test]
fn ten_times_and_back() {
    let a = Uint(u64::MAX, 7, 0, 0);
    let product = a.checked_mul_ten().unwrap();
    assert_eq!(product, Uint(u64::MAX - 9, 79, 0, 0));
    assert_eq!(product.div_rem_ten(), (a, 0));
    assert_eq!(Uint(23, 0, 0, 0).div_rem_ten(), (Uint(2, 0, 0, 0), 3));
    assert_eq!(Uint(0, 0, 0, u64::MAX).checked_mul_ten(), None);
}

#[test]
fn order_looks_at_the_highest_limb_first() {
    assert!(Uint(u64::MAX, 0, 0, 0).less_than(&Uint(0, 1, 0, 0)));
    assert!(!Uint(0, 0, 0, 1).less_than(&Uint(0, 0, u64::MAX, 0)));
    assert!(!Uint(3, 3, 3, 3).less_than(&Uint(3, 3, 3, 3)));
}

#[test]
fn zero_amounts() {
    assert!(Amount::zero().is_zero());
    assert!(!Amount { raw: Uint(0, 0, 1, 0) }.is_zero());
    assert_eq!(Amount::zero(), Amount { raw: Uint::zero() });
}

#[test]
fn precision_is_increased_by_scaling() {
    assert_eq!(NATIVE_MAX_DECIMAL_PLACES, 6);
    assert_eq!(amount(15, 1).increase_precision(6), Ok(amount(1_500_000, 6)));
    assert_eq!(amount(15, 6).increase_precision(6), Ok(amount(15, 6)));
}

#[test]
fn precision_cannot_be_decreased() {
    assert_eq!(amount(10, 7).increase_precision(6), Err(AmountError::PrecisionDecrease));
}

#[test]
fn precision_cannot_overflow() {
    let large = DenominatedAmount {
        amount: Amount { raw: Uint(0, 0, 0, u64::MAX) },
        denom: 5,
    };
    assert_eq!(large.increase_precision(6), Err(AmountError::PrecisionOverflow));
    // The scale alone is too large, even for no tokens
    assert_eq!(amount(0, 0).increase_precision(78), Err(AmountError::PrecisionOverflow));
    assert_eq!(amount(0, 0).increase_precision(77), Ok(amount(0, 77)));
}

#[test]
fn amounts_compare_by_what_they_are_worth() {
    // 1.5 and 1.50
    assert!(!amount(15, 1).less_than(&amount(150, 2)));
    assert!(!amount(150, 2).less_than(&amount(15, 1)));
    // 1.5 and 1.51
    assert!(amount(15, 1).less_than(&amount(151, 2)));
    assert!(!amount(151, 2).less_than(&amount(15, 1)));
    // 1.49 and 1.5
    assert!(amount(149, 2).less_than(&amount(15, 1)));
    assert!(!amount(15, 1).less_than(&amount(149, 2)));
    assert!(amount(3, 6).less_than(&amount(4, 6)));
}

#[test]
fn numbers_are_encoded_with_the_lowest_byte_first() {
    let mut expected = vec![0u8; 32];
    expected[0] = 0x02;
    expected[1] = 0x01;
    expected[8] = 0x03;
    expected[31] = 0x80;
    let number = Uint(0x0102, 3, 0, 0x8000_0000_0000_0000);
    assert_eq!(number.serialize_to_vec(), expected);
    assert_eq!(Dec { raw: number }.serialize_to_vec(), expected);
    expected.push(6);
    let denominated = DenominatedAmount { amount: Amount { raw: number }, denom: 6 };
    assert_eq!(denominated.serialize_to_vec(), expected);
}
