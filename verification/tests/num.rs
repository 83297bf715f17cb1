use perpl_sdk::num::{checked_sum, Converter, Decimal, RawDecimal, SignedDecimal};

const ONE: u128 = 1_000_000_000_000_000_000;

fn dec(raw: u128, decimals: u8) -> Decimal {
    Converter::new(decimals).from_unsigned(raw).unwrap()
}

#[test]
fn converter_scales_integers_to_decimals() {
    let price = Converter::new(1);
    assert_eq!(price.decimals(), 1);
    assert_eq!(price.from_unsigned(1_000_000), Some(Decimal::from_integer(100_000)));
    assert_eq!(price.from_unsigned(9).unwrap().units(), 9 * ONE / 10);
    let collateral = Converter::new(6);
    assert_eq!(collateral.from_unsigned(1_500_000).unwrap().units(), ONE + ONE / 2);
    assert_eq!(collateral.from_u64(1).unwrap().units(), 1_000_000_000_000);
    assert_eq!(Converter::new(18).from_unsigned(7).unwrap().units(), 7);
    assert_eq!(Converter::new(0).from_unsigned(3).unwrap(), Decimal::from_integer(3));
}

#[test]
fn converter_rounds_toward_zero() {
    let two = Converter::new(2);
    // 1.239 at two fractional digits is 123
    assert_eq!(two.to_unsigned(Decimal::from_units(ONE + 239 * ONE / 1000)), Some(123));
    assert_eq!(two.to_unsigned(Decimal::from_units(ONE / 1000)), Some(0));
    assert_eq!(two.to_unsigned(Decimal::zero()), Some(0));
    assert_eq!(Converter::new(18).to_unsigned(Decimal::from_units(42)), Some(42));
}

#[test]
fn converter_round_trip_of_representable_decimals() {
    for decimals in [0u8, 1, 2, 5, 6, 8, 18] {
        let converter = Converter::new(decimals);
        for raw in [0u128, 1, 9, 10, 12_345, 1_000_000_007] {
            let d = converter.from_unsigned(raw).unwrap();
            let back = converter.to_unsigned(d).unwrap();
            assert_eq!(back, raw);
            assert_eq!(converter.from_unsigned(back), Some(d));
        }
    }
}

#[test]
fn converter_beyond_eighteen_digits_cuts_off() {
    let fine = Converter::new(20);
    assert_eq!(fine.from_unsigned(12_345).unwrap().units(), 123);
    assert_eq!(fine.from_unsigned(99).unwrap().units(), 0);
    assert_eq!(fine.to_unsigned(Decimal::from_units(123)), Some(12_300));
    assert_eq!(fine.to_unsigned(Decimal::from_units(u128::MAX)), None);
    let finest = Converter::new(255);
    assert_eq!(finest.from_unsigned(u128::MAX).unwrap().units(), 0);
    assert_eq!(finest.to_unsigned(Decimal::from_units(1)), None);
    assert_eq!(finest.to_unsigned(Decimal::zero()), Some(0));
}

#[test]
fn converter_reports_overflow() {
    assert_eq!(Converter::new(0).from_unsigned(u128::MAX), None);
    assert_eq!(Converter::new(17).from_unsigned(u128::MAX / 10 + 1), None);
    assert_eq!(Converter::new(17).from_unsigned(u128::MAX / 10).unwrap().units(), u128::MAX / 10 * 10);
}

#[test]
fn converter_from_signed_keeps_sign() {
    let c = Converter::new(6);
    let minus = c.from_signed(-2_500_000).unwrap();
    assert!(minus.is_negative());
    assert_eq!(minus.magnitude().units(), 2 * ONE + ONE / 2);
    let plus = c.from_signed(2_500_000).unwrap();
    assert!(!plus.is_negative());
    assert_eq!(plus.magnitude(), minus.magnitude());
    assert_eq!(c.from_signed(0).unwrap(), SignedDecimal::zero());
    assert_eq!(Converter::new(20).from_signed(-5).unwrap(), SignedDecimal::zero());
    assert_eq!(Converter::new(0).from_signed(i128::MIN), None);
    assert_eq!(Converter::new(18).from_signed(i128::MIN).unwrap().magnitude().units(), 1u128 << 127);
}

#[test]
fn decimal_addition_and_subtraction_are_exact() {
    let a = dec(29, 1);
    let b = dec(30, 1);
    assert_eq!(a.checked_add(b), Some(dec(59, 1)));
    assert_eq!(b.checked_sub(a), Some(dec(1, 1)));
    assert_eq!(a.checked_sub(b), None);
    assert_eq!(a.saturating_sub(b), Decimal::zero());
    assert_eq!(b.saturating_sub(a), dec(1, 1));
    assert_eq!(Decimal::from_units(u128::MAX).checked_add(Decimal::from_units(1)), None);
    assert!(Decimal::zero().is_zero());
    assert!(!a.is_zero());
    assert!(a < b);
}

#[test]
fn signed_addition_covers_all_sign_cases() {
    let p3 = SignedDecimal::from_parts(false, 3);
    let m3 = SignedDecimal::from_parts(true, 3);
    let m5 = SignedDecimal::from_parts(true, 5);
    assert_eq!(p3.checked_add(m3), Some(SignedDecimal::zero()));
    assert_eq!(p3.checked_add(m5), Some(SignedDecimal::from_parts(true, 2)));
    assert_eq!(m5.checked_add(p3), Some(SignedDecimal::from_parts(true, 2)));
    assert_eq!(m3.checked_add(m5), Some(SignedDecimal::from_parts(true, 8)));
    assert_eq!(p3.checked_add(p3), Some(SignedDecimal::from_parts(false, 6)));
    let top = SignedDecimal::from_parts(false, u128::MAX);
    assert_eq!(top.checked_add(p3), None);
    assert_eq!(top.checked_add(m3), Some(SignedDecimal::from_parts(false, u128::MAX - 3)));
    assert_eq!(SignedDecimal::from_parts(true, 0), SignedDecimal::zero());
    assert_eq!(SignedDecimal::from_unsigned(Decimal::from_units(7)), SignedDecimal::from_parts(false, 7));
}

#[test]
fn decimal_product_goes_through_fastnum() {
    let price = Decimal::from_integer(100_000);
    let size = dec(1, 1);
    assert_eq!(price.checked_mul(size), Some(Decimal::from_integer(10_000)));
    assert_eq!(dec(15, 1).checked_mul(dec(25, 1)), Some(dec(375, 2)));
    assert_eq!(Decimal::zero().checked_mul(price), Some(Decimal::zero()));
    assert_eq!(price.checked_mul(Decimal::from_integer(1)), Some(price));
    // the smallest unit squared is below the eighteenth fractional digit
    assert_eq!(Decimal::from_units(1).checked_mul(Decimal::from_units(1)), Some(Decimal::zero()));
    // beyond the range of the type
    assert_eq!(Decimal::from_units(u128::MAX).checked_mul(Decimal::from_units(u128::MAX)), None);
}

#[test]
fn decimal_quotient_goes_through_fastnum() {
    let ten = Decimal::from_integer(10);
    let four = Decimal::from_integer(4);
    assert_eq!(ten.checked_div(four), Some(dec(25, 1)));
    assert_eq!(ten.checked_div(Decimal::zero()), None);
    assert_eq!(Decimal::zero().checked_div(four), Some(Decimal::zero()));
    assert_eq!(ten.checked_div(ten), Some(Decimal::from_integer(1)));
    let third = Decimal::from_integer(1).checked_div(Decimal::from_integer(3)).unwrap();
    assert_eq!(third.units(), 333_333_333_333_333_333);
    // a quotient is not the dividend handed back
    assert_ne!(ten.checked_div(four), Some(ten));
}

#[test]
fn raw_results_are_cut_off_after_eighteen_digits() {
    let raw = |finite: bool, digits: u128, scale: i16| RawDecimal { finite, digits, scale };
    assert_eq!(Decimal::from_raw(raw(true, 25, 1)), Some(dec(25, 1)));
    assert_eq!(Decimal::from_raw(raw(true, 5, 0)), Some(Decimal::from_integer(5)));
    assert_eq!(Decimal::from_raw(raw(true, 5, -2)), Some(Decimal::from_integer(500)));
    assert_eq!(Decimal::from_raw(raw(true, 1_999, 21)), Some(Decimal::from_units(1)));
    assert_eq!(Decimal::from_raw(raw(true, 999, 21)), Some(Decimal::zero()));
    assert_eq!(Decimal::from_raw(raw(true, 7, 18)), Some(Decimal::from_units(7)));
    assert_eq!(Decimal::from_raw(raw(false, 7, 18)), None);
    assert_eq!(Decimal::from_raw(raw(true, 1, -21)), None);
    assert_eq!(Decimal::from_raw(raw(true, 0, -30000)), Some(Decimal::zero()));
    assert_eq!(Decimal::from_raw(raw(true, u128::MAX, 17)), None);
    assert_eq!(Decimal::from_raw(raw(true, u128::MAX, 32767)), Some(Decimal::zero()));
    assert_eq!(Decimal::from_raw(raw(true, 3, -20)), Some(Decimal::from_units(3 * 100 * ONE * ONE)));
}

#[test]
fn sums_are_checked() {
    let values = vec![dec(1, 0), dec(25, 1), dec(5, 1)];
    assert_eq!(checked_sum(&values), Some(Decimal::from_integer(4)));
    assert_eq!(checked_sum(&[].to_vec()), Some(Decimal::zero()));
    let big = vec![Decimal::from_units(u128::MAX), Decimal::from_units(1)];
    assert_eq!(checked_sum(&big), None);
}
