use payments_engine::amount::{
    can_add, can_sub, deserialize_amount, round_amount, serialize_amount, Amount, AmountError,
};

#[test]
fn test_amount_equality_is_by_value() {
    assert_eq!(Amount::new(15_000, 4), Amount::new(15, 1));
    assert_eq!(Amount::new(0, 0), Amount::new(0, 7));
    assert_ne!(Amount::new(15_001, 4), Amount::new(15, 1));
    assert_ne!(Amount::new(-15, 1), Amount::new(15, 1));
}

#[test]
fn test_from_parts_bounds() {
    assert!(Amount::from_parts(79228162514264337593543950335, 28).is_some());
    assert!(Amount::from_parts(-79228162514264337593543950335, 0).is_some());
    assert!(Amount::from_parts(79228162514264337593543950336, 0).is_none());
    assert!(Amount::from_parts(1, 29).is_none());
    let a = Amount::from_parts(-1234, 2).unwrap();
    assert_eq!(a.mantissa(), -1234);
    assert_eq!(a.scale(), 2);
}

#[test]
fn test_round_amount_four_places() {
    // fewer digits: unchanged
    let a = round_amount(Amount::new(15, 1));
    assert_eq!((a.mantissa(), a.scale()), (15, 1));
    // exact value of the formula: 1.23456 -> 1.2346, -1.23455 -> -1.2346, 1.23454 -> 1.2345
    let b = round_amount(Amount::new(123_456, 5));
    assert_eq!((b.mantissa(), b.scale()), (12_346, 4));
    let c = round_amount(Amount::new(-123_455, 5));
    assert_eq!((c.mantissa(), c.scale()), (-12_346, 4));
    let d = round_amount(Amount::new(123_454, 5));
    assert_eq!((d.mantissa(), d.scale()), (12_345, 4));
    // zero with more digits becomes zero at scale four
    let z = round_amount(Amount::new(0, 9));
    assert_eq!((z.mantissa(), z.scale()), (0, 4));
}

#[test]
fn test_deserialize_amount_cases() {
    assert_eq!(deserialize_amount(""), Ok(Amount::zero()));
    let a = deserialize_amount("1.5000").unwrap();
    assert_eq!(a, Amount::new(15_000, 4));
    assert_eq!(deserialize_amount("1.5").unwrap(), Amount::new(15_000, 4));
    assert_eq!(deserialize_amount("1").unwrap(), Amount::new(10_000, 4));
    assert_eq!(deserialize_amount("100.1234").unwrap(), Amount::new(1_001_234, 4));
    let r = deserialize_amount("2.00005").unwrap();
    assert_eq!((r.mantissa(), r.scale()), (20_001, 4));
    assert_eq!(deserialize_amount("abc"), Err(AmountError::Malformed));
    assert_eq!(deserialize_amount("1.2.3"), Err(AmountError::Malformed));
}

#[test]
fn test_serialize_amount_text() {
    assert_eq!(serialize_amount(Amount::new(1_000_000, 4)), "100.0000");
    assert_eq!(serialize_amount(Amount::new(15, 1)), "1.5");
    assert_eq!(serialize_amount(Amount::new(123_456, 5)), "1.2346");
    assert_eq!(serialize_amount(Amount::new(-5, 2)), "-0.05");
    assert_eq!(serialize_amount(Amount::zero()), "0");
}

#[test]
fn test_exactness_checks() {
    let max = Amount::from_parts(79228162514264337593543950335, 0).unwrap();
    assert!(!can_add(max, Amount::new(1, 0)));
    assert!(can_add(max, Amount::zero()));
    assert!(can_sub(max, Amount::new(1, 0)));
    // aligning 1 (scale 0) with a scale-28 operand needs 10^28, which fits in 96 bits
    assert!(can_add(Amount::new(1, 0), Amount::new(1, 28)));
    // aligning 10 needs 10^29, which does not
    assert!(!can_add(Amount::new(10, 0), Amount::new(1, 28)));
    assert!(Amount::new(-1, 3).is_negative());
    assert!(!Amount::new(0, 3).is_negative());
}
