use payments_engine::amount::Amount;

fn amt(mantissa: i128, scale: u32) -> Amount {
    Amount::from_parts(mantissa, scale).expect("valid amount")
}

#[test]
fn parts_out_of_range_are_refused() {
    assert!(Amount::from_parts(0, 29).is_none());
    assert!(Amount::from_parts(79228162514264337593543950336, 0).is_none());
    assert!(Amount::from_parts(-79228162514264337593543950336, 0).is_none());
    assert!(Amount::from_parts(-79228162514264337593543950335, 28).is_some());
}

#[test]
fn addition_is_exact_across_scales() {
    let s = amt(15, 1).checked_add(&amt(2525, 3)).unwrap();
    assert_eq!(s.mantissa, 4025);
    assert_eq!(s.scale, 3);
}

#[test]
fn subtraction_is_exact_across_scales() {
    let d = amt(1, 0).checked_sub(&amt(25, 2)).unwrap();
    assert_eq!(d.mantissa, 75);
    assert_eq!(d.scale, 2);
    let n = amt(1, 0).checked_sub(&amt(3, 0)).unwrap();
    assert_eq!(n.mantissa, -2);
}

#[test]
fn overflow_gives_none() {
    let max = amt(79228162514264337593543950335, 0);
    assert!(max.checked_add(&amt(1, 0)).is_none());
    assert!(amt(-79228162514264337593543950335, 0).checked_sub(&amt(1, 0)).is_none());
}

#[test]
fn comparison_is_by_value() {
    assert!(amt(-1, 1).is_negative());
    assert!(!amt(0, 3).is_negative());
    assert!(!amt(1, 5).is_negative());
    assert!(amt(99, 2).is_less_than(&amt(1, 0)));
    assert!(!amt(100, 2).is_less_than(&amt(1, 0)));
    assert_eq!(amt(100, 2), amt(1, 0));
    assert_ne!(amt(101, 2), amt(1, 0));
}

#[test]
fn rounding_goes_half_to_even() {
    let r = amt(123455, 5).round_reported();
    assert_eq!((r.mantissa, r.scale), (12346, 4));
    let r = amt(123445, 5).round_reported();
    assert_eq!((r.mantissa, r.scale), (12344, 4));
    let r = amt(1234451, 6).round_reported();
    assert_eq!((r.mantissa, r.scale), (12345, 4));
    let r = amt(-123455, 5).round_reported();
    assert_eq!((r.mantissa, r.scale), (-12346, 4));
    let r = amt(25, 1).round_reported();
    assert_eq!((r.mantissa, r.scale), (25, 1));
    let r = amt(-4, 5).round_reported();
    assert_eq!((r.mantissa, r.scale), (0, 4));
}

#[test]
fn zero_operands_give_the_other_operand() {
    let s = amt(0, 5).checked_add(&amt(15, 1)).unwrap();
    assert_eq!((s.mantissa, s.scale), (15, 1));
    let s = amt(15, 1).checked_add(&amt(0, 5)).unwrap();
    assert_eq!((s.mantissa, s.scale), (15, 1));
    let d = amt(0, 3).checked_sub(&amt(15, 1)).unwrap();
    assert_eq!((d.mantissa, d.scale), (-15, 1));
    let d = amt(15, 1).checked_sub(&amt(0, 3)).unwrap();
    assert_eq!((d.mantissa, d.scale), (15, 1));
}

#[test]
fn exact_results_take_the_larger_scale() {
    let d = amt(1000, 1).checked_sub(&amt(1000, 1)).unwrap();
    assert_eq!((d.mantissa, d.scale), (0, 1));
    let s = amt(1, 0).checked_add(&amt(5, 2)).unwrap();
    assert_eq!((s.mantissa, s.scale), (105, 2));
}

#[test]
fn rounded_results_keep_the_sign_of_the_exact_result() {
    let d = amt(10, 0).checked_sub(&amt(1, 28)).unwrap();
    assert!(d.scale < 28);
    assert!(!d.is_negative());
    assert!(amt(0, 0).is_less_than(&d));
    let n = amt(1, 28).checked_sub(&amt(10, 0)).unwrap();
    assert!(n.is_negative());
}

#[test]
fn small_negative_rounds_to_positive_zero_and_negative_zero_stays() {
    let r = amt(-4, 5).round_reported();
    assert!(!r.sign_negative);
    let z = Amount { mantissa: 0, scale: 6, sign_negative: true }.round_reported();
    assert_eq!((z.mantissa, z.scale, z.sign_negative), (0, 4, true));
    let d = Amount { mantissa: 0, scale: 0, sign_negative: false }.checked_sub(&amt(0, 2)).unwrap();
    assert_eq!((d.mantissa, d.scale, d.sign_negative), (0, 2, false));
}
