use loan_amortisation::{round_decimal, Date, Decimal, Rounding};

#[test]
fn rounding_follows_the_rule() {
    let x = Decimal::new(2345, 3);
    assert!(x.round_dp(2, Rounding::MidpointAwayFromZero).same_value(&Decimal::new(235, 2)));
    assert!(x.round_dp(2, Rounding::MidpointNearestEven).same_value(&Decimal::new(234, 2)));
    let y = Decimal::new(-2355, 3);
    assert!(y.round_dp(2, Rounding::MidpointNearestEven).same_value(&Decimal::new(-236, 2)));
    let z = Decimal::new(15, 1);
    let r = z.round_dp(2, Rounding::MidpointAwayFromZero);
    assert_eq!((r.mantissa, r.scale), (15, 1));
}

#[test]
fn arithmetic_is_by_value() {
    let a = Decimal::new(150, 2);
    let b = Decimal::new(25, 1);
    assert!(a.checked_add(&b).unwrap().same_value(&Decimal::from_int(4)));
    assert!(a.checked_sub(&b).unwrap().same_value(&Decimal::from_int(-1)));
    assert!(a.checked_mul(&b).unwrap().same_value(&Decimal::new(375, 2)));
    assert!(b.checked_div(&Decimal::from_int(2)).unwrap().same_value(&Decimal::new(125, 2)));
    assert!(b.checked_div(&Decimal::zero()).is_none());
    assert!(Decimal::from_int(2).checked_powd(&Decimal::from_int(10)).unwrap().same_value(&Decimal::from_int(1024)));
    assert!(a.less_than(&b));
    assert!(!b.less_than(&a));
    assert!(Decimal::new(10, 1).same_value(&Decimal::one()));
    assert!(a.neg().abs().same_value(&a));
    assert!(Decimal::new(0, 5).is_zero());
}

#[test]
fn sums_that_do_not_fit_are_refused() {
    let max = Decimal::from_i128_with_scale(79228162514264337593543950335, 0);
    assert!(max.checked_add(&Decimal::one()).is_none());
    assert!(max.checked_mul(&Decimal::from_int(2)).is_none());
}

#[test]
fn dates_walk_the_calendar() {
    let d = Date::from_ymd(2023, 1, 31).unwrap();
    let e = d.add_month().unwrap();
    assert_eq!(e, Date::from_ymd(2023, 2, 28).unwrap());
    assert_eq!(d.next_day().unwrap(), Date::from_ymd(2023, 2, 1).unwrap());
    assert_eq!(Date::from_ymd(2024, 2, 29).unwrap().leap_year(), Some(true));
    assert_eq!(Date::from_ymd(2023, 6, 1).unwrap().leap_year(), Some(false));
    assert_eq!(Date::from_ymd(1, 1, 1).unwrap().days, 1);
    assert!(Date::from_ymd(2023, 2, 29).is_none());
    assert_eq!(Date { days: i32::MAX }.leap_year(), None);
}

#[test]
fn round_decimal_defaults_to_cents_away_from_zero() {
    let x = Decimal::new(2345, 3);
    assert!(round_decimal(x, None, None, None).same_value(&Decimal::new(235, 2)));
    assert!(round_decimal(x, None, None, Some(Rounding::MidpointNearestEven)).same_value(&Decimal::new(234, 2)));
    assert!(round_decimal(x, Some(1), None, None).same_value(&Decimal::new(23, 1)));
    assert!(round_decimal(x, None, Some(6), None).same_value(&x));
}
