use std::str::FromStr;

use loan_amortisation::{
    calculate_period_interest, decompound_rate, get_daily_interest_rate, Date, Decimal,
    InterestMethod, InterestType,
};

fn dec(s: &str) -> Decimal {
    let d = rust_decimal::Decimal::from_str(s).unwrap();
    Decimal::from_i128_with_scale(d.mantissa(), d.scale())
}

fn same(a: Decimal, b: &str) -> bool {
    a.same_value(&dec(b))
}

fn period(method: InterestMethod, rate: &str) -> (Decimal, u32) {
    let start_date = Date::from_ymd(2023, 1, 1).expect("Invalid date");
    let to_date = Date::from_ymd(2023, 1, 30).expect("Invalid date");
    let payment_date = Date::from_ymd(2023, 1, 15).expect("Invalid date");
    calculate_period_interest(
        start_date,
        to_date,
        payment_date,
        dec(rate),
        dec("1000"),
        dec("100"),
        method,
    )
    .unwrap()
}

#[test]
fn test_get_daily_interest_rate() {
    let annual_rate = dec("0.05");
    assert!(same(
        get_daily_interest_rate(annual_rate, InterestMethod::Convention30_360),
        "0.0001388888888888888888888889"
    ));
    assert!(same(
        get_daily_interest_rate(annual_rate, InterestMethod::Actual365),
        "0.0001369863013698630136986301"
    ));
    assert!(same(
        get_daily_interest_rate(annual_rate, InterestMethod::Actual360),
        "0.0001388888888888888888888889"
    ));
    assert!(same(
        get_daily_interest_rate(annual_rate, InterestMethod::ActualActual),
        "0.0001369863013698630136986301"
    ));
}

#[test]
fn test_decompound_rate() {
    let decompounded_rate = decompound_rate(dec("0.0512")).unwrap();
    assert!(same(decompounded_rate, "0.050036"));
}

#[test]
fn test_calculate_period_interest_convention30_360() {
    let (interest, days) = period(InterestMethod::Convention30_360, "0.0001388888888888888888888889");
    assert!(same(interest, "4.17"));
    assert_eq!(days, 30);
}

#[test]
fn test_calculate_period_interest_actual365() {
    let (interest, days) = period(InterestMethod::Actual365, "0.0001369863013698630136986301");
    assert!(same(interest, "3.89"));
    assert_eq!(days, 30);
}

#[test]
fn test_calculate_period_interest_actual360() {
    let (interest, days) = period(InterestMethod::Actual360, "0.0001388888888888888888888889");
    assert!(same(interest, "3.94"));
    assert_eq!(days, 30);
}

#[test]
fn test_calculate_period_interest_actualactual() {
    let (interest, days) = period(InterestMethod::ActualActual, "0.0001369863013698630136986301");
    assert!(same(interest, "3.89"));
    assert_eq!(days, 30);
}

#[test]
fn conventions_are_distinguishable_for_the_same_inputs() {
    let annual = dec("0.05");
    let start_date = Date::from_ymd(2023, 1, 1).unwrap();
    let to_date = Date::from_ymd(2023, 1, 30).unwrap();
    let payment_date = Date::from_ymd(2023, 1, 15).unwrap();
    let run = |method: InterestMethod| {
        let rate = get_daily_interest_rate(annual, method);
        calculate_period_interest(start_date, to_date, payment_date, rate, dec("1000"), dec("100"), method)
            .unwrap()
    };
    let (closed_form, days_closed) = run(InterestMethod::Convention30_360);
    let (walked, days_walked) = run(InterestMethod::Actual365);
    assert!(same(closed_form, "4.17"));
    assert!(same(walked, "3.89"));
    assert_eq!((days_closed, days_walked), (30, 30));
    assert!(!closed_form.same_value(&walked));
}

#[test]
fn leap_days_shrink_the_rate_under_actual_actual() {
    let start = Date::from_ymd(2024, 1, 1).unwrap();
    let to = Date::from_ymd(2024, 1, 30).unwrap();
    let pay = Date::from_ymd(2024, 1, 15).unwrap();
    let rate = dec("0.0001369863013698630136986301");
    let (plain, _) =
        calculate_period_interest(start, to, pay, rate, dec("1000"), dec("100"), InterestMethod::Actual365)
            .unwrap();
    let (adjusted, _) = calculate_period_interest(
        start,
        to,
        pay,
        rate,
        dec("1000"),
        dec("100"),
        InterestMethod::ActualActual,
    )
    .unwrap();
    assert!(same(plain, "3.89"));
    assert!(adjusted.less_than(&plain));
}

#[test]
fn an_empty_period_has_no_days_and_no_interest() {
    let start = Date::from_ymd(2023, 2, 1).unwrap();
    let to = Date::from_ymd(2023, 1, 31).unwrap();
    let (interest, days) = calculate_period_interest(
        start,
        to,
        start,
        dec("0.0001"),
        dec("1000"),
        dec("0"),
        InterestMethod::Actual365,
    )
    .unwrap();
    assert_eq!(days, 0);
    assert!(same(interest, "0"));
}

#[test]
fn interest_rounds_ties_to_even() {
    // 1 day on 1 at 0.125: 0.125 rounds to 0.12, not 0.13.
    let d = Date::from_ymd(2023, 3, 1).unwrap();
    let other = Date::from_ymd(2023, 4, 1).unwrap();
    let (interest, days) = calculate_period_interest(
        d,
        d,
        other,
        dec("0.125"),
        dec("1"),
        dec("0"),
        InterestMethod::Actual360,
    )
    .unwrap();
    assert_eq!(days, 1);
    assert!(same(interest, "0.12"));
}

#[test]
fn dates_outside_the_calendar_are_refused() {
    let far = Date { days: i32::MAX - 1 };
    let beyond = Date { days: i32::MAX };
    let r = calculate_period_interest(
        far,
        beyond,
        far,
        dec("0.0001"),
        dec("1000"),
        dec("0"),
        InterestMethod::ActualActual,
    );
    assert_eq!(r.unwrap_err(), loan_amortisation::AmortiseError::DateOutOfRange);
}

#[test]
fn method_and_type_tokens_parse_exactly() {
    assert_eq!(InterestMethod::parse("Convention30_360"), Ok(InterestMethod::Convention30_360));
    assert_eq!(InterestMethod::parse("Actual365"), Ok(InterestMethod::Actual365));
    assert_eq!(InterestMethod::parse("Actual360"), Ok(InterestMethod::Actual360));
    assert_eq!(InterestMethod::parse("ActualActual"), Ok(InterestMethod::ActualActual));
    assert_eq!(InterestMethod::parse("ACTUALACTUAL"), Err(()));
    assert_eq!(InterestMethod::parse(""), Err(()));
    assert_eq!(InterestType::parse("Simple"), Ok(InterestType::Simple));
    assert_eq!(InterestType::parse("Compound"), Ok(InterestType::Compound));
    assert_eq!(InterestType::parse("simple"), Err(()));
}

#[test]
fn compound_rates_are_decompounded_exactly() {
    assert!(same(decompound_rate(dec("0")).unwrap(), "0"));
    // (1.12^(1/12) - 1) * 12 to six places
    assert!(same(decompound_rate(dec("0.12")).unwrap(), "0.113866"));
}
