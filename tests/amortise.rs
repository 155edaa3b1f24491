use std::str::FromStr;

use loan_amortisation::{
    amortise, build_schedule, calculate_rough_period_payment, schedule_from_solution, AmortiseError, Date,
    Decimal, InterestMethod, InterestType, Schedule,
};

fn dec(s: &str) -> Decimal {
    let d = rust_decimal::Decimal::from_str(s).unwrap();
    Decimal::from_i128_with_scale(d.mantissa(), d.scale())
}

fn same(a: Decimal, b: &str) -> bool {
    a.same_value(&dec(b))
}

fn within(a: Decimal, b: Decimal, eps: &str) -> bool {
    a.checked_sub(&b).unwrap().abs().less_than(&dec(eps))
}

fn jan_first_loan(
    principal: &str,
    rate: &str,
    num_payments: u32,
    fixed: Option<Decimal>,
    balloon: Option<Decimal>,
    fee: Option<Decimal>,
) -> Schedule {
    amortise(
        dec(principal),
        dec(rate),
        num_payments,
        Date::from_ymd(2023, 1, 1).unwrap(),
        Date::from_ymd(2023, 2, 1).unwrap(),
        Date::from_ymd(2023, 2, 1).unwrap(),
        InterestMethod::ActualActual,
        InterestType::Simple,
        fixed,
        balloon,
        fee,
    )
    .unwrap()
}

#[test]
fn test_calculate_rough_period_payment() {
    let principal = Decimal::from_int(15000);
    let annual_rate = dec("8.9").checked_div(&Decimal::from_int(100)).unwrap();
    let period_payment = calculate_rough_period_payment(principal, annual_rate, 36).unwrap();
    assert!(Decimal::zero().less_than(&period_payment));
}

#[test]
fn test_amortise_with_fixed_payment() {
    let num_payments = 6;
    let fixed_payment = dec("2700");
    let schedule_fixed = jan_first_loan("15000", "0.05", num_payments, Some(fixed_payment), None, None);
    let schedule_calculated = jan_first_loan("15000", "0.05", num_payments, None, None, None);

    assert_eq!(schedule_fixed.payments.len(), num_payments as usize);
    for (i, payment) in schedule_fixed.payments.iter().enumerate() {
        if i < (num_payments - 1) as usize {
            assert!(payment.payment.same_value(&fixed_payment));
        }
        assert!(Decimal::zero().less_than(&payment.principal));
        assert!(!payment.interest.less_than(&Decimal::zero()));
    }
    let final_balance = schedule_fixed.payments.last().unwrap().balance;
    assert!(final_balance.less_than(&Decimal::zero()), "Expected negative final balance with high fixed payment");

    let calculated_final_balance = schedule_calculated.payments.last().unwrap().balance;
    assert!(same(calculated_final_balance, "0"), "Calculated payment should result in zero final balance");

    let calculated_payment = schedule_calculated.payments[0].payment;
    assert!(!fixed_payment.same_value(&calculated_payment), "Fixed payment should differ from calculated payment");
}

#[test]
fn test_amortise_with_low_fixed_payment() {
    let low_fixed_payment = dec("2000");
    let schedule = jan_first_loan("15000", "0.05", 6, Some(low_fixed_payment), None, None);
    let final_balance = schedule.payments.last().unwrap().balance;
    assert!(Decimal::zero().less_than(&final_balance), "Expected positive remaining balance with low fixed payment");
    for payment in &schedule.payments {
        assert!(payment.payment.same_value(&low_fixed_payment));
    }
}

#[test]
fn test_amortise_with_balloon_payment() {
    let num_payments = 12;
    let balloon_payment = dec("15000");
    let schedule_balloon = jan_first_loan("20000", "0.06", num_payments, None, Some(balloon_payment), None);
    let schedule_normal = jan_first_loan("20000", "0.06", num_payments, None, None, None);

    assert_eq!(schedule_balloon.payments.len(), num_payments as usize);
    let balloon_monthly_payment = schedule_balloon.payments[0].payment;
    let normal_monthly_payment = schedule_normal.payments[0].payment;
    assert!(
        balloon_monthly_payment.less_than(&normal_monthly_payment),
        "Balloon payment schedule should have lower monthly payments"
    );
    let final_payment = schedule_balloon.payments.last().unwrap();
    assert!(final_payment.payment.same_value(&balloon_payment), "Final payment should equal balloon payment amount");
    assert!(same(final_payment.balance, "0"), "Final balance should be zero with balloon payment");
}

#[test]
fn test_amortise_with_fixed_payment_and_balloon() {
    let num_payments = 24;
    let fixed_payment = dec("800");
    let balloon_payment = dec("10000");
    let schedule = jan_first_loan("25000", "0.05", num_payments, Some(fixed_payment), Some(balloon_payment), None);

    assert_eq!(schedule.payments.len(), num_payments as usize);
    for (i, payment) in schedule.payments.iter().enumerate() {
        if i < (num_payments - 1) as usize {
            assert!(payment.payment.same_value(&fixed_payment), "Payment {} should equal fixed payment amount", i + 1);
        }
    }
    let final_payment = schedule.payments.last().unwrap();
    assert!(final_payment.payment.same_value(&balloon_payment), "Final payment should equal balloon payment amount");
}

#[test]
fn test_pcp_scenario() {
    let principal = dec("30000").checked_sub(&dec("5000")).unwrap();
    let num_payments = 36;
    let balloon_payment = dec("12000");
    let schedule = amortise(
        principal,
        dec("0.049"),
        num_payments,
        Date::from_ymd(2023, 1, 1).unwrap(),
        Date::from_ymd(2023, 2, 1).unwrap(),
        Date::from_ymd(2023, 2, 1).unwrap(),
        InterestMethod::ActualActual,
        InterestType::Simple,
        None,
        Some(balloon_payment),
        None,
    )
    .unwrap();

    assert_eq!(schedule.payments.len(), num_payments as usize);
    let monthly_payment = schedule.payments[0].payment;
    for (i, payment) in schedule.payments.iter().enumerate() {
        if i < (num_payments - 1) as usize {
            assert!(within(payment.payment, monthly_payment, "0.01"), "Monthly payments should be consistent in PCP");
        }
    }
    let final_payment = schedule.payments.last().unwrap();
    assert!(final_payment.payment.same_value(&balloon_payment), "Final PCP payment should equal balloon payment amount");
    assert!(same(final_payment.balance, "0"), "PCP should result in zero final balance");
    assert!(monthly_payment.less_than(&dec("500")), "PCP monthly payment should be reasonable for a £25k vehicle");
}

#[test]
fn test_amortise_with_option_fee() {
    let num_payments = 24;
    let option_fee = dec("199");
    let schedule_with_fee = jan_first_loan("15000", "0.08", num_payments, None, None, Some(option_fee));
    let schedule_without_fee = jan_first_loan("15000", "0.08", num_payments, None, None, None);

    assert_eq!(schedule_with_fee.payments.len(), num_payments as usize);
    assert_eq!(schedule_without_fee.payments.len(), num_payments as usize);
    for i in 0..(num_payments - 1) as usize {
        assert!(
            within(schedule_with_fee.payments[i].payment, schedule_without_fee.payments[i].payment, "0.01"),
            "Monthly payments should be approximately the same"
        );
    }
    let final_payment_with_fee = schedule_with_fee.payments.last().unwrap();
    let final_payment_without_fee = schedule_without_fee.payments.last().unwrap();
    let fee_difference = final_payment_with_fee.payment.checked_sub(&final_payment_without_fee.payment).unwrap();
    assert!(within(fee_difference, option_fee, "0.01"), "Final payment should include option fee");
    assert!(same(final_payment_with_fee.balance, "0"));
    assert!(same(final_payment_without_fee.balance, "0"));
}

#[test]
fn test_hp_scenario_with_balloon_and_option_fee() {
    let principal = dec("20000").checked_sub(&dec("2000")).unwrap();
    let num_payments = 48;
    let balloon_payment = dec("6000");
    let option_fee = dec("299");
    let schedule = amortise(
        principal,
        dec("0.054"),
        num_payments,
        Date::from_ymd(2023, 1, 1).unwrap(),
        Date::from_ymd(2023, 2, 1).unwrap(),
        Date::from_ymd(2023, 2, 1).unwrap(),
        InterestMethod::ActualActual,
        InterestType::Simple,
        None,
        Some(balloon_payment),
        Some(option_fee),
    )
    .unwrap();

    assert_eq!(schedule.payments.len(), num_payments as usize);
    let monthly_payment = schedule.payments[0].payment;
    for (i, payment) in schedule.payments.iter().enumerate() {
        if i < (num_payments - 1) as usize {
            assert!(within(payment.payment, monthly_payment, "0.01"), "Monthly payments should be consistent in HP");
        }
    }
    let final_payment = schedule.payments.last().unwrap();
    let expected_final = balloon_payment.checked_add(&option_fee).unwrap();
    assert!(final_payment.payment.same_value(&expected_final), "Final HP payment should equal balloon payment + option fee");
    assert!(same(final_payment.balance, "0"), "HP should result in zero final balance");
    assert!(monthly_payment.less_than(&dec("350")), "HP monthly payment should be reasonable for an £18k vehicle");
}

#[test]
fn the_repository_fixture_is_reproduced() {
    let rough = calculate_rough_period_payment(dec("15000"), dec("0.089"), 36).unwrap();
    assert!(within(rough, dec("476.30"), "0.011"));
    let fixture = build_schedule(
        dec("15000"),
        Date::from_ymd(2023, 1, 10).unwrap(),
        Date::from_ymd(2023, 2, 1).unwrap(),
        Date::from_ymd(2023, 3, 1).unwrap(),
        36,
        dec("0.089"),
        rough,
        InterestMethod::ActualActual,
        InterestType::Simple,
        true,
        None,
        None,
    )
    .unwrap();
    assert!(same(fixture.meta.total_interest, "2073.12"));
    assert!(same(fixture.meta.total_payable, "17073.12"));
    assert!(same(fixture.payments.last().unwrap().balance, "0"));
    let solved = amortise(
        dec("15000"),
        dec("0.089"),
        36,
        Date::from_ymd(2023, 1, 10).unwrap(),
        Date::from_ymd(2023, 3, 1).unwrap(),
        Date::from_ymd(2023, 2, 1).unwrap(),
        InterestMethod::ActualActual,
        InterestType::Simple,
        None,
        None,
        None,
    )
    .unwrap();
    assert_eq!(solved.payments.len(), 36);
    assert!(same(solved.payments[0].payment, "474.51"));
    assert!(same(solved.meta.total_principal, "15000"));
    assert!(same(solved.payments.last().unwrap().balance, "0"));
}

#[test]
fn solved_schedules_keep_the_per_period_identity() {
    let schedule = jan_first_loan("20000", "0.06", 12, None, None, None);
    for p in &schedule.payments[..11] {
        assert!(p.principal.checked_add(&p.interest).unwrap().same_value(&p.payment));
    }
}

#[test]
fn a_failed_solution_gives_the_empty_schedule() {
    let schedule = schedule_from_solution(
        None,
        dec("15000"),
        dec("0.05"),
        12,
        Date::from_ymd(2023, 1, 1).unwrap(),
        Date::from_ymd(2023, 2, 1).unwrap(),
        Date::from_ymd(2023, 2, 1).unwrap(),
        InterestMethod::ActualActual,
        InterestType::Simple,
        None,
        None,
    )
    .unwrap();
    assert!(schedule.payments.is_empty());
    assert!(same(schedule.meta.total_payable, "0"));
    assert!(same(schedule.meta.calculated_apr, "0"));
}

#[test]
fn a_solution_is_rounded_to_cents_before_the_ledger_is_built() {
    let schedule = schedule_from_solution(
        Some(dec("1284.125")),
        dec("15000"),
        dec("0.05"),
        12,
        Date::from_ymd(2023, 1, 1).unwrap(),
        Date::from_ymd(2023, 2, 1).unwrap(),
        Date::from_ymd(2023, 2, 1).unwrap(),
        InterestMethod::ActualActual,
        InterestType::Simple,
        None,
        None,
    )
    .unwrap();
    assert!(same(schedule.payments[0].payment, "1284.13"));
    assert!(same(schedule.payments.last().unwrap().balance, "0"));
}

#[test]
fn a_zero_rate_has_no_annuity_payment() {
    let r = calculate_rough_period_payment(dec("1200"), dec("0"), 12);
    assert_eq!(r.unwrap_err(), AmortiseError::Overflow);
}

#[test]
fn the_rough_payment_is_the_annuity_formula_in_cents() {
    // 1000 at 12% over 12 months: 88.85
    let p = calculate_rough_period_payment(dec("1000"), dec("0.12"), 12).unwrap();
    assert!(same(p, "88.85"));
}
