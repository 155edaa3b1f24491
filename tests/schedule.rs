use std::str::FromStr;

use loan_amortisation::{
    build_schedule, get_apr, AmortiseError, Date, Decimal, InterestMethod, InterestType,
};

fn dec(s: &str) -> Decimal {
    let d = rust_decimal::Decimal::from_str(s).unwrap();
    Decimal::from_i128_with_scale(d.mantissa(), d.scale())
}

fn same(a: Decimal, b: &str) -> bool {
    a.same_value(&dec(b))
}

fn fixture(
    annual_rate: Decimal,
    num_payments: u32,
    period_payment: &str,
    settle: bool,
    balloon: Option<Decimal>,
    fee: Option<Decimal>,
) -> loan_amortisation::Schedule {
    build_schedule(
        Decimal::from_int(15000),
        Date::from_ymd(2023, 1, 10).unwrap(),
        Date::from_ymd(2023, 2, 1).unwrap(),
        Date::from_ymd(2023, 3, 1).unwrap(),
        num_payments,
        annual_rate,
        dec(period_payment),
        InterestMethod::ActualActual,
        InterestType::Simple,
        settle,
        balloon,
        fee,
    )
    .unwrap()
}

#[test]
fn test_get_apr() {
    let schedule = fixture(dec("0.05"), 24, "476.3", true, None, None);
    let apr = get_apr(&schedule.payments).unwrap();
    assert!(same(apr, "0.053803"));
}

#[test]
fn test_build_schedule() {
    let annual_rate = dec("8.9").checked_div(&Decimal::from_int(100)).unwrap();
    let schedule = fixture(annual_rate, 36, "476.3", true, None, None);
    assert_eq!(schedule.payments.len(), 36);
    assert!(same(schedule.payments.last().unwrap().balance, "0"));
    assert!(same(schedule.meta.total_payable, "17073.12"));
    assert!(same(schedule.meta.total_principal, "15000"));
    assert!(same(schedule.meta.total_interest, "2073.12"));
}

#[test]
fn ledger_lines_follow_each_other() {
    let schedule = fixture(dec("0.089"), 36, "476.3", true, None, None);
    let mut opening = dec("15000");
    let mut paid = Decimal::zero();
    for (i, p) in schedule.payments.iter().enumerate() {
        assert_eq!(p.month as usize, i + 1);
        if i < 35 {
            assert!(same(p.payment, "476.3"));
            let sum = p.principal.checked_add(&p.interest).unwrap();
            assert!(sum.same_value(&p.payment));
        }
        let closing = opening.checked_sub(&p.principal).unwrap();
        assert!(closing.same_value(&p.balance));
        paid = paid.checked_add(&p.principal).unwrap();
        opening = p.balance;
    }
    assert!(same(paid, "15000"));
    assert_eq!(schedule.payments[0].days, 23);
    assert_eq!(schedule.payments[1].days, 28);
    assert!(schedule.meta.calculated_ear.same_value(&schedule.meta.calculated_apr));
}

#[test]
fn an_unsettled_schedule_leaves_what_the_level_payment_does_not_cover() {
    let schedule = fixture(dec("0.089"), 36, "400", false, None, None);
    let last = schedule.payments.last().unwrap();
    assert!(same(last.payment, "400"));
    assert!(Decimal::zero().less_than(&last.balance));
}

#[test]
fn a_balloon_line_pays_the_balloon_and_fee_and_clears_the_balance() {
    let schedule = fixture(dec("0.06"), 12, "450", false, Some(dec("10000")), Some(dec("199")));
    let last = schedule.payments.last().unwrap();
    assert!(same(last.payment, "10199"));
    assert!(same(last.balance, "0"));
}

#[test]
fn a_settled_line_adds_the_fee_on_top() {
    let with_fee = fixture(dec("0.089"), 36, "476.3", true, None, Some(dec("199")));
    let without = fixture(dec("0.089"), 36, "476.3", true, None, None);
    let a = with_fee.payments.last().unwrap();
    let b = without.payments.last().unwrap();
    assert!(a.payment.checked_sub(&b.payment).unwrap().same_value(&dec("199")));
    assert!(same(a.balance, "0"));
    assert!(a.principal.same_value(&b.principal));
}

#[test]
fn compound_interest_uses_the_decompounded_rate() {
    let schedule = build_schedule(
        Decimal::from_int(15000),
        Date::from_ymd(2023, 1, 10).unwrap(),
        Date::from_ymd(2023, 2, 1).unwrap(),
        Date::from_ymd(2023, 3, 1).unwrap(),
        12,
        dec("0.0512"),
        dec("1300"),
        InterestMethod::Actual365,
        InterestType::Compound,
        true,
        None,
        None,
    )
    .unwrap();
    assert!(same(schedule.meta.annual_rate, "0.050036"));
    assert!(same(schedule.meta.daily_rate, "0.0001370849315068493150684932"));
}

#[test]
fn a_single_settled_period_has_no_apr() {
    let r = build_schedule(
        Decimal::from_int(1000),
        Date::from_ymd(2023, 1, 1).unwrap(),
        Date::from_ymd(2023, 1, 31).unwrap(),
        Date::from_ymd(2023, 2, 1).unwrap(),
        1,
        dec("0.05"),
        dec("1000"),
        InterestMethod::Convention30_360,
        InterestType::Simple,
        true,
        None,
        None,
    );
    assert_eq!(r.unwrap_err(), AmortiseError::ZeroBalanceCurve);
}

#[test]
fn no_periods_give_an_empty_ledger_without_apr() {
    let r = build_schedule(
        Decimal::from_int(1000),
        Date::from_ymd(2023, 1, 1).unwrap(),
        Date::from_ymd(2023, 1, 31).unwrap(),
        Date::from_ymd(2023, 2, 1).unwrap(),
        0,
        dec("0.05"),
        dec("100"),
        InterestMethod::Actual365,
        InterestType::Simple,
        false,
        None,
        None,
    );
    assert_eq!(r.unwrap_err(), AmortiseError::ZeroBalanceCurve);
}

#[test]
fn amounts_that_do_not_fit_overflow() {
    let huge = Decimal::from_i128_with_scale(79228162514264337593543950335, 0);
    let r = build_schedule(
        huge,
        Date::from_ymd(2023, 1, 1).unwrap(),
        Date::from_ymd(2023, 1, 31).unwrap(),
        Date::from_ymd(2023, 2, 1).unwrap(),
        2,
        dec("0"),
        dec("-79228162514264337593543950335"),
        InterestMethod::Convention30_360,
        InterestType::Simple,
        false,
        None,
        None,
    );
    assert_eq!(r.unwrap_err(), AmortiseError::Overflow);
}

#[test]
fn a_settled_last_line_pays_the_opening_balance_interest_and_fee() {
    let s = fixture(dec("0.089"), 36, "476.3", true, None, Some(dec("199")));
    let last = s.payments[35];
    let opening = s.payments[34].balance;
    let expected = opening.checked_add(&last.interest).unwrap().checked_add(&dec("199")).unwrap();
    assert!(last.payment.same_value(&expected));
    assert!(last.principal.same_value(&opening));
    assert!(same(last.balance, "0"));
    let paid = dec("15000").checked_sub(&last.balance).unwrap();
    assert!(s.meta.total_principal.same_value(&paid));
}

#[test]
fn a_plain_last_line_takes_the_fee_off_the_principal() {
    let s = fixture(dec("0.089"), 36, "476.3", false, None, Some(dec("10")));
    let last = s.payments[35];
    assert!(same(last.payment, "476.3"));
    let expected = dec("476.3").checked_sub(&last.interest).unwrap().checked_sub(&dec("10")).unwrap();
    assert!(last.principal.same_value(&expected));
}

#[test]
fn a_balloon_with_more_decimals_is_paid_exactly() {
    let s = fixture(dec("0.06"), 12, "450", false, Some(dec("10000.125")), Some(dec("0.005")));
    let last = s.payments.last().unwrap();
    assert!(same(last.payment, "10000.13"));
    assert!(same(last.balance, "0"));
}
