use vstd::prelude::*;
use vstd::string::StringSliceAdditionalSpecFns;

use crate::date::{leap_year_of, Date};
use crate::decimal::{
    abs_int, decimal_difference, decimal_power, decimal_product, decimal_quotient, decimal_sum,
    lemma_pow10_positive, pow10, round_to, units, Decimal, Rounding,
};
use crate::error::AmortiseError;

verus! {

/// Fractional digits kept of accrued interest.
pub const INTEREST_SCALE: u32 = 2;

/// Fractional digits kept of a decompounded rate.
pub const RATE_SCALE: u32 = 6;

/// Day-count convention.
#[derive(Clone, Copy, Debug, PartialEq, Eq, Structural)]
pub enum InterestMethod {
    Convention30_360,
    Actual365,
    Actual360,
    ActualActual,
}

/// Whether the annual rate is used as given or decompounded first.
#[derive(Clone, Copy, Debug, PartialEq, Eq, Structural)]
pub enum InterestType {
    Simple,
    Compound,
}

/// The token that names a day-count convention.
pub open spec fn method_token(m: InterestMethod) -> Seq<u8> {
    match m {
        InterestMethod::Convention30_360 => "Convention30_360".spec_bytes(),
        InterestMethod::Actual365 => "Actual365".spec_bytes(),
        InterestMethod::Actual360 => "Actual360".spec_bytes(),
        InterestMethod::ActualActual => "ActualActual".spec_bytes(),
    }
}

/// The token that names an interest type.
pub open spec fn type_token(t: InterestType) -> Seq<u8> {
    match t {
        InterestType::Simple => "Simple".spec_bytes(),
        InterestType::Compound => "Compound".spec_bytes(),
    }
}

fn same_bytes(a: &[u8], b: &[u8]) -> (r: bool)
    ensures
        r == (a@ == b@),
{
    if a.len() != b.len() {
        return false;
    }
    let mut i: usize = 0;
    while i < a.len()
        invariant
            a@.len() == b@.len(),
            i <= a@.len(),
            forall|j: int| 0 <= j < i ==> a@[j] == b@[j],
        decreases a.len() - i,
    {
        if a[i] != b[i] {
            return false;
        }
        i = i + 1;
    }
    assert(a@ =~= b@);
    true
}

impl InterestMethod {
    /// Reads a convention from its exact, case-sensitive name.
    pub fn parse(s: &str) -> (r: Result<InterestMethod, ()>)
        ensures
            r matches Ok(m) ==> s.spec_bytes() == method_token(m),
            r is Err ==> forall|m: InterestMethod| s.spec_bytes() != method_token(m),
    {
        let b = s.as_bytes();
        if same_bytes(b, "Convention30_360".as_bytes()) {
            Ok(InterestMethod::Convention30_360)
        } else if same_bytes(b, "Actual365".as_bytes()) {
            Ok(InterestMethod::Actual365)
        } else if same_bytes(b, "Actual360".as_bytes()) {
            Ok(InterestMethod::Actual360)
        } else if same_bytes(b, "ActualActual".as_bytes()) {
            Ok(InterestMethod::ActualActual)
        } else {
            assert forall|m: InterestMethod| s.spec_bytes() != method_token(m) by {
                match m {
                    InterestMethod::Convention30_360 => {},
                    InterestMethod::Actual365 => {},
                    InterestMethod::Actual360 => {},
                    InterestMethod::ActualActual => {},
                }
            }
            Err(())
        }
    }
}

impl InterestType {
    /// Reads an interest type from its exact, case-sensitive name.
    pub fn parse(s: &str) -> (r: Result<InterestType, ()>)
        ensures
            r matches Ok(t) ==> s.spec_bytes() == type_token(t),
            r is Err ==> forall|t: InterestType| s.spec_bytes() != type_token(t),
    {
        let b = s.as_bytes();
        if same_bytes(b, "Simple".as_bytes()) {
            Ok(InterestType::Simple)
        } else if same_bytes(b, "Compound".as_bytes()) {
            Ok(InterestType::Compound)
        } else {
            assert forall|t: InterestType| s.spec_bytes() != type_token(t) by {
                match t {
                    InterestType::Simple => {},
                    InterestType::Compound => {},
                }
            }
            Err(())
        }
    }
}

impl core::str::FromStr for InterestMethod {
    type Err = ();

    fn from_str(s: &str) -> Result<InterestMethod, ()> {
        InterestMethod::parse(s)
    }
}

impl core::str::FromStr for InterestType {
    type Err = ();

    fn from_str(s: &str) -> Result<InterestType, ()> {
        InterestType::parse(s)
    }
}

/// Days in the year that a convention divides the annual rate by.
pub open spec fn year_days(m: InterestMethod) -> int {
    match m {
        InterestMethod::Convention30_360 => 360,
        InterestMethod::Actual365 => 365,
        InterestMethod::Actual360 => 360,
        InterestMethod::ActualActual => 365,
    }
}

/// The annual rate divided by the convention's year.
pub open spec fn daily_rate_of(annual_rate: (int, nat), m: InterestMethod) -> (int, nat) {
    decimal_quotient(annual_rate, (year_days(m), 0)).unwrap()
}

/// The factor by which the daily rate shrinks on a day of a leap year.
pub open spec fn leap_factor() -> Option<(int, nat)> {
    decimal_quotient((365, 0), (366, 0))
}

/// The daily rate after one day of the walk: under Actual/Actual a day of a
/// leap year scales it by 365/366, and the scaled rate is kept for the days
/// that follow.
pub open spec fn rate_after_day(day: int, rate: (int, nat), adjust: bool) -> Option<(int, nat)> {
    if !adjust {
        Some(rate)
    } else {
        match leap_year_of(day) {
            None => None,
            Some(false) => Some(rate),
            Some(true) => match leap_factor() {
                None => None,
                Some(f) => decimal_product(rate, f),
            },
        }
    }
}

/// The balance after one day: the payment comes off at the start of its day.
pub open spec fn balance_after_day(
    day: int,
    pay_day: int,
    balance: (int, nat),
    payment: (int, nat),
) -> Option<(int, nat)> {
    if day == pay_day {
        decimal_difference(balance, payment)
    } else {
        Some(balance)
    }
}

/// Interest accrued on each day from `day` through `to`, added to `acc`.
pub open spec fn accrue(
    day: int,
    to: int,
    pay_day: int,
    rate: (int, nat),
    balance: (int, nat),
    payment: (int, nat),
    adjust: bool,
    acc: (int, nat),
) -> Option<(int, nat)>
    decreases to - day + 1,
{
    if day > to {
        Some(acc)
    } else {
        match rate_after_day(day, rate, adjust) {
            None => None,
            Some(rate2) => match balance_after_day(day, pay_day, balance, payment) {
                None => None,
                Some(balance2) => match decimal_product(balance2, rate2) {
                    None => None,
                    Some(day_interest) => match decimal_sum(acc, day_interest) {
                        None => None,
                        Some(acc2) => accrue(
                            day + 1,
                            to,
                            pay_day,
                            rate2,
                            balance2,
                            payment,
                            adjust,
                            acc2,
                        ),
                    },
                },
            },
        }
    }
}

/// The number of days from `start` through `to`.
pub open spec fn days_between(start: int, to: int) -> int {
    if to >= start {
        to - start + 1
    } else {
        0
    }
}

/// Interest of one period, rounded to cents (ties to even), and its day count.
pub open spec fn period_interest(
    start: int,
    to: int,
    pay_day: int,
    rate: (int, nat),
    balance: (int, nat),
    payment: (int, nat),
    m: InterestMethod,
) -> Option<((int, nat), int)> {
    if m == InterestMethod::Convention30_360 {
        match decimal_product((30, 0), balance) {
            None => None,
            Some(b30) => match decimal_product(b30, rate) {
                None => None,
                Some(i) => Some(
                    (round_to(i, INTEREST_SCALE as nat, Rounding::MidpointNearestEven), 30),
                ),
            },
        }
    } else if days_between(start, to) > u32::MAX {
        None
    } else {
        let adjust = m == InterestMethod::ActualActual;
        match accrue(start, to, pay_day, rate, balance, payment, adjust, (0, 0)) {
            None => None,
            Some(i) => Some(
                (
                    round_to(i, INTEREST_SCALE as nat, Rounding::MidpointNearestEven),
                    days_between(start, to),
                ),
            ),
        }
    }
}

/// The simple annual rate whose monthly compounding matches `annual_rate`:
/// `((1 + annual_rate)^(1/12) - 1) * 12`, to six places (ties to even).
pub open spec fn decompounded(annual_rate: (int, nat)) -> Option<(int, nat)> {
    match decimal_sum((1, 0), annual_rate) {
        None => None,
        Some(base) => match decimal_quotient((1, 0), (12, 0)) {
            None => None,
            Some(twelfth) => match decimal_power(base, twelfth) {
                None => None,
                Some(g) => match decimal_difference(g, (1, 0)) {
                    None => None,
                    Some(monthly) => match decimal_product(monthly, (12, 0)) {
                        None => None,
                        Some(x) => Some(
                            round_to(x, RATE_SCALE as nat, Rounding::MidpointNearestEven),
                        ),
                    },
                },
            },
        },
    }
}

/// The annual rate divided by 360 or 365, as the convention says. Under
/// Actual/Actual the leap-year correction is applied per day, in the walk.
pub fn get_daily_interest_rate(annual_rate: Decimal, interest_method: InterestMethod) -> (r:
    Decimal)
    requires
        annual_rate.wf(),
    ensures
        r.wf(),
        decimal_quotient(annual_rate@, (year_days(interest_method), 0)) == Some(r@),
        r@ == daily_rate_of(annual_rate@, interest_method),
{
    let divisor: i64 = match interest_method {
        InterestMethod::Convention30_360 => 360,
        InterestMethod::Actual365 => 365,
        InterestMethod::Actual360 => 360,
        InterestMethod::ActualActual => 365,
    };
    let d = Decimal::from_int(divisor);
    proof {
        lemma_pow10_positive(28);
        assert(units(d@) == divisor * pow10(28));
        assert(abs_int(units(d@)) >= pow10(28)) by (nonlinear_arith)
            requires
                units(d@) == divisor * pow10(28),
                divisor >= 360,
                pow10(28) >= 1,
        ;
    }
    annual_rate.checked_div(&d).unwrap()
}

/// The interest of one accrual period, and its day count.
///
/// Under 30/360 it is `30 * balance * daily_rate` and the period has 30 days.
/// Under the other conventions every day from `start_date` through `to_date`
/// accrues `balance * rate` on the running balance; on `payment_date` the
/// payment comes off first; under Actual/Actual each day of a leap year
/// scales the running rate by 365/366. The sum is rounded to cents, ties to
/// even.
pub fn calculate_period_interest(
    start_date: Date,
    to_date: Date,
    payment_date: Date,
    daily_rate: Decimal,
    balance: Decimal,
    payment_amount: Decimal,
    interest_method: InterestMethod,
) -> (r: Result<(Decimal, u32), AmortiseError>)
    requires
        daily_rate.wf(),
        balance.wf(),
        payment_amount.wf(),
    ensures
        r is Ok <==> period_interest(
            start_date.days as int,
            to_date.days as int,
            payment_date.days as int,
            daily_rate@,
            balance@,
            payment_amount@,
            interest_method,
        ) is Some,
        r matches Ok((i, d)) ==> i.wf() && period_interest(
            start_date.days as int,
            to_date.days as int,
            payment_date.days as int,
            daily_rate@,
            balance@,
            payment_amount@,
            interest_method,
        ) == Some((i@, d as int)),
{
    if interest_method == InterestMethod::Convention30_360 {
        let b30 = match Decimal::from_int(30).checked_mul(&balance) {
            Some(x) => x,
            None => return Err(AmortiseError::Overflow),
        };
        let interest = match b30.checked_mul(&daily_rate) {
            Some(x) => x,
            None => return Err(AmortiseError::Overflow),
        };
        return Ok((interest.round_dp(INTEREST_SCALE, Rounding::MidpointNearestEven), 30));
    }
    let first: i64 = start_date.days as i64;
    let last: i64 = to_date.days as i64;
    if last >= first && last - first + 1 > u32::MAX as i64 {
        return Err(AmortiseError::Overflow);
    }
    let adjust = interest_method == InterestMethod::ActualActual;
    let mut day: i64 = first;
    let mut count: u32 = 0;
    let mut rate_m = daily_rate;
    let mut balance_m = balance;
    let mut interest = Decimal::zero();
    while day <= last
        invariant
            first <= day,
            day <= last + 1 || day == first,
            day >= i32::MIN,
            last <= i32::MAX,
            first == start_date.days as i64,
            last == to_date.days as i64,
            last >= first ==> last - first + 1 <= u32::MAX,
            count == day - first,
            adjust == (interest_method == InterestMethod::ActualActual),
            interest_method != InterestMethod::Convention30_360,
            period_interest(
                start_date.days as int,
                to_date.days as int,
                payment_date.days as int,
                daily_rate@,
                balance@,
                payment_amount@,
                interest_method,
            ) is None <==> accrue(
                first as int,
                last as int,
                payment_date.days as int,
                daily_rate@,
                balance@,
                payment_amount@,
                adjust,
                (0, 0),
            ) is None,
            rate_m.wf(),
            balance_m.wf(),
            interest.wf(),
            payment_amount.wf(),
            accrue(
                first as int,
                last as int,
                payment_date.days as int,
                daily_rate@,
                balance@,
                payment_amount@,
                adjust,
                (0, 0),
            ) == accrue(
                day as int,
                last as int,
                payment_date.days as int,
                rate_m@,
                balance_m@,
                payment_amount@,
                adjust,
                interest@,
            ),
        decreases last + 1 - day,
    {
        if adjust {
            match (Date { days: day as i32 }).leap_year() {
                None => return Err(AmortiseError::DateOutOfRange),
                Some(true) => {
                    let f = match Decimal::from_int(365).checked_div(&Decimal::from_int(366)) {
                        Some(x) => x,
                        None => return Err(AmortiseError::Overflow),
                    };
                    rate_m = match rate_m.checked_mul(&f) {
                        Some(x) => x,
                        None => return Err(AmortiseError::Overflow),
                    };
                },
                Some(false) => {},
            }
        }
        if day == payment_date.days as i64 {
            balance_m = match balance_m.checked_sub(&payment_amount) {
                Some(x) => x,
                None => return Err(AmortiseError::Overflow),
            };
        }
        let day_interest = match balance_m.checked_mul(&rate_m) {
            Some(x) => x,
            None => return Err(AmortiseError::Overflow),
        };
        interest = match interest.checked_add(&day_interest) {
            Some(x) => x,
            None => return Err(AmortiseError::Overflow),
        };
        day = day + 1;
        count = count + 1;
    }
    Ok((interest.round_dp(INTEREST_SCALE, Rounding::MidpointNearestEven), count))
}

/// Converts a rate compounded monthly into the simple annual rate with the
/// same monthly growth, to six places.
pub fn decompound_rate(annual_rate: Decimal) -> (r: Result<Decimal, AmortiseError>)
    requires
        annual_rate.wf(),
    ensures
        r is Ok <==> decompounded(annual_rate@) is Some,
        r matches Ok(x) ==> x.wf() && decompounded(annual_rate@) == Some(x@),
{
    let one = Decimal::one();
    let twelve = Decimal::from_int(12);
    let base = match one.checked_add(&annual_rate) {
        Some(x) => x,
        None => return Err(AmortiseError::Overflow),
    };
    let twelfth = match one.checked_div(&twelve) {
        Some(x) => x,
        None => return Err(AmortiseError::Overflow),
    };
    let growth = match base.checked_powd(&twelfth) {
        Some(x) => x,
        None => return Err(AmortiseError::Overflow),
    };
    let monthly = match growth.checked_sub(&one) {
        Some(x) => x,
        None => return Err(AmortiseError::Overflow),
    };
    let rate = match monthly.checked_mul(&twelve) {
        Some(x) => x,
        None => return Err(AmortiseError::Overflow),
    };
    Ok(rate.round_dp(RATE_SCALE, Rounding::MidpointNearestEven))
}

} // verus!
