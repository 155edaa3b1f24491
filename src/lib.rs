//! Amortisation schedules for instalment loans: day-accurate interest
//! accrual, a schedule builder and a secant-method payment solver.

mod date;
mod decimal;
mod error;
mod interest;
mod schedule;
mod secant;
mod solver;

pub use date::Date;
pub use decimal::{round_decimal, Decimal, Rounding};
pub use error::AmortiseError;
pub use interest::{
    calculate_period_interest, decompound_rate, get_daily_interest_rate, InterestMethod,
    InterestType,
};
pub use schedule::{build_schedule, get_apr, Column, Meta, Payment, Schedule};
pub use secant::{secant_method, secant_step};
pub use solver::{amortise, calculate_rough_period_payment, schedule_from_solution};
