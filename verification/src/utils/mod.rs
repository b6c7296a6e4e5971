pub mod calendar;
pub mod time;
pub mod accrual;
