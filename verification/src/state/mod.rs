pub mod recipients;
pub mod schedule_state;
pub mod token_account;
