pub mod release_to_recipient;
pub mod batch_release;
pub mod add_recipients;
pub mod initialize_schedule;
pub mod set_distributor;
pub mod admin_withdraw;
pub mod deposit_tokens;
pub mod emit_vesting_quote;
pub mod pause;
pub mod revoke_recipient;
pub mod sweep_dust_after_end;
pub mod unpause;
