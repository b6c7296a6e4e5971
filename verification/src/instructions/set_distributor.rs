//! Replacing the distributor, and the rule that a distributor must meet.

use vstd::prelude::*;
use crate::error::VestingError;
use crate::invariants::{invariants_kept, lemma_authority_change_keeps};
use crate::state::recipients::RecipientEntry;
use crate::pubkey::{
    lemma_pubkey_ext, recipients_address, recipients_address_spec, vault_address,
    vault_address_spec, Pubkey,
};
use crate::state::schedule_state::ScheduleState;

verus! {

/// The accounts for replacing the distributor.
#[derive(Clone, Copy, Debug, PartialEq, Eq)]
pub struct SetDistributor {
    /// Address of the program that owns the schedule.
    pub program_id: Pubkey,
    /// Address of the schedule state account.
    pub schedule_state_key: Pubkey,
    /// The schedule.
    pub schedule_state: ScheduleState,
    /// The signer, who must be the admin.
    pub admin: Pubkey,
}

/// Record of a change of distributor.
#[derive(Clone, Copy, Debug, PartialEq, Eq)]
pub struct DistributorSet {
    /// The admin who made the change.
    pub admin: Pubkey,
    /// The distributor before.
    pub old_distributor: Pubkey,
    /// The distributor from now on.
    pub new_distributor: Pubkey,
}

/// Whether `distributor` may sign releases. The distributor has to sign, so it
/// can be none of the addresses that belong to the program: not the schedule
/// state account, not the program itself, not the vault and not the
/// recipients account; nor may it be the admin. `vault` and `recipients` are
/// the addresses derived for the vault and for the recipients account; both
/// must exist.
pub open spec fn distributor_allowed(
    distributor: Pubkey,
    admin: Pubkey,
    schedule_state_key: Pubkey,
    program_id: Pubkey,
    vault: Option<Seq<u8>>,
    recipients: Option<Seq<u8>>,
) -> bool {
    &&& distributor != admin
    &&& distributor != schedule_state_key
    &&& distributor != program_id
    &&& vault is Some
    &&& recipients is Some
    &&& vault != Some(distributor@)
    &&& recipients != Some(distributor@)
}

/// Checks that `distributor` may sign releases, given the addresses derived
/// for the vault and for the recipients account.
///
/// Fails with `InvalidConfig` unless `distributor_allowed` holds.
pub fn check_distributor(
    distributor: &Pubkey,
    admin: &Pubkey,
    schedule_state_key: &Pubkey,
    program_id: &Pubkey,
    vault: &Option<Pubkey>,
    recipients: &Option<Pubkey>,
) -> (res: Result<(), VestingError>)
    ensures
        res == if distributor_allowed(
            *distributor,
            *admin,
            *schedule_state_key,
            *program_id,
            match *vault {
                Some(key) => Some(key@),
                None => None,
            },
            match *recipients {
                Some(key) => Some(key@),
                None => None,
            },
        ) {
            Ok::<(), VestingError>(())
        } else {
            Err::<(), VestingError>(VestingError::InvalidConfig)
        },
{
    if *distributor == *admin {
        return Err(VestingError::InvalidConfig);
    }
    if *distributor == *schedule_state_key {
        return Err(VestingError::InvalidConfig);
    }
    if *distributor == *program_id {
        return Err(VestingError::InvalidConfig);
    }
    match vault {
        Some(key) => {
            proof {
                if key@ == distributor@ {
                    lemma_pubkey_ext(*key, *distributor);
                }
            }
            if *distributor == *key {
                return Err(VestingError::InvalidConfig);
            }
        },
        None => {
            return Err(VestingError::InvalidConfig);
        },
    }
    match recipients {
        Some(key) => {
            proof {
                if key@ == distributor@ {
                    lemma_pubkey_ext(*key, *distributor);
                }
            }
            if *distributor == *key {
                return Err(VestingError::InvalidConfig);
            }
        },
        None => {
            return Err(VestingError::InvalidConfig);
        },
    }
    Ok(())
}

/// Checks that `distributor` may sign releases for the schedule whose state
/// account is at `schedule_state_key`, under the program `program_id`. The
/// addresses of the vault and of the recipients account are derived from the
/// two.
///
/// Fails with `InvalidConfig` unless `distributor_allowed` holds.
pub fn check_distributor_for(
    distributor: &Pubkey,
    admin: &Pubkey,
    schedule_state_key: &Pubkey,
    program_id: &Pubkey,
) -> (res: Result<(), VestingError>)
    ensures
        res == if distributor_allowed(
            *distributor,
            *admin,
            *schedule_state_key,
            *program_id,
            vault_address_spec(*schedule_state_key, *program_id),
            recipients_address_spec(*schedule_state_key, *program_id),
        ) {
            Ok::<(), VestingError>(())
        } else {
            Err::<(), VestingError>(VestingError::InvalidConfig)
        },
{
    let vault = vault_address(schedule_state_key, program_id);
    let recipients = recipients_address(schedule_state_key, program_id);
    check_distributor(distributor, admin, schedule_state_key, program_id, &vault, &recipients)
}

/// What replacing the distributor decides: the new distributor must not be
/// the zero key, the signer must be the admin, and the new distributor must be
/// allowed.
pub open spec fn set_distributor_spec(ctx: SetDistributor, new_distributor: Pubkey) -> Result<
    DistributorSet,
    VestingError,
> {
    if new_distributor.is_zero() {
        Err(VestingError::InvalidPubkey)
    } else if ctx.admin != ctx.schedule_state.admin {
        Err(VestingError::UnauthorizedAdmin)
    } else if !distributor_allowed(
        new_distributor,
        ctx.schedule_state.admin,
        ctx.schedule_state_key,
        ctx.program_id,
        vault_address_spec(ctx.schedule_state_key, ctx.program_id),
        recipients_address_spec(ctx.schedule_state_key, ctx.program_id),
    ) {
        Err(VestingError::InvalidConfig)
    } else {
        Ok(
            DistributorSet {
                admin: ctx.schedule_state.admin,
                old_distributor: ctx.schedule_state.distributor,
                new_distributor,
            },
        )
    }
}

/// Makes `new_distributor` the distributor. On an error nothing changes.
pub fn set_distributor(ctx: &mut SetDistributor, new_distributor: Pubkey) -> (res: Result<
    DistributorSet,
    VestingError,
>)
    ensures
        res == set_distributor_spec(*old(ctx), new_distributor),
        res is Err ==> *final(ctx) == *old(ctx),
        res is Ok ==> !final(ctx).schedule_state.distributor.is_zero() && distributor_allowed(
            final(ctx).schedule_state.distributor,
            final(ctx).schedule_state.admin,
            final(ctx).schedule_state_key,
            final(ctx).program_id,
            vault_address_spec(final(ctx).schedule_state_key, final(ctx).program_id),
            recipients_address_spec(final(ctx).schedule_state_key, final(ctx).program_id),
        ),
        res is Ok ==> *final(ctx) == (SetDistributor {
            schedule_state: ScheduleState {
                distributor: new_distributor,
                ..old(ctx).schedule_state
            },
            ..*old(ctx)
        }),
        forall|slots: Seq<RecipientEntry>, now_ts: i64| #[trigger]
            invariants_kept(
                old(ctx).schedule_state,
                slots,
                final(ctx).schedule_state,
                slots,
                now_ts,
            ),
{
    proof {
        assert forall|slots: Seq<RecipientEntry>, now_ts: i64| #[trigger]
            invariants_kept(ctx.schedule_state, slots, ctx.schedule_state, slots, now_ts) by {
            lemma_authority_change_keeps(ctx.schedule_state, ctx.schedule_state, slots, now_ts);
        }
    }
    if new_distributor.is_default() {
        return Err(VestingError::InvalidPubkey);
    }
    if !(ctx.admin == ctx.schedule_state.admin) {
        return Err(VestingError::UnauthorizedAdmin);
    }
    check_distributor_for(
        &new_distributor,
        &ctx.schedule_state.admin,
        &ctx.schedule_state_key,
        &ctx.program_id,
    )?;
    let old_distributor = ctx.schedule_state.distributor;
    ctx.schedule_state.distributor = new_distributor;
    proof {
        assert forall|slots: Seq<RecipientEntry>, now_ts: i64| #[trigger]
            invariants_kept(old(ctx).schedule_state, slots, ctx.schedule_state, slots, now_ts) by {
            lemma_authority_change_keeps(
                old(ctx).schedule_state,
                ctx.schedule_state,
                slots,
                now_ts,
            );
        }
    }
    Ok(DistributorSet { admin: ctx.schedule_state.admin, old_distributor, new_distributor })
}

} // verus!
