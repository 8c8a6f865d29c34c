//! What holds of the program's operations on every ledger, stated over the
//! outcomes `initialize_spec` and `reward_spec` that the operations realize.

use crate::address::{lemma_address_by_bytes, Address};
use crate::derive::{profile_address_of, VaultAuthority};
use crate::error::ErrorCode;
use crate::profile::{
    fields_fit,
    has_profile,
    lemma_profile_at_index,
    profile_at,
    registry_well_formed,
    ProfileRecord,
    UserProfile,
};
use crate::program::{
    initialize_spec,
    reward_spec,
    user_account_ok,
    vault_account_ok,
    vault_authority_ok,
    InitializeUserProfile,
    RewardUser,
};
use crate::token::{
    account_at,
    balance_of,
    empty_account,
    has_account,
    lemma_account_at_push,
    lemma_supply_push,
    lemma_transfer_effect,
    supply,
    well_formed,
    TokenAccount,
};
use vstd::prelude::*;

verus! {

/// The vault authority of a program is one: whatever is derived from the
/// fixed tag under the same program has the same address and the same bump.
pub proof fn law_vault_authority_is_one(program_id: Address, a: VaultAuthority, b: VaultAuthority)
    requires
        a.derived_from(program_id),
        b.derived_from(program_id),
    ensures
        a == b,
{
    lemma_address_by_bytes(a.address, b.address);
}

/// A registry keeps at most one profile per identity.
pub proof fn law_one_profile_per_identity(
    program_id: Address,
    records: Seq<ProfileRecord>,
    i: int,
    j: int,
)
    requires
        registry_well_formed(records, program_id),
        0 <= i < records.len(),
        0 <= j < records.len(),
        records[i].profile.authority == records[j].profile.authority,
    ensures
        i == j,
{
    lemma_address_by_bytes(records[i].address, records[j].address);
    lemma_profile_at_index(records, i);
    lemma_profile_at_index(records, j);
}

/// Where the user presents the address derived from their identity, no
/// profile is kept there yet, and the texts fit, the profile is created: the
/// registry grows by this one record, which is then found at the address.
pub proof fn law_fresh_profile_is_created(
    program_id: Address,
    records: Seq<ProfileRecord>,
    ctx: InitializeUserProfile,
    arweave_hash: String,
    goal: String,
    now: i64,
)
    requires
        registry_well_formed(records, program_id),
        profile_address_of(ctx.authority.key, program_id) == Some(ctx.user_profile@),
        !has_profile(records, ctx.user_profile),
        fields_fit(arweave_hash, goal),
    ensures
        initialize_spec(program_id, records, ctx, arweave_hash, goal, now).0 is Ok,
        ({
            let after = initialize_spec(program_id, records, ctx, arweave_hash, goal, now).1;
            &&& registry_well_formed(after, program_id)
            &&& after.len() == records.len() + 1
            &&& after.subrange(0, records.len() as int) == records
            &&& profile_at(after, ctx.user_profile) == Some(
                UserProfile { authority: ctx.authority.key, arweave_hash, goal, created_at: now },
            )
        }),
{
    let after = initialize_spec(program_id, records, ctx, arweave_hash, goal, now).1;
    assert(after.subrange(0, records.len() as int) =~= records);
    assert forall|i: int, j: int| 0 <= i < j < after.len() implies (#[trigger] after[i]).address
        != (#[trigger] after[j]).address by {
        if j == records.len() {
            assert(records[i].address != ctx.user_profile);
        } else {
            assert(records[i].address != records[j].address);
        }
    }
    assert forall|i: int| 0 <= i < after.len() implies {
        &&& profile_address_of((#[trigger] after[i]).profile.authority, program_id) == Some(
            after[i].address@,
        )
        &&& after[i].profile.wf()
    } by {
        if i < records.len() {
            assert(after[i] == records[i]);
        }
    }
    lemma_profile_at_index(after, records.len() as int);
}

/// A profile is created once. After a first call has succeeded, a second
/// call for the same identity is refused whatever else it presents, with
/// `AlreadyExists` where it presents the same address, and the registry,
/// with the first record in it, stays as the first call left it.
pub proof fn law_profile_is_created_once(
    program_id: Address,
    records: Seq<ProfileRecord>,
    first: InitializeUserProfile,
    first_hash: String,
    first_goal: String,
    first_now: i64,
    second: InitializeUserProfile,
    second_hash: String,
    second_goal: String,
    second_now: i64,
)
    requires
        registry_well_formed(records, program_id),
        initialize_spec(program_id, records, first, first_hash, first_goal, first_now).0 is Ok,
        second.authority == first.authority,
    ensures
        ({
            let after = initialize_spec(
                program_id,
                records,
                first,
                first_hash,
                first_goal,
                first_now,
            ).1;
            let again = initialize_spec(
                program_id,
                after,
                second,
                second_hash,
                second_goal,
                second_now,
            );
            &&& again.0 == Err::<(), ErrorCode>(
                if second.user_profile == first.user_profile {
                    ErrorCode::AlreadyExists
                } else {
                    ErrorCode::DerivationMismatch
                },
            )
            &&& again.1 == after
            &&& profile_at(after, first.user_profile) == Some(
                UserProfile {
                    authority: first.authority.key,
                    arweave_hash: first_hash,
                    goal: first_goal,
                    created_at: first_now,
                },
            )
        }),
{
    law_fresh_profile_is_created(program_id, records, first, first_hash, first_goal, first_now);
    lemma_address_by_bytes(second.user_profile, first.user_profile);
}

/// A reward of nothing is refused as `InvalidAmount` and changes nothing,
/// whatever token accounts are presented, where the vault authority
/// presented is the derived one.
pub proof fn law_zero_reward_is_refused(
    program_id: Address,
    accounts: Seq<TokenAccount>,
    ctx: RewardUser,
)
    requires
        vault_authority_ok(program_id, ctx),
    ensures
        reward_spec(program_id, accounts, ctx, 0) == (
            Err::<(), ErrorCode>(ErrorCode::InvalidAmount),
            accounts,
        ),
{
}

/// A vault authority that is not the derived one is fatal: the reward is
/// refused as `DerivationMismatch` whatever else is presented, and nothing
/// changes.
pub proof fn law_wrong_authority_is_refused(
    program_id: Address,
    accounts: Seq<TokenAccount>,
    ctx: RewardUser,
    amount: u64,
)
    requires
        !vault_authority_ok(program_id, ctx),
    ensures
        reward_spec(program_id, accounts, ctx, amount) == (
            Err::<(), ErrorCode>(ErrorCode::DerivationMismatch),
            accounts,
        ),
{
}

/// A reward that is refused, for whatever reason, changes nothing.
pub proof fn law_refused_reward_changes_nothing(
    program_id: Address,
    accounts: Seq<TokenAccount>,
    ctx: RewardUser,
    amount: u64,
)
    requires
        reward_spec(program_id, accounts, ctx, amount).0 is Err,
    ensures
        reward_spec(program_id, accounts, ctx, amount).1 == accounts,
{
}

/// A reward within the vault's balance, with the right accounts presented
/// and the user's account another than the vault's, succeeds. The vault's
/// balance goes down by the amount and the user's goes up by it, so their
/// sum stays; every other account stays as it was, and so does the supply
/// of every mint.
pub proof fn law_reward_moves_the_amount(
    program_id: Address,
    accounts: Seq<TokenAccount>,
    ctx: RewardUser,
    amount: u64,
)
    requires
        well_formed(accounts),
        vault_authority_ok(program_id, ctx),
        vault_account_ok(accounts, ctx),
        user_account_ok(accounts, ctx),
        amount > 0,
        amount <= balance_of(accounts, ctx.vault_token_account),
        ctx.user_token_account != ctx.vault_token_account,
    ensures
        reward_spec(program_id, accounts, ctx, amount).0 is Ok,
        ({
            let after = reward_spec(program_id, accounts, ctx, amount).1;
            let vault = ctx.vault_token_account;
            let user = ctx.user_token_account;
            &&& well_formed(after)
            &&& balance_of(after, vault) == balance_of(accounts, vault) - amount
            &&& balance_of(after, user) == balance_of(accounts, user) + amount
            &&& balance_of(after, vault) + balance_of(after, user) == balance_of(accounts, vault)
                + balance_of(accounts, user)
            &&& forall|other: Address|
                other != vault && other != user ==> #[trigger] account_at(after, other)
                    == account_at(accounts, other)
            &&& forall|mint: Address| #[trigger] supply(after, mint) == supply(accounts, mint)
        }),
{
    let vault = ctx.vault_token_account;
    let user = ctx.user_token_account;
    let created = empty_account(user, ctx.mint, ctx.user.key);
    if has_account(accounts, user) {
        lemma_transfer_effect(accounts, vault, user, amount);
    } else {
        let opened = accounts.push(created);
        lemma_account_at_push(accounts, created, vault);
        lemma_account_at_push(accounts, created, user);
        assert forall|mint: Address| #[trigger] supply(opened, mint) == supply(accounts, mint) by {
            lemma_supply_push(accounts, created, mint);
        }
        assert(well_formed(opened)) by {
            assert forall|mint: Address| #[trigger] supply(opened, mint) <= u64::MAX by {
                assert(supply(opened, mint) == supply(accounts, mint));
            }
        }
        lemma_transfer_effect(opened, vault, user, amount);
        let after = reward_spec(program_id, accounts, ctx, amount).1;
        assert forall|other: Address| other != vault && other != user implies #[trigger] account_at(
            after,
            other,
        ) == account_at(accounts, other) by {
            lemma_account_at_push(accounts, created, other);
        }
        assert forall|mint: Address| #[trigger] supply(after, mint) == supply(accounts, mint) by {
            assert(supply(after, mint) == supply(opened, mint));
        }
    }
}

/// The user's token account is created once. A reward to a user who has
/// none creates exactly one account, at the presented address, bound to the
/// user and the mint, and holding the amount. A second reward to the same
/// user creates none: where it succeeds, it finds that account and adds to
/// it.
pub proof fn law_account_is_created_once(
    program_id: Address,
    accounts: Seq<TokenAccount>,
    ctx: RewardUser,
    first: u64,
    second: u64,
)
    requires
        well_formed(accounts),
        !has_account(accounts, ctx.user_token_account),
        reward_spec(program_id, accounts, ctx, first).0 is Ok,
    ensures
        ({
            let after = reward_spec(program_id, accounts, ctx, first).1;
            let again = reward_spec(program_id, after, ctx, second);
            let user = ctx.user_token_account;
            &&& well_formed(after)
            &&& after.len() == accounts.len() + 1
            &&& forall|other: Address|
                other != user ==> #[trigger] has_account(after, other) == has_account(
                    accounts,
                    other,
                )
            &&& account_at(after, user) == Some(
                TokenAccount { address: user, mint: ctx.mint, owner: ctx.user.key, amount: first },
            )
            &&& again.1.len() == after.len()
            &&& again.0 != Err::<(), ErrorCode>(ErrorCode::AccountMismatch)
            &&& again.0 is Ok ==> account_at(again.1, user) == Some(
                TokenAccount {
                    address: user,
                    mint: ctx.mint,
                    owner: ctx.user.key,
                    amount: (first + second) as u64,
                },
            ) && first + second <= u64::MAX
        }),
{
    let vault = ctx.vault_token_account;
    let user = ctx.user_token_account;
    let created = empty_account(user, ctx.mint, ctx.user.key);
    let opened = accounts.push(created);
    let after = reward_spec(program_id, accounts, ctx, first).1;
    assert(user != vault);
    law_reward_moves_the_amount(program_id, accounts, ctx, first);
    lemma_account_at_push(accounts, created, vault);
    lemma_account_at_push(accounts, created, user);
    assert(well_formed(opened)) by {
        assert forall|mint: Address| #[trigger] supply(opened, mint) <= u64::MAX by {
            lemma_supply_push(accounts, created, mint);
        }
    }
    lemma_transfer_effect(opened, vault, user, first);
    assert forall|other: Address| other != user implies #[trigger] has_account(after, other)
        == has_account(accounts, other) by {
        lemma_account_at_push(accounts, created, other);
        if other != vault {
            assert(account_at(after, other) == account_at(opened, other));
        }
    }
    let again = reward_spec(program_id, after, ctx, second);
    if again.0 is Ok {
        lemma_transfer_effect(after, vault, user, second);
    }
}

} // verus!
