//! The program: its state and its two operations. Every check of an
//! operation is made before anything is changed, so an operation that is
//! refused leaves the ledger as it was.

use crate::address::{lemma_address_by_bytes, Address};
use crate::derive::{
    is_associated,
    associated_token_address_of,
    derive_profile_address,
    profile_address_of,
    vault_authority_of,
    VaultAuthority,
};
use crate::error::ErrorCode;
use crate::profile::{
    fields_fit,
    has_profile,
    lemma_profile_at_index,
    profile_at,
    profile_index,
    registry_well_formed,
    ProfileRecord,
    UserProfile,
};
use crate::token::{
    account_at,
    empty_account,
    ensure_effect,
    has_account,
    lemma_account_at_push,
    transfer_effect,
    TokenAccount,
    TokenLedger,
};
use vstd::prelude::*;

verus! {

/// An identity whose signature on the invocation has been verified.
#[derive(Clone, Copy, Debug, PartialEq, Eq)]
pub struct Signer {
    pub key: Address,
}

/// The accounts that an invocation of `initialize_user_profile` names.
#[derive(Clone, Copy, Debug, PartialEq, Eq)]
pub struct InitializeUserProfile {
    /// The address at which the profile is to be created.
    pub user_profile: Address,
    /// The user, who owns the profile.
    pub authority: Signer,
}

/// The accounts that an invocation of `reward_user` names.
#[derive(Clone, Copy, Debug, PartialEq, Eq)]
pub struct RewardUser {
    /// The derived authority of the vault.
    pub vault_authority: Address,
    /// The mint of the reward token.
    pub mint: Address,
    /// The user who is rewarded.
    pub user: Signer,
    /// The user's token account, created on demand.
    pub user_token_account: Address,
    /// The vault's token account, which pays.
    pub vault_token_account: Address,
}

/// The outcome of `initialize_user_profile` on the registry `records` of the
/// program `program_id`: the answer, and the registry afterwards.
pub open spec fn initialize_spec(
    program_id: Address,
    records: Seq<ProfileRecord>,
    ctx: InitializeUserProfile,
    arweave_hash: String,
    goal: String,
    now: i64,
) -> (Result<(), ErrorCode>, Seq<ProfileRecord>) {
    if profile_address_of(ctx.authority.key, program_id) != Some(ctx.user_profile@) {
        (Err(ErrorCode::DerivationMismatch), records)
    } else if has_profile(records, ctx.user_profile) {
        (Err(ErrorCode::AlreadyExists), records)
    } else if !fields_fit(arweave_hash, goal) {
        (Err(ErrorCode::FieldTooLong), records)
    } else {
        (
            Ok(()),
            records.push(
                ProfileRecord {
                    address: ctx.user_profile,
                    profile: UserProfile {
                        authority: ctx.authority.key,
                        arweave_hash,
                        goal,
                        created_at: now,
                    },
                },
            ),
        )
    }
}

/// Whether the vault authority that `ctx` presents is the one derived from
/// the fixed tag under `program_id`.
pub open spec fn vault_authority_ok(program_id: Address, ctx: RewardUser) -> bool {
    vault_authority_of(program_id) matches Some((address, _)) && address == ctx.vault_authority@
}

/// Whether the vault token account that `ctx` presents is the existing
/// account associated with the vault authority for the mint, and is bound to
/// both.
pub open spec fn vault_account_ok(accounts: Seq<TokenAccount>, ctx: RewardUser) -> bool {
    &&& associated_token_address_of(ctx.vault_authority, ctx.mint) == Some(
        ctx.vault_token_account@,
    )
    &&& account_at(accounts, ctx.vault_token_account) matches Some(vault)
    &&& vault.mint == ctx.mint
    &&& vault.owner == ctx.vault_authority
}

/// Whether the user token account that `ctx` presents has the address
/// associated with the user for the mint and, if it exists, is bound to both.
pub open spec fn user_account_ok(accounts: Seq<TokenAccount>, ctx: RewardUser) -> bool {
    &&& associated_token_address_of(ctx.user.key, ctx.mint) == Some(ctx.user_token_account@)
    &&& account_at(accounts, ctx.user_token_account) matches Some(user) ==> user.mint == ctx.mint
        && user.owner == ctx.user.key
}

/// The answer of `reward_user`: its checks, in the order in which they are
/// made.
pub open spec fn reward_check(
    program_id: Address,
    accounts: Seq<TokenAccount>,
    ctx: RewardUser,
    amount: u64,
) -> Result<(), ErrorCode> {
    if !vault_authority_ok(program_id, ctx) {
        Err(ErrorCode::DerivationMismatch)
    } else if amount == 0 {
        Err(ErrorCode::InvalidAmount)
    } else if !vault_account_ok(accounts, ctx) || !user_account_ok(accounts, ctx) {
        Err(ErrorCode::AccountMismatch)
    } else if account_at(accounts, ctx.vault_token_account)->0.amount < amount {
        Err(ErrorCode::InsufficientFunds)
    } else {
        Ok(())
    }
}

/// The token accounts after a reward that passed its checks: the user's
/// account exists, and `amount` has moved into it from the vault.
pub open spec fn reward_effect(accounts: Seq<TokenAccount>, ctx: RewardUser, amount: u64) -> Seq<
    TokenAccount,
> {
    transfer_effect(
        ensure_effect(accounts, ctx.user_token_account, ctx.mint, ctx.user.key),
        ctx.vault_token_account,
        ctx.user_token_account,
        amount,
    )
}

/// The outcome of `reward_user` on the token accounts `accounts` under the
/// program `program_id`: the answer, and the accounts afterwards.
pub open spec fn reward_spec(
    program_id: Address,
    accounts: Seq<TokenAccount>,
    ctx: RewardUser,
    amount: u64,
) -> (Result<(), ErrorCode>, Seq<TokenAccount>) {
    match reward_check(program_id, accounts, ctx, amount) {
        Ok(()) => (Ok(()), reward_effect(accounts, ctx, amount)),
        Err(e) => (Err(e), accounts),
    }
}

/// The profiles that a program has registered.
pub struct ProfileRegistry {
    program_id: Address,
    records: Vec<ProfileRecord>,
}

impl ProfileRegistry {
    /// The identity of the program, under which its addresses are derived.
    pub closed spec fn program(&self) -> Address {
        self.program_id
    }

    /// The registered profiles, in the order of their creation.
    pub closed spec fn records(&self) -> Seq<ProfileRecord> {
        self.records@
    }

    /// The invariant of the registry.
    pub open spec fn wf(&self) -> bool {
        registry_well_formed(self.records(), self.program())
    }

    /// The empty registry of the program `program_id`.
    pub fn new(program_id: Address) -> (registry: ProfileRegistry)
        ensures
            registry.wf(),
            registry.program() == program_id,
            registry.records() == Seq::<ProfileRecord>::empty(),
    {
        ProfileRegistry { program_id, records: Vec::new() }
    }

    /// The identity of the program.
    pub fn program_id(&self) -> (id: Address)
        ensures
            id == self.program(),
    {
        self.program_id
    }

    /// The number of registered profiles.
    pub fn len(&self) -> (n: usize)
        ensures
            n == self.records().len(),
    {
        self.records.len()
    }

    fn position(&self, address: &Address) -> (r: Option<usize>)
        requires
            self.wf(),
        ensures
            r matches Some(k) ==> k < self.records().len() && self.records()[k as int].address
                == *address && profile_index(self.records(), *address) == k,
            r is Some <==> has_profile(self.records(), *address),
    {
        let mut i: usize = 0;
        while i < self.records.len()
            invariant
                self.wf(),
                i <= self.records.len(),
                forall|j: int| 0 <= j < i ==> (#[trigger] self.records@[j]).address != *address,
            decreases self.records.len() - i,
        {
            if self.records[i].address == *address {
                proof {
                    lemma_profile_at_index(self.records@, i as int);
                }
                return Some(i);
            }
            i = i + 1;
        }
        None
    }

    /// The profile kept at `address`, if there is one.
    pub fn profile(&self, address: &Address) -> (r: Option<&UserProfile>)
        requires
            self.wf(),
        ensures
            match r {
                Some(p) => profile_at(self.records(), *address) == Some(*p),
                None => profile_at(self.records(), *address) is None,
            },
    {
        match self.position(address) {
            Some(k) => Some(&self.records[k].profile),
            None => None,
        }
    }

    /// The profile of the user `authority`, if there is one: found by
    /// deriving its address from the identity.
    pub fn profile_of(&self, authority: &Address) -> (r: Option<&UserProfile>)
        requires
            self.wf(),
        ensures
            match r {
                Some(p) => p.authority == *authority && exists|i: int|
                    0 <= i < self.records().len() && (#[trigger] self.records()[i]).profile == *p,
                None => forall|i: int|
                    0 <= i < self.records().len() ==> (
                    #[trigger] self.records()[i]).profile.authority != *authority,
            },
    {
        let found = match derive_profile_address(authority, &self.program_id) {
            None => None,
            Some(address) => {
                proof {
                    assert forall|i: int|
                        0 <= i < self.records().len() && (
                        #[trigger] self.records()[i]).profile.authority
                            == *authority implies self.records()[i].address == address by {
                        lemma_address_by_bytes(self.records()[i].address, address);
                    }
                }
                self.position(&address)
            },
        };
        match found {
            Some(k) => {
                if self.records[k].profile.authority == *authority {
                    Some(&self.records[k].profile)
                } else {
                    None
                }
            },
            None => None,
        }
    }
}

/// Registers the profile of the user `ctx.authority`, created at the time
/// `now`, at the address derived from the user's identity.
///
/// The presented address must be the derived one; a profile that exists is
/// never replaced; texts that do not fit are refused.
pub fn initialize_user_profile(
    registry: &mut ProfileRegistry,
    ctx: &InitializeUserProfile,
    arweave_hash: String,
    goal: String,
    now: i64,
) -> (r: Result<(), ErrorCode>)
    requires
        old(registry).wf(),
    ensures
        final(registry).wf(),
        final(registry).program() == old(registry).program(),
        r == initialize_spec(
            old(registry).program(),
            old(registry).records(),
            *ctx,
            arweave_hash,
            goal,
            now,
        ).0,
        final(registry).records() == initialize_spec(
            old(registry).program(),
            old(registry).records(),
            *ctx,
            arweave_hash,
            goal,
            now,
        ).1,
{
    let presented = match derive_profile_address(&ctx.authority.key, &registry.program_id) {
        Some(address) => {
            proof {
                lemma_address_by_bytes(address, ctx.user_profile);
            }
            address == ctx.user_profile
        },
        None => false,
    };
    if !presented {
        return Err(ErrorCode::DerivationMismatch);
    }
    if registry.position(&ctx.user_profile).is_some() {
        return Err(ErrorCode::AlreadyExists);
    }
    match UserProfile::new(ctx.authority.key, arweave_hash, goal, now) {
        Err(e) => Err(e),
        Ok(profile) => {
            let ghost before = registry.records@;
            let record = ProfileRecord { address: ctx.user_profile, profile };
            registry.records.push(record);
            proof {
                let after = registry.records@;
                assert forall|i: int, j: int| 0 <= i < j < after.len() implies (
                #[trigger] after[i]).address != (#[trigger] after[j]).address by {
                    if j == before.len() {
                        assert(before[i].address != ctx.user_profile);
                    } else {
                        assert(before[i].address != before[j].address);
                    }
                }
                assert forall|i: int| 0 <= i < after.len() implies {
                    &&& profile_address_of(
                        (#[trigger] after[i]).profile.authority,
                        registry.program_id,
                    ) == Some(after[i].address@)
                    &&& after[i].profile.wf()
                } by {
                    if i < before.len() {
                        assert(after[i] == before[i]);
                    }
                }
            }
            Ok(())
        },
    }
}

/// Pays `amount` of the reward token from the vault to the user `ctx.user`,
/// creating the user's token account if it does not exist yet. The program
/// `program_id` authorizes the payment in the name of the vault authority by
/// presenting the seeds that derive it.
///
/// The vault authority is derived anew and compared first; then the amount
/// is checked; then the two token accounts against their bindings; then the
/// vault's balance. Only then is anything changed.
pub fn reward_user(
    program_id: &Address,
    tokens: &mut TokenLedger,
    ctx: &RewardUser,
    amount: u64,
) -> (r: Result<(), ErrorCode>)
    requires
        old(tokens).wf(),
    ensures
        final(tokens).wf(),
        r == reward_spec(*program_id, old(tokens)@, *ctx, amount).0,
        final(tokens)@ == reward_spec(*program_id, old(tokens)@, *ctx, amount).1,
{
    let vault = match VaultAuthority::derive(program_id) {
        Some(vault) => vault,
        None => {
            return Err(ErrorCode::DerivationMismatch);
        },
    };
    proof {
        lemma_address_by_bytes(vault.address, ctx.vault_authority);
    }
    if vault.address != ctx.vault_authority {
        return Err(ErrorCode::DerivationMismatch);
    }
    if amount == 0 {
        return Err(ErrorCode::InvalidAmount);
    }
    if !is_associated(&ctx.vault_token_account, &ctx.vault_authority, &ctx.mint) {
        return Err(ErrorCode::AccountMismatch);
    }
    match tokens.account(&ctx.vault_token_account) {
        None => {
            return Err(ErrorCode::AccountMismatch);
        },
        Some(paying) => {
            if paying.mint != ctx.mint || paying.owner != ctx.vault_authority {
                return Err(ErrorCode::AccountMismatch);
            }
        },
    }
    if !is_associated(&ctx.user_token_account, &ctx.user.key, &ctx.mint) {
        return Err(ErrorCode::AccountMismatch);
    }
    match tokens.account(&ctx.user_token_account) {
        None => {},
        Some(receiving) => {
            if receiving.mint != ctx.mint || receiving.owner != ctx.user.key {
                return Err(ErrorCode::AccountMismatch);
            }
        },
    }
    let seeds = vault.signer_seeds();
    match tokens.authorize_debit(
        &ctx.vault_token_account,
        &ctx.vault_authority,
        amount,
        &seeds,
        program_id,
    ) {
        Err(e) => {
            return Err(e);
        },
        Ok(()) => {},
    }
    proof {
        if !has_account(tokens@, ctx.user_token_account) {
            lemma_account_at_push(
                tokens@,
                empty_account(ctx.user_token_account, ctx.mint, ctx.user.key),
                ctx.vault_token_account,
            );
            lemma_account_at_push(
                tokens@,
                empty_account(ctx.user_token_account, ctx.mint, ctx.user.key),
                ctx.user_token_account,
            );
        }
    }
    match tokens.ensure_account(&ctx.user_token_account, &ctx.mint, &ctx.user.key) {
        Err(e) => {
            return Err(e);
        },
        Ok(_) => {},
    }
    tokens.transfer(
        &ctx.vault_token_account,
        &ctx.user_token_account,
        &ctx.vault_authority,
        amount,
        &seeds,
        program_id,
    )
}

} // verus!
