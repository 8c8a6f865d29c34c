use healthkey_protocol::address::Address;
use healthkey_protocol::derive::{associated_token_address, VaultAuthority};
use healthkey_protocol::error::ErrorCode;
use healthkey_protocol::program::{reward_user, RewardUser, Signer};
use healthkey_protocol::token::{TokenAccount, TokenLedger};

fn program_id() -> Address {
    Address::new([
        23, 105, 16, 46, 142, 95, 9, 154, 247, 85, 130, 30, 130, 237, 31, 118, 55, 20, 226, 56,
        239, 241, 153, 26, 122, 184, 153, 128, 151, 127, 0, 235,
    ])
}

fn filled(byte: u8) -> Address {
    Address::new([byte; 32])
}

fn mint() -> Address {
    filled(77)
}

fn accounts_for(user: Address) -> RewardUser {
    let vault = VaultAuthority::derive(&program_id()).expect("a vault authority");
    RewardUser {
        vault_authority: vault.address,
        mint: mint(),
        user: Signer { key: user },
        user_token_account: associated_token_address(&user, &mint()).expect("an address"),
        vault_token_account: associated_token_address(&vault.address, &mint())
            .expect("an address"),
    }
}

fn funded_vault(balance: u64) -> TokenLedger {
    let ctx = accounts_for(filled(1));
    let mut tokens = TokenLedger::new();
    assert_eq!(
        tokens.ensure_account(&ctx.vault_token_account, &ctx.mint, &ctx.vault_authority),
        Ok(true)
    );
    assert_eq!(tokens.mint_to(&ctx.vault_token_account, balance), Ok(()));
    tokens
}

#[test]
fn reward_moves_amount_from_vault_to_user() {
    let ctx = accounts_for(filled(1));
    let mut tokens = funded_vault(1000);
    assert_eq!(reward_user(&program_id(), &mut tokens, &ctx, 250), Ok(()));
    assert_eq!(tokens.balance(&ctx.vault_token_account), 750);
    assert_eq!(tokens.balance(&ctx.user_token_account), 250);
    assert_eq!(tokens.total_supply(&mint()), 1000);
}

#[test]
fn reward_beyond_the_vault_balance_is_refused() {
    let ctx = accounts_for(filled(1));
    let mut tokens = funded_vault(100);
    assert_eq!(
        reward_user(&program_id(), &mut tokens, &ctx, 500),
        Err(ErrorCode::InsufficientFunds)
    );
    assert_eq!(tokens.balance(&ctx.vault_token_account), 100);
    assert_eq!(tokens.len(), 1);
    assert_eq!(tokens.account(&ctx.user_token_account), None);
}

#[test]
fn reward_of_the_whole_balance_empties_the_vault() {
    let ctx = accounts_for(filled(1));
    let mut tokens = funded_vault(100);
    assert_eq!(reward_user(&program_id(), &mut tokens, &ctx, 100), Ok(()));
    assert_eq!(tokens.balance(&ctx.vault_token_account), 0);
    assert_eq!(tokens.balance(&ctx.user_token_account), 100);
    assert_eq!(
        reward_user(&program_id(), &mut tokens, &ctx, 1),
        Err(ErrorCode::InsufficientFunds)
    );
    assert_eq!(tokens.balance(&ctx.user_token_account), 100);
}

#[test]
fn reward_of_one_more_than_the_balance_is_refused() {
    let ctx = accounts_for(filled(1));
    let mut tokens = funded_vault(100);
    assert_eq!(
        reward_user(&program_id(), &mut tokens, &ctx, 101),
        Err(ErrorCode::InsufficientFunds)
    );
    assert_eq!(tokens.balance(&ctx.vault_token_account), 100);
}

#[test]
fn reward_of_zero_is_refused_and_changes_nothing() {
    let ctx = accounts_for(filled(1));
    let mut tokens = funded_vault(1000);
    assert_eq!(reward_user(&program_id(), &mut tokens, &ctx, 0), Err(ErrorCode::InvalidAmount));
    assert_eq!(tokens.balance(&ctx.vault_token_account), 1000);
    assert_eq!(tokens.balance(&ctx.user_token_account), 0);
    assert_eq!(tokens.len(), 1);
}

#[test]
fn reward_of_zero_from_an_empty_vault_is_an_invalid_amount() {
    let ctx = accounts_for(filled(1));
    let mut tokens = funded_vault(0);
    assert_eq!(reward_user(&program_id(), &mut tokens, &ctx, 0), Err(ErrorCode::InvalidAmount));
}

#[test]
fn wrong_vault_authority_is_a_derivation_mismatch() {
    let mut ctx = accounts_for(filled(1));
    ctx.vault_authority = filled(200);
    let mut tokens = funded_vault(1000);
    assert_eq!(
        reward_user(&program_id(), &mut tokens, &ctx, 250),
        Err(ErrorCode::DerivationMismatch)
    );
    assert_eq!(tokens.balance(&ctx.vault_token_account), 1000);
    assert_eq!(tokens.len(), 1);
}

#[test]
fn wrong_vault_authority_comes_before_every_other_fault() {
    let mut tokens = funded_vault(1000);
    let mut ctx = accounts_for(filled(1));
    ctx.vault_authority = filled(200);
    assert_eq!(
        reward_user(&program_id(), &mut tokens, &ctx, 0),
        Err(ErrorCode::DerivationMismatch)
    );
    assert_eq!(
        reward_user(&program_id(), &mut tokens, &ctx, 5000),
        Err(ErrorCode::DerivationMismatch)
    );
    ctx.vault_token_account = filled(3);
    ctx.user_token_account = filled(4);
    assert_eq!(
        reward_user(&program_id(), &mut tokens, &ctx, 250),
        Err(ErrorCode::DerivationMismatch)
    );
    let mut empty = TokenLedger::new();
    assert_eq!(
        reward_user(&program_id(), &mut empty, &ctx, 250),
        Err(ErrorCode::DerivationMismatch)
    );
    assert_eq!(tokens.total_supply(&mint()), 1000);
}

#[test]
fn vault_authority_of_another_program_is_a_derivation_mismatch() {
    let ctx = accounts_for(filled(1));
    let mut tokens = funded_vault(1000);
    assert_eq!(
        reward_user(&filled(9), &mut tokens, &ctx, 250),
        Err(ErrorCode::DerivationMismatch)
    );
    assert_eq!(tokens.balance(&ctx.vault_token_account), 1000);
}

#[test]
fn first_reward_creates_the_user_account() {
    let user = filled(1);
    let ctx = accounts_for(user);
    let mut tokens = funded_vault(1000);
    assert_eq!(tokens.len(), 1);
    assert_eq!(tokens.account(&ctx.user_token_account), None);
    assert_eq!(reward_user(&program_id(), &mut tokens, &ctx, 10), Ok(()));
    assert_eq!(tokens.len(), 2);
    assert_eq!(
        tokens.account(&ctx.user_token_account),
        Some(TokenAccount {
            address: ctx.user_token_account,
            mint: mint(),
            owner: user,
            amount: 10,
        })
    );
}

#[test]
fn second_reward_reuses_the_user_account() {
    let user = filled(1);
    let ctx = accounts_for(user);
    let mut tokens = funded_vault(1000);
    assert_eq!(reward_user(&program_id(), &mut tokens, &ctx, 10), Ok(()));
    assert_eq!(reward_user(&program_id(), &mut tokens, &ctx, 15), Ok(()));
    assert_eq!(tokens.len(), 2);
    assert_eq!(
        tokens.account(&ctx.user_token_account),
        Some(TokenAccount {
            address: ctx.user_token_account,
            mint: mint(),
            owner: user,
            amount: 25,
        })
    );
    assert_eq!(tokens.balance(&ctx.vault_token_account), 975);
}

#[test]
fn rewards_to_two_users_do_not_interfere() {
    let one = accounts_for(filled(1));
    let two = accounts_for(filled(2));
    let mut tokens = funded_vault(1000);
    assert_eq!(reward_user(&program_id(), &mut tokens, &one, 100), Ok(()));
    assert_eq!(reward_user(&program_id(), &mut tokens, &two, 200), Ok(()));
    assert_eq!(tokens.len(), 3);
    assert_eq!(tokens.balance(&one.user_token_account), 100);
    assert_eq!(tokens.balance(&two.user_token_account), 200);
    assert_eq!(tokens.balance(&one.vault_token_account), 700);
    assert_eq!(tokens.total_supply(&mint()), 1000);
}

#[test]
fn missing_vault_account_is_an_account_mismatch() {
    let ctx = accounts_for(filled(1));
    let mut tokens = TokenLedger::new();
    assert_eq!(
        reward_user(&program_id(), &mut tokens, &ctx, 250),
        Err(ErrorCode::AccountMismatch)
    );
    assert_eq!(tokens.len(), 0);
}

#[test]
fn vault_account_at_another_address_is_an_account_mismatch() {
    let mut ctx = accounts_for(filled(1));
    let mut tokens = funded_vault(1000);
    let stray = filled(50);
    assert_eq!(tokens.ensure_account(&stray, &ctx.mint, &ctx.vault_authority), Ok(true));
    assert_eq!(tokens.mint_to(&stray, 500), Ok(()));
    ctx.vault_token_account = stray;
    assert_eq!(
        reward_user(&program_id(), &mut tokens, &ctx, 250),
        Err(ErrorCode::AccountMismatch)
    );
    assert_eq!(tokens.balance(&stray), 500);
    assert_eq!(tokens.len(), 2);
}

#[test]
fn vault_account_of_another_owner_is_an_account_mismatch() {
    let ctx = accounts_for(filled(1));
    let mut tokens = TokenLedger::new();
    assert_eq!(tokens.ensure_account(&ctx.vault_token_account, &ctx.mint, &filled(66)), Ok(true));
    assert_eq!(tokens.mint_to(&ctx.vault_token_account, 1000), Ok(()));
    assert_eq!(
        reward_user(&program_id(), &mut tokens, &ctx, 250),
        Err(ErrorCode::AccountMismatch)
    );
    assert_eq!(tokens.balance(&ctx.vault_token_account), 1000);
}

#[test]
fn vault_account_of_another_mint_is_an_account_mismatch() {
    let ctx = accounts_for(filled(1));
    let mut tokens = TokenLedger::new();
    assert_eq!(
        tokens.ensure_account(&ctx.vault_token_account, &filled(78), &ctx.vault_authority),
        Ok(true)
    );
    assert_eq!(tokens.mint_to(&ctx.vault_token_account, 1000), Ok(()));
    assert_eq!(
        reward_user(&program_id(), &mut tokens, &ctx, 250),
        Err(ErrorCode::AccountMismatch)
    );
    assert_eq!(tokens.balance(&ctx.vault_token_account), 1000);
}

#[test]
fn another_mint_than_the_vaults_is_an_account_mismatch() {
    let mut ctx = accounts_for(filled(1));
    let mut tokens = funded_vault(1000);
    ctx.mint = filled(78);
    assert_eq!(
        reward_user(&program_id(), &mut tokens, &ctx, 250),
        Err(ErrorCode::AccountMismatch)
    );
    assert_eq!(tokens.len(), 1);
}

#[test]
fn user_account_at_another_address_is_an_account_mismatch() {
    let mut ctx = accounts_for(filled(1));
    let mut tokens = funded_vault(1000);
    ctx.user_token_account = filled(51);
    assert_eq!(
        reward_user(&program_id(), &mut tokens, &ctx, 250),
        Err(ErrorCode::AccountMismatch)
    );
    assert_eq!(tokens.len(), 1);
    assert_eq!(tokens.balance(&ctx.vault_token_account), 1000);
}

#[test]
fn user_account_of_another_user_is_an_account_mismatch() {
    let mut ctx = accounts_for(filled(1));
    let other = accounts_for(filled(2));
    let mut tokens = funded_vault(1000);
    assert_eq!(reward_user(&program_id(), &mut tokens, &other, 10), Ok(()));
    ctx.user_token_account = other.user_token_account;
    assert_eq!(
        reward_user(&program_id(), &mut tokens, &ctx, 250),
        Err(ErrorCode::AccountMismatch)
    );
    assert_eq!(tokens.balance(&other.user_token_account), 10);
}

#[test]
fn user_account_bound_otherwise_is_an_account_mismatch() {
    let ctx = accounts_for(filled(1));
    let mut tokens = funded_vault(1000);
    assert_eq!(tokens.ensure_account(&ctx.user_token_account, &ctx.mint, &filled(2)), Ok(true));
    assert_eq!(
        reward_user(&program_id(), &mut tokens, &ctx, 250),
        Err(ErrorCode::AccountMismatch)
    );
    assert_eq!(tokens.balance(&ctx.user_token_account), 0);
    assert_eq!(tokens.balance(&ctx.vault_token_account), 1000);
}

#[test]
fn invalid_amount_comes_before_account_mismatch() {
    let mut ctx = accounts_for(filled(1));
    let mut tokens = funded_vault(1000);
    ctx.user_token_account = filled(51);
    assert_eq!(reward_user(&program_id(), &mut tokens, &ctx, 0), Err(ErrorCode::InvalidAmount));
    ctx.vault_token_account = filled(52);
    assert_eq!(reward_user(&program_id(), &mut tokens, &ctx, 0), Err(ErrorCode::InvalidAmount));
    let mut empty = TokenLedger::new();
    assert_eq!(reward_user(&program_id(), &mut empty, &ctx, 0), Err(ErrorCode::InvalidAmount));
    assert_eq!(reward_user(&program_id(), &mut empty, &ctx, 1), Err(ErrorCode::AccountMismatch));
}

#[test]
fn reward_to_the_vault_authority_itself_moves_nothing() {
    let mut ctx = accounts_for(filled(1));
    ctx.user = Signer { key: ctx.vault_authority };
    ctx.user_token_account = ctx.vault_token_account;
    let mut tokens = funded_vault(1000);
    assert_eq!(reward_user(&program_id(), &mut tokens, &ctx, 250), Ok(()));
    assert_eq!(tokens.balance(&ctx.vault_token_account), 1000);
    assert_eq!(tokens.len(), 1);
    assert_eq!(
        reward_user(&program_id(), &mut tokens, &ctx, 1001),
        Err(ErrorCode::InsufficientFunds)
    );
}

#[test]
fn reward_of_the_largest_amount_from_a_full_vault() {
    let ctx = accounts_for(filled(1));
    let mut tokens = funded_vault(u64::MAX);
    assert_eq!(reward_user(&program_id(), &mut tokens, &ctx, u64::MAX), Ok(()));
    assert_eq!(tokens.balance(&ctx.vault_token_account), 0);
    assert_eq!(tokens.balance(&ctx.user_token_account), u64::MAX);
    assert_eq!(tokens.total_supply(&mint()), u64::MAX);
}
