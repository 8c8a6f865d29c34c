use anchor_lang::prelude::Pubkey;
use healthkey_protocol::address::Address;
use healthkey_protocol::derive::{
    associated_token_address, derive_profile_address, verify_signer, SignerSeeds, VaultAuthority,
    ASSOCIATED_TOKEN_PROGRAM_ID, PROFILE_TAG, TOKEN_PROGRAM_ID, VAULT_TAG,
};

fn program_id() -> Address {
    Address::new([
        23, 105, 16, 46, 142, 95, 9, 154, 247, 85, 130, 30, 130, 237, 31, 118, 55, 20, 226, 56,
        239, 241, 153, 26, 122, 184, 153, 128, 151, 127, 0, 235,
    ])
}

fn filled(byte: u8) -> Address {
    Address::new([byte; 32])
}

#[test]
fn tags_spell_their_names() {
    assert_eq!(&VAULT_TAG[..], b"vault");
    assert_eq!(&PROFILE_TAG[..], b"user_profile");
}

#[test]
fn program_ids_are_those_of_the_token_programs() {
    assert_eq!(TOKEN_PROGRAM_ID, anchor_spl::token::ID.to_bytes());
    assert_eq!(ASSOCIATED_TOKEN_PROGRAM_ID, anchor_spl::associated_token::ID.to_bytes());
}

#[test]
fn vault_authority_is_the_program_derived_address() {
    let id = program_id();
    let vault = VaultAuthority::derive(&id).expect("a vault authority");
    let (key, bump) =
        Pubkey::find_program_address(&[b"vault"], &Pubkey::new_from_array(id.bytes));
    assert_eq!(vault.address.bytes, key.to_bytes());
    assert_eq!(vault.bump, bump);
    assert_ne!(vault.address, id);
}

#[test]
fn vault_authority_is_derived_the_same_every_time() {
    let id = program_id();
    let first = VaultAuthority::derive(&id).expect("a vault authority");
    let second = VaultAuthority::derive(&id).expect("a vault authority");
    assert_eq!(first, second);
    let elsewhere = VaultAuthority::derive(&filled(9)).expect("a vault authority");
    assert_ne!(first.address, elsewhere.address);
}

#[test]
fn vault_authority_is_off_the_curve() {
    let vault = VaultAuthority::derive(&program_id()).expect("a vault authority");
    assert!(!Pubkey::new_from_array(vault.address.bytes).is_on_curve());
}

#[test]
fn signer_seeds_are_the_tag_and_the_bump() {
    let vault = VaultAuthority::derive(&program_id()).expect("a vault authority");
    let seeds = vault.signer_seeds();
    assert_eq!(seeds.parts, vec![b"vault".to_vec(), vec![vault.bump]]);
}

#[test]
fn derived_seeds_authorize_the_vault_authority() {
    let id = program_id();
    let vault = VaultAuthority::derive(&id).expect("a vault authority");
    assert!(verify_signer(&vault.signer_seeds(), &id, &vault.address));
}

#[test]
fn seeds_authorize_no_other_address() {
    let id = program_id();
    let vault = VaultAuthority::derive(&id).expect("a vault authority");
    assert!(!verify_signer(&vault.signer_seeds(), &id, &filled(1)));
    assert!(!verify_signer(&vault.signer_seeds(), &id, &id));
}

#[test]
fn seeds_do_not_authorize_under_another_program() {
    let id = program_id();
    let vault = VaultAuthority::derive(&id).expect("a vault authority");
    assert!(!verify_signer(&vault.signer_seeds(), &filled(9), &vault.address));
}

#[test]
fn seeds_with_another_bump_do_not_authorize() {
    let id = program_id();
    let vault = VaultAuthority::derive(&id).expect("a vault authority");
    let other = VaultAuthority { address: vault.address, bump: vault.bump.wrapping_sub(1) };
    assert!(!verify_signer(&other.signer_seeds(), &id, &vault.address));
}

#[test]
fn seeds_with_another_tag_do_not_authorize() {
    let id = program_id();
    let vault = VaultAuthority::derive(&id).expect("a vault authority");
    let seeds = SignerSeeds { parts: vec![b"vaulz".to_vec(), vec![vault.bump]] };
    assert!(!verify_signer(&seeds, &id, &vault.address));
}

#[test]
fn seeds_that_are_too_long_authorize_nothing() {
    let id = program_id();
    let vault = VaultAuthority::derive(&id).expect("a vault authority");
    let seeds = SignerSeeds { parts: vec![vec![7u8; 33]] };
    assert!(!verify_signer(&seeds, &id, &vault.address));
    let many = SignerSeeds { parts: vec![vec![1u8]; 17] };
    assert!(!verify_signer(&many, &id, &vault.address));
}

#[test]
fn profile_address_is_the_program_derived_address() {
    let id = program_id();
    let user = filled(42);
    let address = derive_profile_address(&user, &id).expect("an address");
    let (key, _) = Pubkey::find_program_address(
        &[b"user_profile", &user.bytes],
        &Pubkey::new_from_array(id.bytes),
    );
    assert_eq!(address.bytes, key.to_bytes());
    assert_ne!(address, user);
}

#[test]
fn profile_addresses_differ_by_user() {
    let id = program_id();
    let one = derive_profile_address(&filled(1), &id).expect("an address");
    let two = derive_profile_address(&filled(2), &id).expect("an address");
    assert_ne!(one, two);
    assert_eq!(one, derive_profile_address(&filled(1), &id).expect("an address"));
}

#[test]
fn associated_address_is_that_of_the_token_program() {
    let wallet = filled(5);
    let mint = filled(6);
    let address = associated_token_address(&wallet, &mint).expect("an address");
    let key = anchor_spl::associated_token::get_associated_token_address(
        &Pubkey::new_from_array(wallet.bytes),
        &Pubkey::new_from_array(mint.bytes),
    );
    assert_eq!(address.bytes, key.to_bytes());
}

#[test]
fn associated_address_depends_on_wallet_and_mint() {
    let a = associated_token_address(&filled(5), &filled(6)).expect("an address");
    let b = associated_token_address(&filled(6), &filled(5)).expect("an address");
    let c = associated_token_address(&filled(5), &filled(7)).expect("an address");
    assert_ne!(a, b);
    assert_ne!(a, c);
}

#[test]
fn address_equality_is_by_bytes() {
    let mut bytes = [3u8; 32];
    let a = Address::new(bytes);
    assert_eq!(a, filled(3));
    bytes[31] = 4;
    assert_ne!(Address::new(bytes), a);
    bytes[31] = 3;
    bytes[0] = 4;
    assert_ne!(Address::new(bytes), a);
}

#[test]
fn address_to_vec_keeps_the_bytes_in_order() {
    let mut bytes = [0u8; 32];
    for (i, b) in bytes.iter_mut().enumerate() {
        *b = i as u8;
    }
    let v = Address::new(bytes).to_vec();
    assert_eq!(v.len(), 32);
    assert_eq!(v, bytes.to_vec());
}
