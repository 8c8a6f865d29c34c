//! Derived addresses: addresses computed from a program's identity and seed
//! bytes, which no private key can sign for. A program authorizes an action in
//! the name of such an address by presenting the seeds that derive it.

use crate::address::Address;
use anchor_lang::prelude::Pubkey;
use vstd::prelude::*;
use vstd::slice::slice_to_vec;

verus! {

/// The tag from which the vault authority is derived.
pub const VAULT_TAG: [u8; 5] = [118, 97, 117, 108, 116];

/// The tag from which, with the owner's identity, a profile's address is derived.
pub const PROFILE_TAG: [u8; 12] = [117, 115, 101, 114, 95, 112, 114, 111, 102, 105, 108, 101];

/// The identity of the token program.
pub const TOKEN_PROGRAM_ID: [u8; 32] = [
    6, 221, 246, 225, 215, 101, 161, 147, 217, 203, 225, 70, 206, 235, 121, 172,
    28, 180, 133, 237, 95, 91, 55, 145, 58, 140, 245, 133, 126, 255, 0, 169,
];

/// The identity of the associated-token-account program.
pub const ASSOCIATED_TOKEN_PROGRAM_ID: [u8; 32] = [
    140, 151, 37, 143, 78, 36, 137, 241, 187, 61, 16, 41, 20, 142, 13, 131,
    11, 90, 19, 153, 218, 255, 16, 132, 4, 142, 123, 216, 219, 233, 248, 89,
];

/// The address that `Pubkey::create_program_address` derives from `seeds`
/// under the program `program_id`, or `None` where it reports an error.
pub uninterp spec fn spec_create_program_address(
    seeds: Seq<Seq<u8>>,
    program_id: Seq<u8>,
) -> Option<Seq<u8>>;

/// The address and bump seed that `Pubkey::try_find_program_address` finds
/// for `seeds` under the program `program_id`, or `None` where it finds none.
pub uninterp spec fn spec_find_program_address(
    seeds: Seq<Seq<u8>>,
    program_id: Seq<u8>,
) -> Option<(Seq<u8>, u8)>;

/// The byte strings that a list of seeds holds.
pub open spec fn seed_bytes(seeds: Seq<Vec<u8>>) -> Seq<Seq<u8>> {
    Seq::new(seeds.len(), |i: int| seeds[i]@)
}

/// An optional address, by its bytes.
pub open spec fn address_bytes(r: Option<Address>) -> Option<Seq<u8>> {
    match r {
        Some(a) => Some(a@),
        None => None,
    }
}

/// An optional address with its bump seed, the address by its bytes.
pub open spec fn derivation_bytes(r: Option<(Address, u8)>) -> Option<(Seq<u8>, u8)> {
    match r {
        Some((a, bump)) => Some((a@, bump)),
        None => None,
    }
}

/// Calls `Pubkey::create_program_address`. The contract names what that
/// function returns: an address that depends on the seeds and the program
/// alone, or nothing where it reports an error (seeds too many or too long,
/// or a hash that lies on the curve).
#[verifier::external_body]
pub(crate) fn create_program_address(seeds: &Vec<Vec<u8>>, program_id: &Address) -> (r: Option<
    Address,
>)
    ensures
        address_bytes(r) == spec_create_program_address(seed_bytes(seeds@), program_id@),
{
    let parts: Vec<&[u8]> = seeds.iter().map(Vec::as_slice).collect();
    match Pubkey::create_program_address(&parts, &Pubkey::new_from_array(program_id.bytes)) {
        Ok(key) => Some(Address { bytes: key.to_bytes() }),
        Err(_) => None,
    }
}

/// Calls `Pubkey::try_find_program_address`. The contract names what that
/// function returns, and states of it what its search loop shows: the address
/// that it hands out is the one that `Pubkey::create_program_address` derives
/// from the same seeds followed by the one-byte bump seed.
#[verifier::external_body]
pub(crate) fn find_program_address(seeds: &Vec<Vec<u8>>, program_id: &Address) -> (r: Option<
    (Address, u8),
>)
    ensures
        derivation_bytes(r) == spec_find_program_address(seed_bytes(seeds@), program_id@),
        r matches Some((a, bump)) ==> spec_create_program_address(
            seed_bytes(seeds@).push(seq![bump]),
            program_id@,
        ) == Some(a@),
{
    let parts: Vec<&[u8]> = seeds.iter().map(Vec::as_slice).collect();
    match Pubkey::try_find_program_address(&parts, &Pubkey::new_from_array(program_id.bytes)) {
        Some((key, bump)) => Some((Address { bytes: key.to_bytes() }, bump)),
        None => None,
    }
}

/// The seeds of the vault authority, without the bump seed.
pub open spec fn vault_seeds() -> Seq<Seq<u8>> {
    seq![VAULT_TAG@]
}

/// The seeds of the profile that belongs to `authority`.
pub open spec fn profile_seeds(authority: Address) -> Seq<Seq<u8>> {
    seq![PROFILE_TAG@, authority@]
}

/// The seeds of the token account associated with `wallet` for `mint`.
pub open spec fn associated_token_seeds(wallet: Address, mint: Address) -> Seq<Seq<u8>> {
    seq![wallet@, TOKEN_PROGRAM_ID@, mint@]
}

/// Whether presenting `seeds` lets the program `program_id` act in the name
/// of `authority`: the seeds must derive that very address.
pub open spec fn authorizes(seeds: Seq<Seq<u8>>, program_id: Address, authority: Address) -> bool {
    spec_create_program_address(seeds, program_id@) == Some(authority@)
}

/// The address and bump seed of the vault authority of `program_id`, if the
/// derivation finds one.
pub open spec fn vault_authority_of(program_id: Address) -> Option<(Seq<u8>, u8)> {
    spec_find_program_address(vault_seeds(), program_id@)
}

/// The address of the profile of `authority` under `program_id`, if the
/// derivation finds one.
pub open spec fn profile_address_of(authority: Address, program_id: Address) -> Option<Seq<u8>> {
    match spec_find_program_address(profile_seeds(authority), program_id@) {
        Some((a, _)) => Some(a),
        None => None,
    }
}

/// The address of the token account associated with `wallet` for `mint`, if
/// the derivation finds one.
pub open spec fn associated_token_address_of(wallet: Address, mint: Address) -> Option<Seq<u8>> {
    match spec_find_program_address(
        associated_token_seeds(wallet, mint),
        ASSOCIATED_TOKEN_PROGRAM_ID@,
    ) {
        Some((a, _)) => Some(a),
        None => None,
    }
}

/// Seeds presented in place of a signature.
pub struct SignerSeeds {
    pub parts: Vec<Vec<u8>>,
}

impl View for SignerSeeds {
    type V = Seq<Seq<u8>>;

    open spec fn view(&self) -> Seq<Seq<u8>> {
        seed_bytes(self.parts@)
    }
}

/// Checks seeds presented in place of a signature: they are accepted exactly
/// when they derive `authority` under the presenting program.
pub fn verify_signer(seeds: &SignerSeeds, program_id: &Address, authority: &Address) -> (ok: bool)
    ensures
        ok == authorizes(seeds@, *program_id, *authority),
{
    match create_program_address(&seeds.parts, program_id) {
        Some(derived) => {
            proof {
                crate::address::lemma_address_by_bytes(derived, *authority);
            }
            derived == *authority
        },
        None => false,
    }
}

/// The vault authority: an address derived from the fixed tag `"vault"`,
/// together with the bump seed that the derivation found.
#[derive(Clone, Copy, Debug, PartialEq, Eq)]
pub struct VaultAuthority {
    pub address: Address,
    pub bump: u8,
}

impl VaultAuthority {
    /// Whether this is the vault authority of `program_id`: the derivation
    /// yields this address and bump, and the seeds with the bump authorize it.
    pub open spec fn derived_from(&self, program_id: Address) -> bool {
        &&& vault_authority_of(program_id) == Some((self.address@, self.bump))
        &&& authorizes(vault_seeds().push(seq![self.bump]), program_id, self.address)
    }

    /// Derives the vault authority of `program_id`.
    pub fn derive(program_id: &Address) -> (r: Option<VaultAuthority>)
        ensures
            r matches Some(v) ==> v.derived_from(*program_id),
            r is None <==> vault_authority_of(*program_id) is None,
    {
        let mut seeds: Vec<Vec<u8>> = Vec::new();
        seeds.push(slice_to_vec(VAULT_TAG.as_slice()));
        assert(seed_bytes(seeds@) =~= vault_seeds());
        match find_program_address(&seeds, program_id) {
            Some((address, bump)) => Some(VaultAuthority { address, bump }),
            None => None,
        }
    }

    /// The seeds that stand in for the vault authority's signature.
    pub fn signer_seeds(&self) -> (s: SignerSeeds)
        ensures
            s@ == vault_seeds().push(seq![self.bump]),
    {
        let mut parts: Vec<Vec<u8>> = Vec::new();
        parts.push(slice_to_vec(VAULT_TAG.as_slice()));
        let mut last: Vec<u8> = Vec::new();
        last.push(self.bump);
        parts.push(last);
        assert(seed_bytes(parts@) =~= vault_seeds().push(seq![self.bump]));
        SignerSeeds { parts }
    }
}

/// Derives the address at which the profile of `authority` is kept.
pub fn derive_profile_address(authority: &Address, program_id: &Address) -> (r: Option<Address>)
    ensures
        address_bytes(r) == profile_address_of(*authority, *program_id),
{
    let mut seeds: Vec<Vec<u8>> = Vec::new();
    seeds.push(slice_to_vec(PROFILE_TAG.as_slice()));
    seeds.push(authority.to_vec());
    assert(seed_bytes(seeds@) =~= profile_seeds(*authority));
    match find_program_address(&seeds, program_id) {
        Some((address, _)) => Some(address),
        None => None,
    }
}

/// Derives the address of the token account associated with `wallet` for
/// `mint`.
pub fn associated_token_address(wallet: &Address, mint: &Address) -> (r: Option<Address>)
    ensures
        address_bytes(r) == associated_token_address_of(*wallet, *mint),
{
    let token_program = Address::new(TOKEN_PROGRAM_ID);
    let program = Address::new(ASSOCIATED_TOKEN_PROGRAM_ID);
    let mut seeds: Vec<Vec<u8>> = Vec::new();
    seeds.push(wallet.to_vec());
    seeds.push(token_program.to_vec());
    seeds.push(mint.to_vec());
    assert(seed_bytes(seeds@) =~= associated_token_seeds(*wallet, *mint));
    match find_program_address(&seeds, &program) {
        Some((address, _)) => Some(address),
        None => None,
    }
}

/// Whether `address` is the address of the token account associated with
/// `wallet` for `mint`.
pub fn is_associated(address: &Address, wallet: &Address, mint: &Address) -> (ok: bool)
    ensures
        ok == (associated_token_address_of(*wallet, *mint) == Some(address@)),
{
    match associated_token_address(wallet, mint) {
        Some(derived) => {
            proof {
                crate::address::lemma_address_by_bytes(derived, *address);
            }
            derived == *address
        },
        None => false,
    }
}

} // verus!
