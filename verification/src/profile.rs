//! User profiles: one record per identity, kept at an address derived from
//! that identity.

use crate::address::Address;
use crate::derive::profile_address_of;
use crate::error::ErrorCode;
use vstd::prelude::*;
use vstd::utf8::encode_utf8;

verus! {

/// The most bytes that the content pointer of a profile may take.
pub const MAX_ARWEAVE_HASH_BYTES: usize = 100;

/// The most bytes that the goal of a profile may take.
pub const MAX_GOAL_BYTES: usize = 100;

/// The profile of a user. Its text fields are bounded; a longer text is
/// refused when the profile is made, never cut short.
#[derive(Clone, Debug, PartialEq, Eq)]
pub struct UserProfile {
    /// The identity that owns the profile.
    pub authority: Address,
    /// A reference to content kept elsewhere; it is not interpreted here.
    pub arweave_hash: String,
    /// The user's goal, as free text.
    pub goal: String,
    /// The time at which the profile was created.
    pub created_at: i64,
}

/// The number of bytes that `text` takes when stored.
pub open spec fn byte_len(text: String) -> nat {
    encode_utf8(text@).len()
}

/// Whether both texts fit in the fields of a profile.
pub open spec fn fields_fit(arweave_hash: String, goal: String) -> bool {
    byte_len(arweave_hash) <= MAX_ARWEAVE_HASH_BYTES && byte_len(goal) <= MAX_GOAL_BYTES
}

/// Counts the bytes that `text` takes when stored.
pub fn stored_len(text: &String) -> (n: usize)
    ensures
        n == byte_len(*text),
{
    text.as_str().as_bytes().len()
}

impl UserProfile {
    /// Whether the text fields are within their bounds.
    pub open spec fn wf(&self) -> bool {
        fields_fit(self.arweave_hash, self.goal)
    }

    /// Makes a profile, or refuses with `FieldTooLong` where a text does not
    /// fit its field.
    pub fn new(authority: Address, arweave_hash: String, goal: String, created_at: i64) -> (r:
        Result<UserProfile, ErrorCode>)
        ensures
            match r {
                Ok(p) => fields_fit(arweave_hash, goal) && p == (UserProfile {
                    authority,
                    arweave_hash,
                    goal,
                    created_at,
                }),
                Err(e) => !fields_fit(arweave_hash, goal) && e == ErrorCode::FieldTooLong,
            },
    {
        if stored_len(&arweave_hash) > MAX_ARWEAVE_HASH_BYTES || stored_len(&goal)
            > MAX_GOAL_BYTES {
            Err(ErrorCode::FieldTooLong)
        } else {
            Ok(UserProfile { authority, arweave_hash, goal, created_at })
        }
    }
}

/// A profile together with the address at which it is kept.
#[derive(Clone, Debug, PartialEq, Eq)]
pub struct ProfileRecord {
    pub address: Address,
    pub profile: UserProfile,
}

/// Whether some record of `records` is kept at `address`.
pub open spec fn has_profile(records: Seq<ProfileRecord>, address: Address) -> bool {
    exists|i: int| 0 <= i < records.len() && (#[trigger] records[i]).address == address
}

/// The place in `records` of the record kept at `address`, where there is one.
pub open spec fn profile_index(records: Seq<ProfileRecord>, address: Address) -> int {
    choose|i: int| 0 <= i < records.len() && (#[trigger] records[i]).address == address
}

/// The profile kept at `address`, if there is one.
pub open spec fn profile_at(records: Seq<ProfileRecord>, address: Address) -> Option<UserProfile> {
    if has_profile(records, address) {
        Some(records[profile_index(records, address)].profile)
    } else {
        None
    }
}

/// No two records share an address.
pub open spec fn distinct_profiles(records: Seq<ProfileRecord>) -> bool {
    forall|i: int, j: int|
        0 <= i < j < records.len() ==> (#[trigger] records[i]).address != (
        #[trigger] records[j]).address
}

/// The records form the registry of `program_id`: no two share an address,
/// each is kept at the address derived from its owner, and each is within
/// its bounds.
pub open spec fn registry_well_formed(records: Seq<ProfileRecord>, program_id: Address) -> bool {
    &&& distinct_profiles(records)
    &&& forall|i: int|
        0 <= i < records.len() ==> {
            &&& profile_address_of((#[trigger] records[i]).profile.authority, program_id) == Some(
                records[i].address@,
            )
            &&& records[i].profile.wf()
        }
}

/// Where addresses are distinct, the record found at a place is the record
/// kept at its address.
pub proof fn lemma_profile_at_index(records: Seq<ProfileRecord>, k: int)
    requires
        distinct_profiles(records),
        0 <= k < records.len(),
    ensures
        has_profile(records, records[k].address),
        profile_index(records, records[k].address) == k,
        profile_at(records, records[k].address) == Some(records[k].profile),
{
    let address = records[k].address;
    let i = profile_index(records, address);
    assert(0 <= i < records.len() && records[i].address == address);
    if i < k {
        assert(records[i].address != records[k].address);
    } else if k < i {
        assert(records[k].address != records[i].address);
    }
}

} // verus!
