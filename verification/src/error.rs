//! The conditions under which an operation is refused.

use vstd::prelude::*;

verus! {

/// Why an operation was refused. A refused operation changes nothing.
#[derive(Clone, Copy, Debug, PartialEq, Eq, Structural)]
pub enum ErrorCode {
    /// The amount of a reward was zero.
    InvalidAmount,
    /// An account is missing or is not bound to the expected mint and owner.
    AccountMismatch,
    /// The paying account holds less than the amount asked for.
    InsufficientFunds,
    /// A presented address is not the one that its seeds derive.
    DerivationMismatch,
    /// The record to create exists already.
    AlreadyExists,
    /// A text field of a profile is longer than its storage allows.
    FieldTooLong,
    /// Minting would take the supply of a mint beyond what a balance can hold.
    SupplyOverflow,
}

impl ErrorCode {
    /// A short description of the condition.
    pub fn message(&self) -> (m: &'static str)
        ensures
            m@ == (match *self {
                ErrorCode::InvalidAmount => "Amount must be greater than zero"@,
                ErrorCode::AccountMismatch => "Account does not match its expected binding"@,
                ErrorCode::InsufficientFunds => "Vault balance is lower than the amount"@,
                ErrorCode::DerivationMismatch => "Address does not match its derivation"@,
                ErrorCode::AlreadyExists => "Record already exists"@,
                ErrorCode::FieldTooLong => "Text field exceeds its maximum length"@,
                ErrorCode::SupplyOverflow => "Supply would exceed the largest balance"@,
            }),
    {
        match self {
            ErrorCode::InvalidAmount => "Amount must be greater than zero",
            ErrorCode::AccountMismatch => "Account does not match its expected binding",
            ErrorCode::InsufficientFunds => "Vault balance is lower than the amount",
            ErrorCode::DerivationMismatch => "Address does not match its derivation",
            ErrorCode::AlreadyExists => "Record already exists",
            ErrorCode::FieldTooLong => "Text field exceeds its maximum length",
            ErrorCode::SupplyOverflow => "Supply would exceed the largest balance",
        }
    }
}

} // verus!
