//! A verified model of a small ledger program: it registers one profile per
//! user at an address derived from the user's identity, and pays a fungible
//! reward token out of a vault whose authority is a derived address with no
//! private key.

pub mod address;
pub mod derive;
pub mod error;
pub mod laws;
pub mod profile;
pub mod program;
pub mod token;

pub use address::Address;
pub use error::ErrorCode;
