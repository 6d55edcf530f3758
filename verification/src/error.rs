//! The error taxonomy of the token program.
//!
//! Every validation failure surfaces as exactly one of these conditions;
//! nothing is coerced to a generic failure, and a failed instruction never
//! leaves a partial effect behind.

use vstd::prelude::*;

verus! {

/// Errors that may be returned by the Cobotium token program.
///
/// Each variant carries a distinct, stable numeric code (see
/// [`CobotiumError::code`]) so an external runtime can surface it unchanged.
#[derive(Clone, Copy, Debug, PartialEq, Eq, Structural)]
pub enum CobotiumError {
    /// Malformed or unknown instruction bytes, or too few accounts supplied.
    InvalidInstruction,
    /// A buffer to initialize lacks the rent-exemption attestation.
    NotRentExempt,
    /// A buffer is not owned by this program, or a record's owner does not
    /// match the presented identity.
    IncorrectOwner,
    /// A record that must already be initialized is not.
    UninitializedAccount,
    /// A buffer that must be fresh already holds an initialized record.
    AlreadyInitialized,
    /// A debit exceeds the account's balance.
    InsufficientFunds,
    /// The presented identity is not the authority the mint requires.
    InvalidMintAuthority,
    /// A token account does not belong to the expected mint.
    InvalidTokenAccount,
    /// The account is frozen, which gates deposits, transfers and burns.
    AccountFrozen,
    /// A checked addition or subtraction on an amount or supply would wrap.
    Overflow,
    /// An identity that must sign the instruction did not.
    MissingRequiredSignature,
    /// A scalar argument is out of policy (decimals above the cap, or a
    /// zero-amount mint).
    InvalidArgument,
    /// A record buffer is too short or holds bytes no record encodes to.
    InvalidAccountData,
}

impl CobotiumError {
    /// The stable numeric code of each error condition.
    pub open spec fn spec_code(self) -> u32 {
        match self {
            CobotiumError::InvalidInstruction => 0,
            CobotiumError::NotRentExempt => 1,
            CobotiumError::IncorrectOwner => 2,
            CobotiumError::UninitializedAccount => 3,
            CobotiumError::AlreadyInitialized => 4,
            CobotiumError::InsufficientFunds => 5,
            CobotiumError::InvalidMintAuthority => 6,
            CobotiumError::InvalidTokenAccount => 7,
            CobotiumError::AccountFrozen => 8,
            CobotiumError::Overflow => 9,
            CobotiumError::MissingRequiredSignature => 10,
            CobotiumError::InvalidArgument => 11,
            CobotiumError::InvalidAccountData => 12,
        }
    }

    /// The human-readable description of each error condition.
    pub open spec fn spec_message(self) -> Seq<char> {
        match self {
            CobotiumError::InvalidInstruction => "Invalid instruction"@,
            CobotiumError::NotRentExempt => "Not rent exempt"@,
            CobotiumError::IncorrectOwner => "Expected a different account owner"@,
            CobotiumError::UninitializedAccount => "Account not initialized"@,
            CobotiumError::AlreadyInitialized => "Account already initialized"@,
            CobotiumError::InsufficientFunds => "Insufficient funds"@,
            CobotiumError::InvalidMintAuthority => "Invalid mint authority"@,
            CobotiumError::InvalidTokenAccount => "Invalid token account"@,
            CobotiumError::AccountFrozen => "Account is frozen"@,
            CobotiumError::Overflow => "Operation overflowed"@,
            CobotiumError::MissingRequiredSignature => "Missing required signature"@,
            CobotiumError::InvalidArgument => "Invalid argument"@,
            CobotiumError::InvalidAccountData => "Invalid account data"@,
        }
    }

    /// Return the human-readable description of this error.
    pub fn message(&self) -> (r: &'static str)
        ensures
            r@ == self.spec_message(),
    {
        match self {
            CobotiumError::InvalidInstruction => "Invalid instruction",
            CobotiumError::NotRentExempt => "Not rent exempt",
            CobotiumError::IncorrectOwner => "Expected a different account owner",
            CobotiumError::UninitializedAccount => "Account not initialized",
            CobotiumError::AlreadyInitialized => "Account already initialized",
            CobotiumError::InsufficientFunds => "Insufficient funds",
            CobotiumError::InvalidMintAuthority => "Invalid mint authority",
            CobotiumError::InvalidTokenAccount => "Invalid token account",
            CobotiumError::AccountFrozen => "Account is frozen",
            CobotiumError::Overflow => "Operation overflowed",
            CobotiumError::MissingRequiredSignature => "Missing required signature",
            CobotiumError::InvalidArgument => "Invalid argument",
            CobotiumError::InvalidAccountData => "Invalid account data",
        }
    }

    /// Return the stable numeric code of this error.
    pub fn code(&self) -> (r: u32)
        ensures
            r == self.spec_code(),
    {
        match self {
            CobotiumError::InvalidInstruction => 0,
            CobotiumError::NotRentExempt => 1,
            CobotiumError::IncorrectOwner => 2,
            CobotiumError::UninitializedAccount => 3,
            CobotiumError::AlreadyInitialized => 4,
            CobotiumError::InsufficientFunds => 5,
            CobotiumError::InvalidMintAuthority => 6,
            CobotiumError::InvalidTokenAccount => 7,
            CobotiumError::AccountFrozen => 8,
            CobotiumError::Overflow => 9,
            CobotiumError::MissingRequiredSignature => 10,
            CobotiumError::InvalidArgument => 11,
            CobotiumError::InvalidAccountData => 12,
        }
    }
}

} // verus!
