//! Core of the Cobotium token program: two persisted record kinds (a mint
//! describing one fungible asset class and a token account holding one
//! owner's balance of one mint), a fixed-width binary codec for both, an
//! instruction decoder, and a processor that validates and applies the six
//! instruction kinds against a list of account handles supplied by an
//! external runtime.
//!
//! The runtime is trusted to authenticate signers, to fund buffers (the
//! rent-exemption attestation), and to persist the mutated buffers; this
//! crate is the part worth proving: every handler either applies its full
//! effect or returns a typed error and leaves every buffer unchanged.

pub mod account;
pub mod error;
pub mod instruction;
pub mod laws;
pub mod processor;
pub mod pubkey;
pub mod state;

use vstd::prelude::*;

use crate::account::{handle_views, AccountHandle};
use crate::error::CobotiumError;
use crate::processor::{spec_process_instruction, Processor};
use crate::pubkey::Pubkey;

verus! {

/// Entry point of the program: decode `input` and apply the resulting
/// instruction to `accounts`, exactly as
/// [`Processor::process_instruction`] does.
pub fn process_instruction(
    program_id: &Pubkey,
    accounts: &mut Vec<AccountHandle>,
    input: &[u8],
) -> (r: Result<(), CobotiumError>)
    ensures
        match spec_process_instruction(handle_views(old(accounts)@), input@, program_id@) {
            Ok(s) => r is Ok && handle_views(final(accounts)@) == s,
            Err(e) => r == Err::<(), CobotiumError>(e) && final(accounts)@ == old(accounts)@,
        },
{
    Processor::process_instruction(program_id, accounts, input)
}

} // verus!
