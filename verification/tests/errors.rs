//! One input for every error condition of the taxonomy, checked against
//! the exact variant the processor reports.

use cobotium_program::account::AccountHandle;
use cobotium_program::error::CobotiumError;
use cobotium_program::instruction::CobotiumInstruction;
use cobotium_program::process_instruction;
use cobotium_program::processor::Processor;
use cobotium_program::pubkey::Pubkey;
use cobotium_program::state::{Mint, TokenAccount};

fn key(b: u8) -> Pubkey {
    Pubkey::new([b; 32])
}

fn handle(k: Pubkey, owner: Pubkey, signer: bool, rent_exempt: bool, data: Vec<u8>) -> AccountHandle {
    AccountHandle::new(k, owner, signer, rent_exempt, data)
}

fn signer(k: Pubkey) -> AccountHandle {
    handle(k, k, true, false, vec![])
}

fn program() -> Pubkey {
    key(0xF0)
}

/// An initialized mint buffer with the given authority and supply.
fn mint_data(authority: Pubkey, freeze_authority: Option<Pubkey>, supply: u64) -> Vec<u8> {
    Mint {
        is_initialized: true,
        decimals: 0,
        mint_authority: authority,
        freeze_authority,
        supply,
    }
    .pack()
}

/// An initialized token account buffer.
fn account_data(mint: Pubkey, owner: Pubkey, amount: u64, frozen: bool) -> Vec<u8> {
    TokenAccount {
        is_initialized: true,
        mint,
        owner,
        amount,
        is_frozen: frozen,
    }
    .pack()
}

#[test]
fn malformed_input_is_invalid_instruction() {
    let mut accounts: Vec<AccountHandle> = vec![];
    assert_eq!(
        process_instruction(&program(), &mut accounts, &[]).unwrap_err(),
        CobotiumError::InvalidInstruction
    );
    assert_eq!(
        process_instruction(&program(), &mut accounts, &[99]).unwrap_err(),
        CobotiumError::InvalidInstruction
    );
}

#[test]
fn too_few_accounts_is_invalid_instruction() {
    let mut accounts = vec![handle(key(1), program(), false, false, vec![0u8; 75])];
    assert_eq!(
        Processor::process_mint_to(&mut accounts, 5, &program()).unwrap_err(),
        CobotiumError::InvalidInstruction
    );
    // InitializeMint with a freeze authority needs a third account.
    let mut accounts = vec![
        handle(key(1), program(), false, true, vec![0u8; 75]),
        signer(key(0xA0)),
    ];
    assert_eq!(
        Processor::process_initialize_mint(&mut accounts, 0, Some(key(0xFA)), &program())
            .unwrap_err(),
        CobotiumError::InvalidInstruction
    );
}

#[test]
fn missing_attestation_is_not_rent_exempt() {
    let mut accounts = vec![
        handle(key(1), program(), false, false, vec![0u8; 75]),
        signer(key(0xA0)),
    ];
    assert_eq!(
        Processor::process_initialize_mint(&mut accounts, 0, None, &program()).unwrap_err(),
        CobotiumError::NotRentExempt
    );
}

#[test]
fn foreign_buffer_is_incorrect_owner() {
    let other_program = key(0xF1);
    let mut accounts = vec![
        handle(key(1), other_program, false, true, vec![0u8; 75]),
        signer(key(0xA0)),
    ];
    assert_eq!(
        Processor::process_initialize_mint(&mut accounts, 0, None, &program()).unwrap_err(),
        CobotiumError::IncorrectOwner
    );
}

#[test]
fn wrong_transfer_signer_is_incorrect_owner() {
    let mint_key = key(1);
    let mut accounts = vec![
        handle(key(2), program(), false, false, account_data(mint_key, key(0xAA), 10, false)),
        handle(key(3), program(), false, false, account_data(mint_key, key(0xBB), 0, false)),
        signer(key(0xCC)),
    ];
    assert_eq!(
        Processor::process_transfer(&mut accounts, 1, &program()).unwrap_err(),
        CobotiumError::IncorrectOwner
    );
}

#[test]
fn fresh_records_are_uninitialized_account() {
    // MintTo against a never-initialized destination.
    let mint_key = key(1);
    let authority = key(0xA0);
    let mut accounts = vec![
        handle(mint_key, program(), false, false, mint_data(authority, None, 0)),
        handle(key(2), program(), false, false, vec![0u8; 74]),
        signer(authority),
    ];
    assert_eq!(
        Processor::process_mint_to(&mut accounts, 5, &program()).unwrap_err(),
        CobotiumError::UninitializedAccount
    );
    // InitializeAccount against a never-initialized mint.
    let mut accounts = vec![
        handle(key(2), program(), false, true, vec![0u8; 74]),
        handle(mint_key, program(), false, false, vec![0u8; 75]),
        signer(key(0xAA)),
    ];
    assert_eq!(
        Processor::process_initialize_account(&mut accounts, &program()).unwrap_err(),
        CobotiumError::UninitializedAccount
    );
}

#[test]
fn reinitializing_an_account_is_already_initialized() {
    let mint_key = key(1);
    let mut accounts = vec![
        handle(key(2), program(), false, true, account_data(mint_key, key(0xAA), 10, false)),
        handle(mint_key, program(), false, false, mint_data(key(0xA0), None, 10)),
        signer(key(0xBB)),
    ];
    assert_eq!(
        Processor::process_initialize_account(&mut accounts, &program()).unwrap_err(),
        CobotiumError::AlreadyInitialized
    );
}

#[test]
fn overdraw_is_insufficient_funds() {
    let mint_key = key(1);
    let owner = key(0xAA);
    let mut accounts = vec![
        handle(key(2), program(), false, false, account_data(mint_key, owner, 10, false)),
        handle(key(3), program(), false, false, account_data(mint_key, key(0xBB), 0, false)),
        signer(owner),
    ];
    assert_eq!(
        Processor::process_transfer(&mut accounts, 11, &program()).unwrap_err(),
        CobotiumError::InsufficientFunds
    );
    let mut accounts = vec![
        handle(key(2), program(), false, false, account_data(mint_key, owner, 10, false)),
        handle(mint_key, program(), false, false, mint_data(key(0xA0), None, 10)),
        signer(owner),
    ];
    assert_eq!(
        Processor::process_burn(&mut accounts, 11, &program()).unwrap_err(),
        CobotiumError::InsufficientFunds
    );
}

#[test]
fn freeze_needs_a_configured_freeze_authority() {
    let mint_key = key(1);
    let mut accounts = vec![
        handle(key(2), program(), false, false, account_data(mint_key, key(0xAA), 0, false)),
        handle(mint_key, program(), false, false, mint_data(key(0xA0), None, 0)),
        signer(key(0xFA)),
    ];
    assert_eq!(
        Processor::process_freeze_account(&mut accounts, &program()).unwrap_err(),
        CobotiumError::InvalidMintAuthority
    );
}

#[test]
fn freeze_by_wrong_authority_is_invalid_mint_authority() {
    let mint_key = key(1);
    let mut accounts = vec![
        handle(key(2), program(), false, false, account_data(mint_key, key(0xAA), 0, false)),
        handle(mint_key, program(), false, false, mint_data(key(0xA0), Some(key(0xFA)), 0)),
        signer(key(0xFB)),
    ];
    assert_eq!(
        Processor::process_freeze_account(&mut accounts, &program()).unwrap_err(),
        CobotiumError::InvalidMintAuthority
    );
}

#[test]
fn mismatched_freeze_authority_at_init_is_invalid_mint_authority() {
    let mut accounts = vec![
        handle(key(1), program(), false, true, vec![0u8; 75]),
        signer(key(0xA0)),
        signer(key(0xFB)),
    ];
    assert_eq!(
        Processor::process_initialize_mint(&mut accounts, 0, Some(key(0xFA)), &program())
            .unwrap_err(),
        CobotiumError::InvalidMintAuthority
    );
}

#[test]
fn foreign_mint_reference_is_invalid_token_account() {
    // MintTo whose destination belongs to a different mint.
    let authority = key(0xA0);
    let mut accounts = vec![
        handle(key(1), program(), false, false, mint_data(authority, None, 0)),
        handle(key(2), program(), false, false, account_data(key(9), key(0xAA), 0, false)),
        signer(authority),
    ];
    assert_eq!(
        Processor::process_mint_to(&mut accounts, 5, &program()).unwrap_err(),
        CobotiumError::InvalidTokenAccount
    );
    // Transfer between accounts of two different mints.
    let owner = key(0xAA);
    let mut accounts = vec![
        handle(key(2), program(), false, false, account_data(key(1), owner, 10, false)),
        handle(key(3), program(), false, false, account_data(key(9), key(0xBB), 0, false)),
        signer(owner),
    ];
    assert_eq!(
        Processor::process_transfer(&mut accounts, 1, &program()).unwrap_err(),
        CobotiumError::InvalidTokenAccount
    );
}

#[test]
fn frozen_destination_is_account_frozen() {
    let mint_key = key(1);
    let authority = key(0xA0);
    let mut accounts = vec![
        handle(mint_key, program(), false, false, mint_data(authority, Some(key(0xFA)), 0)),
        handle(key(2), program(), false, false, account_data(mint_key, key(0xAA), 0, true)),
        signer(authority),
    ];
    assert_eq!(
        Processor::process_mint_to(&mut accounts, 5, &program()).unwrap_err(),
        CobotiumError::AccountFrozen
    );
}

#[test]
fn burn_beyond_supply_is_overflow() {
    // A corrupt pair where the account holds more than the recorded
    // supply: the balance check passes, the supply subtraction must not
    // wrap.
    let mint_key = key(1);
    let owner = key(0xAA);
    let mut accounts = vec![
        handle(key(2), program(), false, false, account_data(mint_key, owner, 100, false)),
        handle(mint_key, program(), false, false, mint_data(key(0xA0), None, 50)),
        signer(owner),
    ];
    assert_eq!(
        Processor::process_burn(&mut accounts, 80, &program()).unwrap_err(),
        CobotiumError::Overflow
    );
}

#[test]
fn transfer_overflowing_destination_is_overflow() {
    let mint_key = key(1);
    let owner = key(0xAA);
    let mut accounts = vec![
        handle(key(2), program(), false, false, account_data(mint_key, owner, 10, false)),
        handle(key(3), program(), false, false, account_data(mint_key, key(0xBB), u64::MAX, false)),
        signer(owner),
    ];
    assert_eq!(
        Processor::process_transfer(&mut accounts, 1, &program()).unwrap_err(),
        CobotiumError::Overflow
    );
}

#[test]
fn unsigned_authority_is_missing_required_signature() {
    let mint_key = key(1);
    let authority = key(0xA0);
    let mut accounts = vec![
        handle(mint_key, program(), false, false, mint_data(authority, None, 0)),
        handle(key(2), program(), false, false, account_data(mint_key, key(0xAA), 0, false)),
        handle(authority, authority, false, false, vec![]),
    ];
    assert_eq!(
        Processor::process_mint_to(&mut accounts, 5, &program()).unwrap_err(),
        CobotiumError::MissingRequiredSignature
    );
}

#[test]
fn out_of_policy_arguments_are_invalid_argument() {
    // Decimals above the cap.
    let mut accounts = vec![
        handle(key(1), program(), false, true, vec![0u8; 75]),
        signer(key(0xA0)),
    ];
    assert_eq!(
        Processor::process_initialize_mint(&mut accounts, 19, None, &program()).unwrap_err(),
        CobotiumError::InvalidArgument
    );
    // A zero-amount mint is rejected by policy, not treated as a no-op.
    let mint_key = key(1);
    let authority = key(0xA0);
    let mut accounts = vec![
        handle(mint_key, program(), false, false, mint_data(authority, None, 0)),
        handle(key(2), program(), false, false, account_data(mint_key, key(0xAA), 0, false)),
        signer(authority),
    ];
    assert_eq!(
        Processor::process_mint_to(&mut accounts, 0, &program()).unwrap_err(),
        CobotiumError::InvalidArgument
    );
}

#[test]
fn short_buffer_is_invalid_account_data() {
    let mut accounts = vec![
        handle(key(1), program(), false, true, vec![0u8; 10]),
        signer(key(0xA0)),
    ];
    assert_eq!(
        Processor::process_initialize_mint(&mut accounts, 0, None, &program()).unwrap_err(),
        CobotiumError::InvalidAccountData
    );
}
