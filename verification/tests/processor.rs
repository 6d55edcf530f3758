//! End-to-end behaviour of the processor: the full lifecycle scenario,
//! authority and freeze gating, and one input for every error condition.

use cobotium_program::account::AccountHandle;
use cobotium_program::error::CobotiumError;
use cobotium_program::instruction::CobotiumInstruction;
use cobotium_program::process_instruction;
use cobotium_program::processor::Processor;
use cobotium_program::pubkey::Pubkey;
use cobotium_program::state::{Mint, TokenAccount};

fn key(b: u8) -> Pubkey {
    Pubkey::new([b; 32])
}

fn handle(k: Pubkey, owner: Pubkey, signer: bool, rent_exempt: bool, data: Vec<u8>) -> AccountHandle {
    AccountHandle::new(k, owner, signer, rent_exempt, data)
}

/// A fresh, rent-exempt, program-owned record buffer of `len` zero bytes.
fn fresh(k: Pubkey, program_id: Pubkey, len: usize) -> AccountHandle {
    handle(k, program_id, false, true, vec![0u8; len])
}

/// A signer handle carrying no buffer.
fn signer(k: Pubkey) -> AccountHandle {
    handle(k, k, true, false, vec![])
}

fn init_mint_data(decimals: u8, freeze_authority: Option<Pubkey>) -> Vec<u8> {
    CobotiumInstruction::InitializeMint {
        decimals,
        freeze_authority,
    }
    .pack()
}

fn mint_of(h: &AccountHandle) -> Mint {
    Mint::unpack_from_slice(&h.data).unwrap()
}

fn account_of(h: &AccountHandle) -> TokenAccount {
    TokenAccount::unpack_from_slice(&h.data).unwrap()
}

#[test]
fn full_lifecycle_scenario() {
    let program_id = key(0xF0);
    let mint_key = key(1);
    let a_key = key(2);
    let b_key = key(3);
    let authority = key(0xA0);
    let owner_a = key(0xAA);
    let owner_b = key(0xBB);

    // InitializeMint, nine decimals, no freeze authority.
    let mut accounts = vec![
        fresh(mint_key, program_id, 75),
        signer(authority),
    ];
    process_instruction(&program_id, &mut accounts, &init_mint_data(9, None)).unwrap();
    let mint = mint_of(&accounts[0]);
    assert!(mint.is_initialized);
    assert_eq!(mint.decimals, 9);
    assert_eq!(mint.mint_authority, authority);
    assert!(mint.freeze_authority.is_none());
    assert_eq!(mint.supply, 0);
    let mint_data = accounts[0].data.clone();

    // InitializeAccount for owner A.
    let mut accounts = vec![
        fresh(a_key, program_id, 74),
        handle(mint_key, program_id, false, false, mint_data.clone()),
        signer(owner_a),
    ];
    process_instruction(&program_id, &mut accounts, &CobotiumInstruction::InitializeAccount.pack())
        .unwrap();
    let a = account_of(&accounts[0]);
    assert!(a.is_initialized);
    assert_eq!(a.mint, mint_key);
    assert_eq!(a.owner, owner_a);
    assert_eq!(a.amount, 0);
    assert!(!a.is_frozen);
    let a_data = accounts[0].data.clone();

    // MintTo A: one billion.
    let mut accounts = vec![
        handle(mint_key, program_id, false, false, mint_data),
        handle(a_key, program_id, false, false, a_data),
        signer(authority),
    ];
    process_instruction(
        &program_id,
        &mut accounts,
        &CobotiumInstruction::MintTo { amount: 1_000_000_000 }.pack(),
    )
    .unwrap();
    assert_eq!(mint_of(&accounts[0]).supply, 1_000_000_000);
    assert_eq!(account_of(&accounts[1]).amount, 1_000_000_000);
    let mint_data = accounts[0].data.clone();
    let a_data = accounts[1].data.clone();

    // InitializeAccount for owner B.
    let mut accounts = vec![
        fresh(b_key, program_id, 74),
        handle(mint_key, program_id, false, false, mint_data.clone()),
        signer(owner_b),
    ];
    process_instruction(&program_id, &mut accounts, &CobotiumInstruction::InitializeAccount.pack())
        .unwrap();
    let b_data = accounts[0].data.clone();

    // Transfer 400 million from A to B.
    let mut accounts = vec![
        handle(a_key, program_id, false, false, a_data),
        handle(b_key, program_id, false, false, b_data),
        signer(owner_a),
    ];
    process_instruction(
        &program_id,
        &mut accounts,
        &CobotiumInstruction::Transfer { amount: 400_000_000 }.pack(),
    )
    .unwrap();
    assert_eq!(account_of(&accounts[0]).amount, 600_000_000);
    assert_eq!(account_of(&accounts[1]).amount, 400_000_000);
    let a_data = accounts[0].data.clone();

    // Supply is untouched by the transfer.
    assert_eq!(Mint::unpack_from_slice(&mint_data).unwrap().supply, 1_000_000_000);

    // Burn 600 million from A.
    let mut accounts = vec![
        handle(a_key, program_id, false, false, a_data),
        handle(mint_key, program_id, false, false, mint_data),
        signer(owner_a),
    ];
    process_instruction(
        &program_id,
        &mut accounts,
        &CobotiumInstruction::Burn { amount: 600_000_000 }.pack(),
    )
    .unwrap();
    assert_eq!(account_of(&accounts[0]).amount, 0);
    assert_eq!(mint_of(&accounts[1]).supply, 400_000_000);
}

#[test]
fn mint_to_by_wrong_authority_changes_nothing() {
    let program_id = key(0xF0);
    let authority = key(0xA0);
    let intruder = key(0xA1);
    let mint_key = key(1);
    let a_key = key(2);

    let mut accounts = vec![fresh(mint_key, program_id, 75), signer(authority)];
    Processor::process_initialize_mint(&mut accounts, 0, None, &program_id).unwrap();
    let mint_data = accounts[0].data.clone();

    let mut accounts = vec![
        fresh(a_key, program_id, 74),
        handle(mint_key, program_id, false, false, mint_data.clone()),
        signer(key(0xAA)),
    ];
    Processor::process_initialize_account(&mut accounts, &program_id).unwrap();
    let a_data = accounts[0].data.clone();

    // Signed, but by an identity that is not the mint authority.
    let mut accounts = vec![
        handle(mint_key, program_id, false, false, mint_data.clone()),
        handle(a_key, program_id, false, false, a_data.clone()),
        signer(intruder),
    ];
    let err = Processor::process_mint_to(&mut accounts, 5, &program_id).unwrap_err();
    assert_eq!(err, CobotiumError::InvalidMintAuthority);
    // Both records are byte-for-byte unchanged.
    assert_eq!(accounts[0].data, mint_data);
    assert_eq!(accounts[1].data, a_data);
}

#[test]
fn initialize_mint_twice_reports_already_initialized() {
    let program_id = key(0xF0);
    let mint_key = key(1);
    let authority = key(0xA0);
    let other_authority = key(0xA7);

    let mut accounts = vec![fresh(mint_key, program_id, 75), signer(authority)];
    Processor::process_initialize_mint(&mut accounts, 6, None, &program_id).unwrap();
    let first = accounts[0].data.clone();

    // A second initialization, even with different arguments, is rejected
    // and the first initialization's fields stay untouched.
    let err =
        Processor::process_initialize_mint(&mut accounts, 2, None, &program_id).unwrap_err();
    assert_eq!(err, CobotiumError::AlreadyInitialized);
    assert_eq!(accounts[0].data, first);
    let mint = mint_of(&accounts[0]);
    assert_eq!(mint.decimals, 6);
    assert_eq!(mint.mint_authority, authority);
}

#[test]
fn freeze_gates_deposits_transfers_and_burns_but_not_refreezing() {
    let program_id = key(0xF0);
    let mint_key = key(1);
    let a_key = key(2);
    let b_key = key(3);
    let authority = key(0xA0);
    let freeze_auth = key(0xFA);
    let owner_a = key(0xAA);

    // A mint with a freeze authority.
    let mut accounts = vec![
        fresh(mint_key, program_id, 75),
        signer(authority),
        signer(freeze_auth),
    ];
    Processor::process_initialize_mint(&mut accounts, 0, Some(freeze_auth), &program_id).unwrap();
    let mint_data = accounts[0].data.clone();
    assert_eq!(mint_of(&accounts[0]).freeze_authority, Some(freeze_auth));

    // Two accounts; A funded with 100 tokens.
    let mut accounts = vec![
        fresh(a_key, program_id, 74),
        handle(mint_key, program_id, false, false, mint_data.clone()),
        signer(owner_a),
    ];
    Processor::process_initialize_account(&mut accounts, &program_id).unwrap();
    let a_data = accounts[0].data.clone();
    let mut accounts = vec![
        fresh(b_key, program_id, 74),
        handle(mint_key, program_id, false, false, mint_data.clone()),
        signer(key(0xBB)),
    ];
    Processor::process_initialize_account(&mut accounts, &program_id).unwrap();
    let b_data = accounts[0].data.clone();
    let mut accounts = vec![
        handle(mint_key, program_id, false, false, mint_data),
        handle(a_key, program_id, false, false, a_data),
        signer(authority),
    ];
    Processor::process_mint_to(&mut accounts, 100, &program_id).unwrap();
    let mint_data = accounts[0].data.clone();
    let a_data = accounts[1].data.clone();

    // Freeze A.
    let mut accounts = vec![
        handle(a_key, program_id, false, false, a_data),
        handle(mint_key, program_id, false, false, mint_data.clone()),
        signer(freeze_auth),
    ];
    Processor::process_freeze_account(&mut accounts, &program_id).unwrap();
    let a_data = accounts[0].data.clone();
    assert!(account_of(&accounts[0]).is_frozen);

    // Freezing again succeeds and leaves the bytes unchanged.
    let mut accounts = vec![
        handle(a_key, program_id, false, false, a_data.clone()),
        handle(mint_key, program_id, false, false, mint_data.clone()),
        signer(freeze_auth),
    ];
    Processor::process_freeze_account(&mut accounts, &program_id).unwrap();
    assert_eq!(accounts[0].data, a_data);

    // Depositing into the frozen account fails and changes nothing.
    let mut accounts = vec![
        handle(mint_key, program_id, false, false, mint_data.clone()),
        handle(a_key, program_id, false, false, a_data.clone()),
        signer(authority),
    ];
    let err = Processor::process_mint_to(&mut accounts, 1, &program_id).unwrap_err();
    assert_eq!(err, CobotiumError::AccountFrozen);
    assert_eq!(accounts[0].data, mint_data);
    assert_eq!(accounts[1].data, a_data);

    // Transferring out of the frozen account fails.
    let mut accounts = vec![
        handle(a_key, program_id, false, false, a_data.clone()),
        handle(b_key, program_id, false, false, b_data.clone()),
        signer(owner_a),
    ];
    let err = Processor::process_transfer(&mut accounts, 10, &program_id).unwrap_err();
    assert_eq!(err, CobotiumError::AccountFrozen);
    assert_eq!(accounts[0].data, a_data);
    assert_eq!(accounts[1].data, b_data);

    // Transferring into the frozen account fails too.
    let mut accounts = vec![
        handle(b_key, program_id, false, false, b_data.clone()),
        handle(a_key, program_id, false, false, a_data.clone()),
        signer(key(0xBB)),
    ];
    let err = Processor::process_transfer(&mut accounts, 0, &program_id).unwrap_err();
    assert_eq!(err, CobotiumError::AccountFrozen);

    // Burning from the frozen account fails.
    let mut accounts = vec![
        handle(a_key, program_id, false, false, a_data.clone()),
        handle(mint_key, program_id, false, false, mint_data.clone()),
        signer(owner_a),
    ];
    let err = Processor::process_burn(&mut accounts, 10, &program_id).unwrap_err();
    assert_eq!(err, CobotiumError::AccountFrozen);
    assert_eq!(accounts[0].data, a_data);
    assert_eq!(accounts[1].data, mint_data);

    // Thaw, and the deposit goes through.
    let mut accounts = vec![
        handle(a_key, program_id, false, false, a_data),
        handle(mint_key, program_id, false, false, mint_data.clone()),
        signer(freeze_auth),
    ];
    Processor::process_thaw_account(&mut accounts, &program_id).unwrap();
    assert!(!account_of(&accounts[0]).is_frozen);
    let a_data = accounts[0].data.clone();
    let mut accounts = vec![
        handle(mint_key, program_id, false, false, mint_data),
        handle(a_key, program_id, false, false, a_data),
        signer(authority),
    ];
    Processor::process_mint_to(&mut accounts, 1, &program_id).unwrap();
    assert_eq!(account_of(&accounts[1]).amount, 101);
}

#[test]
fn mint_to_max_amount_reports_overflow() {
    let program_id = key(0xF0);
    let mint_key = key(1);
    let a_key = key(2);
    let authority = key(0xA0);

    let mut accounts = vec![fresh(mint_key, program_id, 75), signer(authority)];
    Processor::process_initialize_mint(&mut accounts, 0, None, &program_id).unwrap();
    let mint_data = accounts[0].data.clone();
    let mut accounts = vec![
        fresh(a_key, program_id, 74),
        handle(mint_key, program_id, false, false, mint_data.clone()),
        signer(key(0xAA)),
    ];
    Processor::process_initialize_account(&mut accounts, &program_id).unwrap();
    let a_data = accounts[0].data.clone();

    // Give the mint a nonzero supply.
    let mut accounts = vec![
        handle(mint_key, program_id, false, false, mint_data),
        handle(a_key, program_id, false, false, a_data),
        signer(authority),
    ];
    Processor::process_mint_to(&mut accounts, 7, &program_id).unwrap();
    let mint_data = accounts[0].data.clone();
    let a_data = accounts[1].data.clone();

    // The largest possible amount must report Overflow, not wrap.
    let mut accounts = vec![
        handle(mint_key, program_id, false, false, mint_data.clone()),
        handle(a_key, program_id, false, false, a_data.clone()),
        signer(authority),
    ];
    let err = Processor::process_mint_to(&mut accounts, u64::MAX, &program_id).unwrap_err();
    assert_eq!(err, CobotiumError::Overflow);
    assert_eq!(accounts[0].data, mint_data);
    assert_eq!(accounts[1].data, a_data);
    assert_eq!(mint_of(&accounts[0]).supply, 7);
    assert_eq!(account_of(&accounts[1]).amount, 7);
}

#[test]
fn self_transfer_is_legal_and_changes_nothing() {
    let program_id = key(0xF0);
    let a_key = key(2);
    let owner_a = key(0xAA);
    let record = TokenAccount {
        is_initialized: true,
        mint: key(1),
        owner: owner_a,
        amount: 50,
        is_frozen: false,
    };
    let data = record.pack();

    // Both handles denote the same stored account.
    let mut accounts = vec![
        handle(a_key, program_id, false, false, data.clone()),
        handle(a_key, program_id, false, false, data.clone()),
        signer(owner_a),
    ];
    Processor::process_transfer(&mut accounts, 30, &program_id).unwrap();
    assert_eq!(accounts[0].data, data);
    assert_eq!(accounts[1].data, data);

    // A self-transfer still has to pass the balance check.
    let err = Processor::process_transfer(&mut accounts, 51, &program_id).unwrap_err();
    assert_eq!(err, CobotiumError::InsufficientFunds);
}

#[test]
fn record_buffers_keep_their_trailing_bytes() {
    let program_id = key(0xF0);
    let mint_key = key(1);
    let authority = key(0xA0);

    let mut data = vec![0u8; 80];
    data[75] = 0xDE;
    data[79] = 0xAD;
    let mut accounts = vec![
        handle(mint_key, program_id, false, true, data),
        signer(authority),
    ];
    Processor::process_initialize_mint(&mut accounts, 4, None, &program_id).unwrap();
    assert_eq!(accounts[0].data.len(), 80);
    assert_eq!(accounts[0].data[75], 0xDE);
    assert_eq!(accounts[0].data[79], 0xAD);
    assert!(mint_of(&accounts[0]).is_initialized);
}
