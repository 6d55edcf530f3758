//! Wire form of the instruction set: round trips and all-or-nothing
//! rejection.

use cobotium_program::error::CobotiumError;
use cobotium_program::instruction::CobotiumInstruction;
use cobotium_program::pubkey::Pubkey;

fn key(b: u8) -> Pubkey {
    Pubkey::new([b; 32])
}

#[test]
fn initialize_mint_without_freeze_authority_round_trip() {
    let inst = CobotiumInstruction::InitializeMint {
        decimals: 9,
        freeze_authority: None,
    };
    let bytes = inst.pack();
    assert_eq!(bytes, vec![0u8, 9, 0]);
    match CobotiumInstruction::unpack(&bytes).unwrap() {
        CobotiumInstruction::InitializeMint {
            decimals,
            freeze_authority,
        } => {
            assert_eq!(decimals, 9);
            assert!(freeze_authority.is_none());
        }
        _ => panic!("wrong variant"),
    }
}

#[test]
fn initialize_mint_with_freeze_authority_round_trip() {
    let inst = CobotiumInstruction::InitializeMint {
        decimals: 2,
        freeze_authority: Some(key(0x77)),
    };
    let bytes = inst.pack();
    assert_eq!(bytes.len(), 35);
    assert_eq!(bytes[0], 0);
    assert_eq!(bytes[1], 2);
    assert_eq!(bytes[2], 1);
    assert_eq!(bytes[3..35], [0x77u8; 32][..]);
    match CobotiumInstruction::unpack(&bytes).unwrap() {
        CobotiumInstruction::InitializeMint {
            decimals,
            freeze_authority,
        } => {
            assert_eq!(decimals, 2);
            assert_eq!(freeze_authority, Some(key(0x77)));
        }
        _ => panic!("wrong variant"),
    }
}

#[test]
fn initialize_account_round_trip() {
    let bytes = CobotiumInstruction::InitializeAccount.pack();
    assert_eq!(bytes, vec![1u8]);
    assert!(matches!(
        CobotiumInstruction::unpack(&bytes).unwrap(),
        CobotiumInstruction::InitializeAccount
    ));
}

#[test]
fn amount_instructions_round_trip() {
    let cases = [
        (CobotiumInstruction::MintTo { amount: 1 }, 2u8),
        (CobotiumInstruction::Transfer { amount: u64::MAX }, 3u8),
        (CobotiumInstruction::Burn { amount: 0x1122334455667788 }, 4u8),
    ];
    for (inst, tag) in cases {
        let bytes = inst.pack();
        assert_eq!(bytes.len(), 9);
        assert_eq!(bytes[0], tag);
        let back = CobotiumInstruction::unpack(&bytes).unwrap();
        let (a, b) = match (inst, back) {
            (
                CobotiumInstruction::MintTo { amount: a },
                CobotiumInstruction::MintTo { amount: b },
            ) => (a, b),
            (
                CobotiumInstruction::Transfer { amount: a },
                CobotiumInstruction::Transfer { amount: b },
            ) => (a, b),
            (
                CobotiumInstruction::Burn { amount: a },
                CobotiumInstruction::Burn { amount: b },
            ) => (a, b),
            _ => panic!("variant changed in round trip"),
        };
        assert_eq!(a, b);
    }
}

#[test]
fn mint_to_amount_is_little_endian() {
    let bytes = CobotiumInstruction::MintTo { amount: 0x0102030405060708 }.pack();
    assert_eq!(bytes[1..9], [8u8, 7, 6, 5, 4, 3, 2, 1][..]);
}

#[test]
fn freeze_and_thaw_round_trip() {
    let freeze = CobotiumInstruction::FreezeAccount.pack();
    let thaw = CobotiumInstruction::ThawAccount.pack();
    assert_eq!(freeze, vec![5u8]);
    assert_eq!(thaw, vec![6u8]);
    assert!(matches!(
        CobotiumInstruction::unpack(&freeze).unwrap(),
        CobotiumInstruction::FreezeAccount
    ));
    assert!(matches!(
        CobotiumInstruction::unpack(&thaw).unwrap(),
        CobotiumInstruction::ThawAccount
    ));
}

#[test]
fn unpack_rejects_empty_input() {
    assert_eq!(
        CobotiumInstruction::unpack(&[]).unwrap_err(),
        CobotiumError::InvalidInstruction
    );
}

#[test]
fn unpack_rejects_unknown_tag() {
    assert_eq!(
        CobotiumInstruction::unpack(&[7]).unwrap_err(),
        CobotiumError::InvalidInstruction
    );
    assert_eq!(
        CobotiumInstruction::unpack(&[255, 0, 0]).unwrap_err(),
        CobotiumError::InvalidInstruction
    );
}

#[test]
fn unpack_rejects_truncated_payload() {
    // MintTo with only seven of the eight amount bytes.
    assert_eq!(
        CobotiumInstruction::unpack(&[2, 1, 2, 3, 4, 5, 6, 7]).unwrap_err(),
        CobotiumError::InvalidInstruction
    );
    // InitializeMint cut off before the freeze-authority flag.
    assert_eq!(
        CobotiumInstruction::unpack(&[0, 9]).unwrap_err(),
        CobotiumError::InvalidInstruction
    );
}

#[test]
fn unpack_rejects_trailing_bytes() {
    let mut bytes = CobotiumInstruction::Burn { amount: 5 }.pack();
    bytes.push(0);
    assert_eq!(
        CobotiumInstruction::unpack(&bytes).unwrap_err(),
        CobotiumError::InvalidInstruction
    );
    assert_eq!(
        CobotiumInstruction::unpack(&[1, 0]).unwrap_err(),
        CobotiumError::InvalidInstruction
    );
}

#[test]
fn unpack_rejects_bad_freeze_authority_flag() {
    // 35 bytes but the present/absent flag is neither 0 nor 1.
    let mut bytes = vec![0u8, 9, 2];
    bytes.extend_from_slice(&[0u8; 32]);
    assert_eq!(
        CobotiumInstruction::unpack(&bytes).unwrap_err(),
        CobotiumError::InvalidInstruction
    );
}
