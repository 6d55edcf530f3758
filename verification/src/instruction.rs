//! Instruction types of the token program and their wire form.
//!
//! An instruction travels as a one-byte discriminant tag followed by that
//! variant's fixed-width payload. Decoding is all-or-nothing: an unknown
//! tag, a truncated payload or trailing bytes reject the whole input, and
//! a decoded instruction re-encodes to exactly the bytes it came from.
//!
//! Wire forms: `InitializeMint` is tag 0, one byte of decimals, a
//! present/absent flag byte and, when present, the 32-byte freeze
//! authority; `InitializeAccount`, `FreezeAccount` and `ThawAccount` are
//! the bare tags 1, 5 and 6; `MintTo`, `Transfer` and `Burn` are tags 2, 3
//! and 4 followed by the amount as eight little-endian bytes.

use vstd::prelude::*;

use crate::error::CobotiumError;
use crate::pubkey::Pubkey;

verus! {

/// Instructions supported by the Cobotium token program, with the scalar
/// payload each carries.
#[derive(Clone, Copy, Debug)]
pub enum CobotiumInstruction {
    /// Populate a fresh mint buffer.
    ///
    /// Accounts expected: the mint buffer (writable, with the
    /// rent-exemption attestation), the mint authority (signer), and the
    /// freeze authority (signer) exactly when the instruction carries one.
    InitializeMint {
        /// Display scale of the mint, at most
        /// [`crate::state::MAX_DECIMALS`].
        decimals: u8,
        /// The freeze authority to record, if the mint is to have one.
        freeze_authority: Option<Pubkey>,
    },
    /// Populate a fresh token account buffer.
    ///
    /// Accounts expected: the token account buffer (writable, with the
    /// rent-exemption attestation), the mint it will reference, and the
    /// owner (signer).
    InitializeAccount,
    /// Create new tokens in a destination account.
    ///
    /// Accounts expected: the mint (writable), the destination account
    /// (writable), and the mint authority (signer).
    MintTo {
        /// How many tokens to create; must be nonzero.
        amount: u64,
    },
    /// Move tokens between two accounts of the same mint.
    ///
    /// Accounts expected: the source account (writable), the destination
    /// account (writable), and the source account's owner (signer).
    Transfer {
        /// How many tokens to move.
        amount: u64,
    },
    /// Destroy tokens held by an account.
    ///
    /// Accounts expected: the account to burn from (writable), the mint
    /// (writable), and the account's owner (signer).
    Burn {
        /// How many tokens to destroy.
        amount: u64,
    },
    /// Set an account's frozen flag.
    ///
    /// Accounts expected: the account to freeze (writable), its mint, and
    /// the mint's freeze authority (signer).
    FreezeAccount,
    /// Clear an account's frozen flag.
    ///
    /// Accounts expected: the account to thaw (writable), its mint, and
    /// the mint's freeze authority (signer).
    ThawAccount,
}

/// Mathematical model of a [`CobotiumInstruction`]: identities as byte
/// sequences.
pub enum CobotiumInstructionView {
    /// Model of [`CobotiumInstruction::InitializeMint`].
    InitializeMint {
        /// Model of the decimals payload.
        decimals: u8,
        /// Model of the optional freeze authority.
        freeze_authority: Option<Seq<u8>>,
    },
    /// Model of [`CobotiumInstruction::InitializeAccount`].
    InitializeAccount,
    /// Model of [`CobotiumInstruction::MintTo`].
    MintTo {
        /// Model of the amount payload.
        amount: u64,
    },
    /// Model of [`CobotiumInstruction::Transfer`].
    Transfer {
        /// Model of the amount payload.
        amount: u64,
    },
    /// Model of [`CobotiumInstruction::Burn`].
    Burn {
        /// Model of the amount payload.
        amount: u64,
    },
    /// Model of [`CobotiumInstruction::FreezeAccount`].
    FreezeAccount,
    /// Model of [`CobotiumInstruction::ThawAccount`].
    ThawAccount,
}

impl View for CobotiumInstruction {
    type V = CobotiumInstructionView;

    open spec fn view(&self) -> CobotiumInstructionView {
        match *self {
            CobotiumInstruction::InitializeMint { decimals, freeze_authority } => {
                CobotiumInstructionView::InitializeMint {
                    decimals,
                    freeze_authority: match freeze_authority {
                        Some(k) => Some(k@),
                        None => None,
                    },
                }
            },
            CobotiumInstruction::InitializeAccount => CobotiumInstructionView::InitializeAccount,
            CobotiumInstruction::MintTo { amount } => CobotiumInstructionView::MintTo { amount },
            CobotiumInstruction::Transfer { amount } => CobotiumInstructionView::Transfer { amount },
            CobotiumInstruction::Burn { amount } => CobotiumInstructionView::Burn { amount },
            CobotiumInstruction::FreezeAccount => CobotiumInstructionView::FreezeAccount,
            CobotiumInstruction::ThawAccount => CobotiumInstructionView::ThawAccount,
        }
    }
}

impl CobotiumInstructionView {
    /// The freeze authority, when carried, has the fixed identity width.
    pub open spec fn wf(self) -> bool {
        match self {
            CobotiumInstructionView::InitializeMint { freeze_authority: Some(k), .. } => k.len()
                == 32,
            _ => true,
        }
    }
}

/// The wire form of an instruction.
pub open spec fn spec_pack_instruction(i: CobotiumInstructionView) -> Seq<u8> {
    match i {
        CobotiumInstructionView::InitializeMint { decimals, freeze_authority } => {
            match freeze_authority {
                Some(k) => seq![0u8, decimals, 1u8] + k,
                None => seq![0u8, decimals, 0u8],
            }
        },
        CobotiumInstructionView::InitializeAccount => seq![1u8],
        CobotiumInstructionView::MintTo { amount } => seq![2u8] + vstd::bytes::spec_u64_to_le_bytes(
            amount,
        ),
        CobotiumInstructionView::Transfer { amount } => seq![3u8]
            + vstd::bytes::spec_u64_to_le_bytes(amount),
        CobotiumInstructionView::Burn { amount } => seq![4u8] + vstd::bytes::spec_u64_to_le_bytes(
            amount,
        ),
        CobotiumInstructionView::FreezeAccount => seq![5u8],
        CobotiumInstructionView::ThawAccount => seq![6u8],
    }
}

/// Decode a whole byte string as one instruction, or nothing when the tag
/// is unknown, the payload is truncated, or bytes trail the payload.
pub open spec fn spec_unpack_instruction(s: Seq<u8>) -> Option<CobotiumInstructionView> {
    if s.len() == 0 {
        None
    } else if s[0] == 0 {
        if s.len() == 3 && s[2] == 0 {
            Some(
                CobotiumInstructionView::InitializeMint { decimals: s[1], freeze_authority: None },
            )
        } else if s.len() == 35 && s[2] == 1 {
            Some(
                CobotiumInstructionView::InitializeMint {
                    decimals: s[1],
                    freeze_authority: Some(s.subrange(3, 35)),
                },
            )
        } else {
            None
        }
    } else if s[0] == 1 {
        if s.len() == 1 {
            Some(CobotiumInstructionView::InitializeAccount)
        } else {
            None
        }
    } else if s[0] == 2 {
        if s.len() == 9 {
            Some(
                CobotiumInstructionView::MintTo {
                    amount: vstd::bytes::spec_u64_from_le_bytes(s.subrange(1, 9)),
                },
            )
        } else {
            None
        }
    } else if s[0] == 3 {
        if s.len() == 9 {
            Some(
                CobotiumInstructionView::Transfer {
                    amount: vstd::bytes::spec_u64_from_le_bytes(s.subrange(1, 9)),
                },
            )
        } else {
            None
        }
    } else if s[0] == 4 {
        if s.len() == 9 {
            Some(
                CobotiumInstructionView::Burn {
                    amount: vstd::bytes::spec_u64_from_le_bytes(s.subrange(1, 9)),
                },
            )
        } else {
            None
        }
    } else if s[0] == 5 {
        if s.len() == 1 {
            Some(CobotiumInstructionView::FreezeAccount)
        } else {
            None
        }
    } else if s[0] == 6 {
        if s.len() == 1 {
            Some(CobotiumInstructionView::ThawAccount)
        } else {
            None
        }
    } else {
        None
    }
}

/// Decoding undoes encoding: every instruction's wire form decodes back to
/// the instruction itself.
pub proof fn lemma_instruction_pack_unpack(i: CobotiumInstructionView)
    requires
        i.wf(),
    ensures
        spec_unpack_instruction(spec_pack_instruction(i)) == Some(i),
{
    vstd::bytes::lemma_auto_spec_u64_to_from_le_bytes();
    let s = spec_pack_instruction(i);
    match i {
        CobotiumInstructionView::InitializeMint { decimals, freeze_authority } => {
            match freeze_authority {
                Some(k) => {
                    assert(s.subrange(3, 35) =~= k);
                },
                None => {},
            }
        },
        CobotiumInstructionView::MintTo { amount } => {
            assert(s.subrange(1, 9) =~= vstd::bytes::spec_u64_to_le_bytes(amount));
        },
        CobotiumInstructionView::Transfer { amount } => {
            assert(s.subrange(1, 9) =~= vstd::bytes::spec_u64_to_le_bytes(amount));
        },
        CobotiumInstructionView::Burn { amount } => {
            assert(s.subrange(1, 9) =~= vstd::bytes::spec_u64_to_le_bytes(amount));
        },
        _ => {},
    }
}

/// Encoding undoes decoding: a byte string that decodes is exactly the
/// decoded instruction's wire form.
pub proof fn lemma_instruction_unpack_pack(s: Seq<u8>)
    requires
        spec_unpack_instruction(s) is Some,
    ensures
        spec_unpack_instruction(s)->Some_0.wf(),
        spec_pack_instruction(spec_unpack_instruction(s)->Some_0) == s,
{
    vstd::bytes::lemma_auto_spec_u64_to_from_le_bytes();
    let i = spec_unpack_instruction(s)->Some_0;
    let p = spec_pack_instruction(i);
    if s[0] == 0 {
        assert(p =~= s);
    } else if s[0] == 2 || s[0] == 3 || s[0] == 4 {
        assert(vstd::bytes::spec_u64_to_le_bytes(
            vstd::bytes::spec_u64_from_le_bytes(s.subrange(1, 9)),
        ) == s.subrange(1, 9));
        assert(p =~= s);
    } else {
        assert(p =~= s);
    }
}

impl CobotiumInstruction {
    /// Encode this instruction into its wire form.
    pub fn pack(&self) -> (r: Vec<u8>)
        ensures
            r@ == spec_pack_instruction(self@),
    {
        let mut out: Vec<u8> = Vec::new();
        match self {
            CobotiumInstruction::InitializeMint { decimals, freeze_authority } => {
                out.push(0);
                out.push(*decimals);
                match freeze_authority {
                    Some(k) => {
                        out.push(1);
                        k.append_to(&mut out);
                    },
                    None => {
                        out.push(0);
                    },
                }
            },
            CobotiumInstruction::InitializeAccount => {
                out.push(1);
            },
            CobotiumInstruction::MintTo { amount } => {
                out.push(2);
                let mut bytes = vstd::bytes::u64_to_le_bytes(*amount);
                out.append(&mut bytes);
            },
            CobotiumInstruction::Transfer { amount } => {
                out.push(3);
                let mut bytes = vstd::bytes::u64_to_le_bytes(*amount);
                out.append(&mut bytes);
            },
            CobotiumInstruction::Burn { amount } => {
                out.push(4);
                let mut bytes = vstd::bytes::u64_to_le_bytes(*amount);
                out.append(&mut bytes);
            },
            CobotiumInstruction::FreezeAccount => {
                out.push(5);
            },
            CobotiumInstruction::ThawAccount => {
                out.push(6);
            },
        }
        proof {
            assert(out@ =~= spec_pack_instruction(self@));
        }
        out
    }

    /// Decode a whole byte string as one instruction; any malformed input
    /// is [`CobotiumError::InvalidInstruction`].
    pub fn unpack(input: &[u8]) -> (r: Result<CobotiumInstruction, CobotiumError>)
        ensures
            match spec_unpack_instruction(input@) {
                Some(i) => r is Ok && r->Ok_0@ == i,
                None => r == Err::<CobotiumInstruction, CobotiumError>(
                    CobotiumError::InvalidInstruction,
                ),
            },
    {
        let n = input.len();
        if n == 0 {
            return Err(CobotiumError::InvalidInstruction);
        }
        let tag = input[0];
        if tag == 0 {
            if n == 3 && input[2] == 0 {
                Ok(CobotiumInstruction::InitializeMint { decimals: input[1], freeze_authority: None })
            } else if n == 35 && input[2] == 1 {
                let key = Pubkey::from_slice(input, 3);
                Ok(
                    CobotiumInstruction::InitializeMint {
                        decimals: input[1],
                        freeze_authority: Some(key),
                    },
                )
            } else {
                Err(CobotiumError::InvalidInstruction)
            }
        } else if tag == 1 {
            if n == 1 {
                Ok(CobotiumInstruction::InitializeAccount)
            } else {
                Err(CobotiumError::InvalidInstruction)
            }
        } else if tag == 2 {
            if n == 9 {
                let amount = read_amount(input);
                Ok(CobotiumInstruction::MintTo { amount })
            } else {
                Err(CobotiumError::InvalidInstruction)
            }
        } else if tag == 3 {
            if n == 9 {
                let amount = read_amount(input);
                Ok(CobotiumInstruction::Transfer { amount })
            } else {
                Err(CobotiumError::InvalidInstruction)
            }
        } else if tag == 4 {
            if n == 9 {
                let amount = read_amount(input);
                Ok(CobotiumInstruction::Burn { amount })
            } else {
                Err(CobotiumError::InvalidInstruction)
            }
        } else if tag == 5 {
            if n == 1 {
                Ok(CobotiumInstruction::FreezeAccount)
            } else {
                Err(CobotiumError::InvalidInstruction)
            }
        } else if tag == 6 {
            if n == 1 {
                Ok(CobotiumInstruction::ThawAccount)
            } else {
                Err(CobotiumError::InvalidInstruction)
            }
        } else {
            Err(CobotiumError::InvalidInstruction)
        }
    }
}

/// Read the eight-byte amount payload that follows an instruction tag.
fn read_amount(input: &[u8]) -> (r: u64)
    requires
        input@.len() == 9,
    ensures
        r == vstd::bytes::spec_u64_from_le_bytes(input@.subrange(1, 9)),
{
    let sub = vstd::slice::slice_subrange(input, 1, 9);
    vstd::bytes::u64_from_le_bytes(sub)
}

} // verus!
