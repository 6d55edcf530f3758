//! The instruction processor: validation and state transitions.
//!
//! Each handler checks its preconditions in a fixed order — the first
//! violated one decides the error — and only then mutates the buffers it
//! was given, so an instruction either applies its whole effect or leaves
//! every buffer byte-for-byte unchanged. The intended outcome of every
//! handler is written down as a spec function over the account models, and
//! each handler's contract says it returns and mutates exactly as that
//! function prescribes.

use vstd::prelude::*;

use crate::account::{
    handle_views, lemma_handle_views_update, spec_with_prefix, AccountHandle, AccountHandleView,
};
use crate::error::CobotiumError;
use crate::instruction::{CobotiumInstruction, CobotiumInstructionView, spec_unpack_instruction};
use crate::pubkey::Pubkey;
use crate::state::{
    spec_pack_mint, spec_pack_token_account, spec_unpack_mint, spec_unpack_token_account, Mint,
    MintView, TokenAccount, TokenAccountView, MAX_DECIMALS,
};

verus! {

/// Program state handler: the six instruction handlers and the dispatcher
/// that routes a decoded instruction to one of them.
pub struct Processor {}

/// Model of an optional identity argument.
pub open spec fn spec_opt_key(o: Option<Pubkey>) -> Option<Seq<u8>> {
    match o {
        Some(k) => Some(k@),
        None => None,
    }
}

/// The mint record `InitializeMint` writes: fresh, with zero supply, owned
/// by the signing authority.
pub open spec fn spec_initialized_mint(
    accounts: Seq<AccountHandleView>,
    decimals: u8,
    freeze_authority: Option<Seq<u8>>,
) -> MintView {
    MintView {
        is_initialized: true,
        decimals,
        mint_authority: accounts[1].key,
        freeze_authority,
        supply: 0,
    }
}

/// Intended outcome of `InitializeMint`: the first violated precondition,
/// in order, or the account list with the mint buffer populated.
///
/// Accounts: 0 the mint buffer, 1 the mint authority, 2 the freeze
/// authority when the instruction carries one.
pub open spec fn spec_initialize_mint(
    accounts: Seq<AccountHandleView>,
    decimals: u8,
    freeze_authority: Option<Seq<u8>>,
    program_id: Seq<u8>,
) -> Result<Seq<AccountHandleView>, CobotiumError> {
    let needed: int = if freeze_authority is Some {
        3
    } else {
        2
    };
    if accounts.len() < needed {
        Err(CobotiumError::InvalidInstruction)
    } else if accounts[0].owner != program_id {
        Err(CobotiumError::IncorrectOwner)
    } else if !accounts[0].is_rent_exempt {
        Err(CobotiumError::NotRentExempt)
    } else if spec_unpack_mint(accounts[0].data) is None {
        Err(CobotiumError::InvalidAccountData)
    } else if spec_unpack_mint(accounts[0].data)->Some_0.is_initialized {
        Err(CobotiumError::AlreadyInitialized)
    } else if decimals > MAX_DECIMALS {
        Err(CobotiumError::InvalidArgument)
    } else if !accounts[1].is_signer {
        Err(CobotiumError::MissingRequiredSignature)
    } else {
        match freeze_authority {
            Some(fk) => {
                if fk != accounts[2].key {
                    Err(CobotiumError::InvalidMintAuthority)
                } else if !accounts[2].is_signer {
                    Err(CobotiumError::MissingRequiredSignature)
                } else {
                    Ok(
                        accounts.update(
                            0,
                            spec_with_prefix(
                                accounts[0],
                                spec_pack_mint(
                                    spec_initialized_mint(accounts, decimals, freeze_authority),
                                ),
                            ),
                        ),
                    )
                }
            },
            None => Ok(
                accounts.update(
                    0,
                    spec_with_prefix(
                        accounts[0],
                        spec_pack_mint(spec_initialized_mint(accounts, decimals, freeze_authority)),
                    ),
                ),
            ),
        }
    }
}

/// The token account record `InitializeAccount` writes: fresh, empty, not
/// frozen, bound to the referenced mint and the signing owner.
pub open spec fn spec_initialized_token_account(
    accounts: Seq<AccountHandleView>,
) -> TokenAccountView {
    TokenAccountView {
        is_initialized: true,
        mint: accounts[1].key,
        owner: accounts[2].key,
        amount: 0,
        is_frozen: false,
    }
}

/// Intended outcome of `InitializeAccount`.
///
/// Accounts: 0 the token account buffer, 1 the mint it will reference
/// (which must already be initialized), 2 the owner.
pub open spec fn spec_initialize_account(
    accounts: Seq<AccountHandleView>,
    program_id: Seq<u8>,
) -> Result<Seq<AccountHandleView>, CobotiumError> {
    if accounts.len() < 3 {
        Err(CobotiumError::InvalidInstruction)
    } else if accounts[0].owner != program_id || accounts[1].owner != program_id {
        Err(CobotiumError::IncorrectOwner)
    } else if !accounts[0].is_rent_exempt {
        Err(CobotiumError::NotRentExempt)
    } else if spec_unpack_token_account(accounts[0].data) is None {
        Err(CobotiumError::InvalidAccountData)
    } else if spec_unpack_token_account(accounts[0].data)->Some_0.is_initialized {
        Err(CobotiumError::AlreadyInitialized)
    } else if spec_unpack_mint(accounts[1].data) is None {
        Err(CobotiumError::InvalidAccountData)
    } else if !spec_unpack_mint(accounts[1].data)->Some_0.is_initialized {
        Err(CobotiumError::UninitializedAccount)
    } else if !accounts[2].is_signer {
        Err(CobotiumError::MissingRequiredSignature)
    } else {
        Ok(
            accounts.update(
                0,
                spec_with_prefix(
                    accounts[0],
                    spec_pack_token_account(spec_initialized_token_account(accounts)),
                ),
            ),
        )
    }
}

/// Intended outcome of `MintTo`: supply and the destination balance both
/// grow by `amount`, or the first violated precondition decides the error.
///
/// Accounts: 0 the mint, 1 the destination account, 2 the mint authority.
pub open spec fn spec_mint_to(
    accounts: Seq<AccountHandleView>,
    amount: u64,
    program_id: Seq<u8>,
) -> Result<Seq<AccountHandleView>, CobotiumError> {
    if accounts.len() < 3 {
        Err(CobotiumError::InvalidInstruction)
    } else if amount == 0 {
        Err(CobotiumError::InvalidArgument)
    } else if accounts[0].owner != program_id || accounts[1].owner != program_id {
        Err(CobotiumError::IncorrectOwner)
    } else if spec_unpack_mint(accounts[0].data) is None || spec_unpack_token_account(
        accounts[1].data,
    ) is None {
        Err(CobotiumError::InvalidAccountData)
    } else {
        let mint = spec_unpack_mint(accounts[0].data)->Some_0;
        let dest = spec_unpack_token_account(accounts[1].data)->Some_0;
        if !mint.is_initialized || !dest.is_initialized {
            Err(CobotiumError::UninitializedAccount)
        } else if !accounts[2].is_signer {
            Err(CobotiumError::MissingRequiredSignature)
        } else if mint.mint_authority != accounts[2].key {
            Err(CobotiumError::InvalidMintAuthority)
        } else if dest.mint != accounts[0].key {
            Err(CobotiumError::InvalidTokenAccount)
        } else if dest.is_frozen {
            Err(CobotiumError::AccountFrozen)
        } else if dest.amount + amount > u64::MAX || mint.supply + amount > u64::MAX {
            Err(CobotiumError::Overflow)
        } else {
            Ok(
                accounts.update(
                    0,
                    spec_with_prefix(
                        accounts[0],
                        spec_pack_mint(
                            MintView { supply: (mint.supply + amount) as u64, ..mint },
                        ),
                    ),
                ).update(
                    1,
                    spec_with_prefix(
                        accounts[1],
                        spec_pack_token_account(
                            TokenAccountView { amount: (dest.amount + amount) as u64, ..dest },
                        ),
                    ),
                ),
            )
        }
    }
}

/// Intended outcome of `Transfer`: `amount` moves from the source balance
/// to the destination balance; the two buffers may denote the same
/// account, in which case the transfer is legal but has no effect.
///
/// Accounts: 0 the source account, 1 the destination account, 2 the
/// source account's owner.
pub open spec fn spec_transfer(
    accounts: Seq<AccountHandleView>,
    amount: u64,
    program_id: Seq<u8>,
) -> Result<Seq<AccountHandleView>, CobotiumError> {
    if accounts.len() < 3 {
        Err(CobotiumError::InvalidInstruction)
    } else if accounts[0].owner != program_id || accounts[1].owner != program_id {
        Err(CobotiumError::IncorrectOwner)
    } else if spec_unpack_token_account(accounts[0].data) is None || spec_unpack_token_account(
        accounts[1].data,
    ) is None {
        Err(CobotiumError::InvalidAccountData)
    } else {
        let src = spec_unpack_token_account(accounts[0].data)->Some_0;
        let dst = spec_unpack_token_account(accounts[1].data)->Some_0;
        if !src.is_initialized || !dst.is_initialized {
            Err(CobotiumError::UninitializedAccount)
        } else if !accounts[2].is_signer {
            Err(CobotiumError::MissingRequiredSignature)
        } else if src.owner != accounts[2].key {
            Err(CobotiumError::IncorrectOwner)
        } else if src.mint != dst.mint {
            Err(CobotiumError::InvalidTokenAccount)
        } else if src.is_frozen || dst.is_frozen {
            Err(CobotiumError::AccountFrozen)
        } else if src.amount < amount {
            Err(CobotiumError::InsufficientFunds)
        } else if accounts[0].key == accounts[1].key {
            // A self-transfer passes every check but has no net effect,
            // and there is only one buffer to leave unchanged.
            Ok(accounts)
        } else if dst.amount + amount > u64::MAX {
            Err(CobotiumError::Overflow)
        } else {
            Ok(
                accounts.update(
                    0,
                    spec_with_prefix(
                        accounts[0],
                        spec_pack_token_account(
                            TokenAccountView { amount: (src.amount - amount) as u64, ..src },
                        ),
                    ),
                ).update(
                    1,
                    spec_with_prefix(
                        accounts[1],
                        spec_pack_token_account(
                            TokenAccountView { amount: (dst.amount + amount) as u64, ..dst },
                        ),
                    ),
                ),
            )
        }
    }
}

/// Intended outcome of `Burn`: the account balance and the supply both
/// shrink by `amount`.
///
/// Accounts: 0 the account to burn from, 1 the mint, 2 the account's
/// owner.
pub open spec fn spec_burn(
    accounts: Seq<AccountHandleView>,
    amount: u64,
    program_id: Seq<u8>,
) -> Result<Seq<AccountHandleView>, CobotiumError> {
    if accounts.len() < 3 {
        Err(CobotiumError::InvalidInstruction)
    } else if accounts[0].owner != program_id || accounts[1].owner != program_id {
        Err(CobotiumError::IncorrectOwner)
    } else if spec_unpack_token_account(accounts[0].data) is None || spec_unpack_mint(
        accounts[1].data,
    ) is None {
        Err(CobotiumError::InvalidAccountData)
    } else {
        let acct = spec_unpack_token_account(accounts[0].data)->Some_0;
        let mint = spec_unpack_mint(accounts[1].data)->Some_0;
        if !acct.is_initialized || !mint.is_initialized {
            Err(CobotiumError::UninitializedAccount)
        } else if !accounts[2].is_signer {
            Err(CobotiumError::MissingRequiredSignature)
        } else if acct.owner != accounts[2].key {
            Err(CobotiumError::IncorrectOwner)
        } else if acct.mint != accounts[1].key {
            Err(CobotiumError::InvalidTokenAccount)
        } else if acct.is_frozen {
            Err(CobotiumError::AccountFrozen)
        } else if acct.amount < amount {
            Err(CobotiumError::InsufficientFunds)
        } else if mint.supply < amount {
            Err(CobotiumError::Overflow)
        } else {
            Ok(
                accounts.update(
                    0,
                    spec_with_prefix(
                        accounts[0],
                        spec_pack_token_account(
                            TokenAccountView { amount: (acct.amount - amount) as u64, ..acct },
                        ),
                    ),
                ).update(
                    1,
                    spec_with_prefix(
                        accounts[1],
                        spec_pack_mint(MintView { supply: (mint.supply - amount) as u64, ..mint }),
                    ),
                ),
            )
        }
    }
}

/// Intended outcome of `FreezeAccount` (`frozen` true) and `ThawAccount`
/// (`frozen` false): the account's frozen flag is set to `frozen`,
/// regardless of its previous value.
///
/// Accounts: 0 the account, 1 its mint, 2 the mint's freeze authority.
pub open spec fn spec_set_freeze(
    accounts: Seq<AccountHandleView>,
    frozen: bool,
    program_id: Seq<u8>,
) -> Result<Seq<AccountHandleView>, CobotiumError> {
    if accounts.len() < 3 {
        Err(CobotiumError::InvalidInstruction)
    } else if accounts[0].owner != program_id || accounts[1].owner != program_id {
        Err(CobotiumError::IncorrectOwner)
    } else if spec_unpack_token_account(accounts[0].data) is None || spec_unpack_mint(
        accounts[1].data,
    ) is None {
        Err(CobotiumError::InvalidAccountData)
    } else {
        let acct = spec_unpack_token_account(accounts[0].data)->Some_0;
        let mint = spec_unpack_mint(accounts[1].data)->Some_0;
        if !acct.is_initialized || !mint.is_initialized {
            Err(CobotiumError::UninitializedAccount)
        } else if mint.freeze_authority is None {
            // A mint created without a freeze authority can never have its
            // accounts frozen or thawed.
            Err(CobotiumError::InvalidMintAuthority)
        } else if !accounts[2].is_signer {
            Err(CobotiumError::MissingRequiredSignature)
        } else if mint.freeze_authority->Some_0 != accounts[2].key {
            Err(CobotiumError::InvalidMintAuthority)
        } else if acct.mint != accounts[1].key {
            Err(CobotiumError::InvalidTokenAccount)
        } else {
            Ok(
                accounts.update(
                    0,
                    spec_with_prefix(
                        accounts[0],
                        spec_pack_token_account(TokenAccountView { is_frozen: frozen, ..acct }),
                    ),
                ),
            )
        }
    }
}

/// Intended outcome of one whole call: decode `input` as an instruction
/// (anything malformed is `InvalidInstruction`) and route it to the one
/// handler its variant selects.
pub open spec fn spec_process_instruction(
    accounts: Seq<AccountHandleView>,
    input: Seq<u8>,
    program_id: Seq<u8>,
) -> Result<Seq<AccountHandleView>, CobotiumError> {
    match spec_unpack_instruction(input) {
        None => Err(CobotiumError::InvalidInstruction),
        Some(inst) => match inst {
            CobotiumInstructionView::InitializeMint { decimals, freeze_authority } => {
                spec_initialize_mint(accounts, decimals, freeze_authority, program_id)
            },
            CobotiumInstructionView::InitializeAccount => {
                spec_initialize_account(accounts, program_id)
            },
            CobotiumInstructionView::MintTo { amount } => {
                spec_mint_to(accounts, amount, program_id)
            },
            CobotiumInstructionView::Transfer { amount } => {
                spec_transfer(accounts, amount, program_id)
            },
            CobotiumInstructionView::Burn { amount } => spec_burn(accounts, amount, program_id),
            CobotiumInstructionView::FreezeAccount => spec_set_freeze(accounts, true, program_id),
            CobotiumInstructionView::ThawAccount => spec_set_freeze(accounts, false, program_id),
        },
    }
}

impl Processor {
    /// Decode `input` and apply the resulting instruction to `accounts`,
    /// exactly as [`spec_process_instruction`] prescribes: on success the
    /// touched buffers hold the instruction's whole effect, and on error
    /// every account is byte-for-byte unchanged.
    pub fn process_instruction(
        program_id: &Pubkey,
        accounts: &mut Vec<AccountHandle>,
        input: &[u8],
    ) -> (r: Result<(), CobotiumError>)
        ensures
            match spec_process_instruction(handle_views(old(accounts)@), input@, program_id@) {
                Ok(s) => r is Ok && handle_views(final(accounts)@) == s,
                Err(e) => r == Err::<(), CobotiumError>(e) && final(accounts)@ == old(accounts)@,
            },
    {
        let instruction = match CobotiumInstruction::unpack(input) {
            Ok(i) => i,
            Err(e) => {
                return Err(e);
            },
        };
        match instruction {
            CobotiumInstruction::InitializeMint { decimals, freeze_authority } => {
                Self::process_initialize_mint(accounts, decimals, freeze_authority, program_id)
            },
            CobotiumInstruction::InitializeAccount => {
                Self::process_initialize_account(accounts, program_id)
            },
            CobotiumInstruction::MintTo { amount } => {
                Self::process_mint_to(accounts, amount, program_id)
            },
            CobotiumInstruction::Transfer { amount } => {
                Self::process_transfer(accounts, amount, program_id)
            },
            CobotiumInstruction::Burn { amount } => Self::process_burn(accounts, amount, program_id),
            CobotiumInstruction::FreezeAccount => {
                Self::process_set_freeze(accounts, true, program_id)
            },
            CobotiumInstruction::ThawAccount => {
                Self::process_set_freeze(accounts, false, program_id)
            },
        }
    }

    /// Populate a fresh mint buffer, exactly as [`spec_initialize_mint`]
    /// prescribes: on success the buffer holds the new record and every
    /// other account is untouched; on error nothing changes.
    pub fn process_initialize_mint(
        accounts: &mut Vec<AccountHandle>,
        decimals: u8,
        freeze_authority: Option<Pubkey>,
        program_id: &Pubkey,
    ) -> (r: Result<(), CobotiumError>)
        ensures
            match spec_initialize_mint(
                handle_views(old(accounts)@),
                decimals,
                spec_opt_key(freeze_authority),
                program_id@,
            ) {
                Ok(s) => r is Ok && handle_views(final(accounts)@) == s,
                Err(e) => r == Err::<(), CobotiumError>(e) && final(accounts)@ == old(accounts)@,
            },
    {
        let needed: usize = if freeze_authority.is_some() {
            3
        } else {
            2
        };
        if accounts.len() < needed {
            return Err(CobotiumError::InvalidInstruction);
        }
        if !(accounts[0].owner == *program_id) {
            return Err(CobotiumError::IncorrectOwner);
        }
        if !accounts[0].is_rent_exempt {
            return Err(CobotiumError::NotRentExempt);
        }
        let stored = match Mint::unpack_from_slice(accounts[0].data.as_slice()) {
            Ok(m) => m,
            Err(e) => {
                return Err(e);
            },
        };
        if stored.is_initialized {
            return Err(CobotiumError::AlreadyInitialized);
        }
        if decimals > MAX_DECIMALS {
            return Err(CobotiumError::InvalidArgument);
        }
        if !accounts[1].is_signer {
            return Err(CobotiumError::MissingRequiredSignature);
        }
        if let Some(fk) = &freeze_authority {
            if !(*fk == accounts[2].key) {
                return Err(CobotiumError::InvalidMintAuthority);
            }
            if !accounts[2].is_signer {
                return Err(CobotiumError::MissingRequiredSignature);
            }
        }
        let mint = Mint {
            is_initialized: true,
            decimals,
            mint_authority: accounts[1].key,
            freeze_authority,
            supply: 0,
        };
        let packed = mint.pack();
        proof {
            assert(mint@ =~= spec_initialized_mint(
                handle_views(accounts@),
                decimals,
                spec_opt_key(freeze_authority),
            ));
        }
        let mint_h = &mut accounts[0];
        mint_h.write_prefix(&packed);
        proof {
            lemma_handle_views_update(old(accounts)@, 0, accounts@[0]);
            assert(accounts@ =~= old(accounts)@.update(0, accounts@[0]));
        }
        Ok(())
    }

    /// Populate a fresh token account buffer, exactly as
    /// [`spec_initialize_account`] prescribes.
    pub fn process_initialize_account(
        accounts: &mut Vec<AccountHandle>,
        program_id: &Pubkey,
    ) -> (r: Result<(), CobotiumError>)
        ensures
            match spec_initialize_account(handle_views(old(accounts)@), program_id@) {
                Ok(s) => r is Ok && handle_views(final(accounts)@) == s,
                Err(e) => r == Err::<(), CobotiumError>(e) && final(accounts)@ == old(accounts)@,
            },
    {
        if accounts.len() < 3 {
            return Err(CobotiumError::InvalidInstruction);
        }
        if !(accounts[0].owner == *program_id) || !(accounts[1].owner == *program_id) {
            return Err(CobotiumError::IncorrectOwner);
        }
        if !accounts[0].is_rent_exempt {
            return Err(CobotiumError::NotRentExempt);
        }
        let stored = match TokenAccount::unpack_from_slice(accounts[0].data.as_slice()) {
            Ok(a) => a,
            Err(e) => {
                return Err(e);
            },
        };
        if stored.is_initialized {
            return Err(CobotiumError::AlreadyInitialized);
        }
        let mint = match Mint::unpack_from_slice(accounts[1].data.as_slice()) {
            Ok(m) => m,
            Err(e) => {
                return Err(e);
            },
        };
        if !mint.is_initialized {
            return Err(CobotiumError::UninitializedAccount);
        }
        if !accounts[2].is_signer {
            return Err(CobotiumError::MissingRequiredSignature);
        }
        let account = TokenAccount {
            is_initialized: true,
            mint: accounts[1].key,
            owner: accounts[2].key,
            amount: 0,
            is_frozen: false,
        };
        let packed = account.pack();
        proof {
            assert(account@ =~= spec_initialized_token_account(handle_views(accounts@)));
        }
        let account_h = &mut accounts[0];
        account_h.write_prefix(&packed);
        proof {
            lemma_handle_views_update(old(accounts)@, 0, accounts@[0]);
            assert(accounts@ =~= old(accounts)@.update(0, accounts@[0]));
        }
        Ok(())
    }

    /// Create `amount` new tokens in the destination account, exactly as
    /// [`spec_mint_to`] prescribes: both the supply and the destination
    /// balance grow by `amount`, with both checked additions validated
    /// before either buffer is written.
    pub fn process_mint_to(
        accounts: &mut Vec<AccountHandle>,
        amount: u64,
        program_id: &Pubkey,
    ) -> (r: Result<(), CobotiumError>)
        ensures
            match spec_mint_to(handle_views(old(accounts)@), amount, program_id@) {
                Ok(s) => r is Ok && handle_views(final(accounts)@) == s,
                Err(e) => r == Err::<(), CobotiumError>(e) && final(accounts)@ == old(accounts)@,
            },
    {
        if accounts.len() < 3 {
            return Err(CobotiumError::InvalidInstruction);
        }
        if amount == 0 {
            return Err(CobotiumError::InvalidArgument);
        }
        if !(accounts[0].owner == *program_id) || !(accounts[1].owner == *program_id) {
            return Err(CobotiumError::IncorrectOwner);
        }
        let mut mint = match Mint::unpack_from_slice(accounts[0].data.as_slice()) {
            Ok(m) => m,
            Err(e) => {
                return Err(e);
            },
        };
        let mut dest = match TokenAccount::unpack_from_slice(accounts[1].data.as_slice()) {
            Ok(a) => a,
            Err(e) => {
                return Err(e);
            },
        };
        if !mint.is_initialized || !dest.is_initialized {
            return Err(CobotiumError::UninitializedAccount);
        }
        if !accounts[2].is_signer {
            return Err(CobotiumError::MissingRequiredSignature);
        }
        if !(mint.mint_authority == accounts[2].key) {
            return Err(CobotiumError::InvalidMintAuthority);
        }
        if !(dest.mint == accounts[0].key) {
            return Err(CobotiumError::InvalidTokenAccount);
        }
        if dest.is_frozen {
            return Err(CobotiumError::AccountFrozen);
        }
        if amount > u64::MAX - dest.amount || amount > u64::MAX - mint.supply {
            return Err(CobotiumError::Overflow);
        }
        dest.amount = dest.amount + amount;
        mint.supply = mint.supply + amount;
        let packed_mint = mint.pack();
        let packed_dest = dest.pack();
        let mint_h = &mut accounts[0];
        mint_h.write_prefix(&packed_mint);
        let dest_h = &mut accounts[1];
        dest_h.write_prefix(&packed_dest);
        proof {
            let mid = old(accounts)@.update(0, accounts@[0]);
            lemma_handle_views_update(old(accounts)@, 0, accounts@[0]);
            lemma_handle_views_update(mid, 1, accounts@[1]);
            assert(accounts@ =~= mid.update(1, accounts@[1]));
            assert(handle_views(accounts@) =~= spec_mint_to(
                handle_views(old(accounts)@),
                amount,
                program_id@,
            )->Ok_0);
        }
        Ok(())
    }

    /// Move `amount` tokens from the source account to the destination
    /// account, exactly as [`spec_transfer`] prescribes: the sum of the
    /// two balances is unchanged, and a transfer of an account to itself
    /// is legal but leaves the buffer untouched.
    pub fn process_transfer(
        accounts: &mut Vec<AccountHandle>,
        amount: u64,
        program_id: &Pubkey,
    ) -> (r: Result<(), CobotiumError>)
        ensures
            match spec_transfer(handle_views(old(accounts)@), amount, program_id@) {
                Ok(s) => r is Ok && handle_views(final(accounts)@) == s,
                Err(e) => r == Err::<(), CobotiumError>(e) && final(accounts)@ == old(accounts)@,
            },
    {
        if accounts.len() < 3 {
            return Err(CobotiumError::InvalidInstruction);
        }
        if !(accounts[0].owner == *program_id) || !(accounts[1].owner == *program_id) {
            return Err(CobotiumError::IncorrectOwner);
        }
        let mut src = match TokenAccount::unpack_from_slice(accounts[0].data.as_slice()) {
            Ok(a) => a,
            Err(e) => {
                return Err(e);
            },
        };
        let mut dst = match TokenAccount::unpack_from_slice(accounts[1].data.as_slice()) {
            Ok(a) => a,
            Err(e) => {
                return Err(e);
            },
        };
        if !src.is_initialized || !dst.is_initialized {
            return Err(CobotiumError::UninitializedAccount);
        }
        if !accounts[2].is_signer {
            return Err(CobotiumError::MissingRequiredSignature);
        }
        if !(src.owner == accounts[2].key) {
            return Err(CobotiumError::IncorrectOwner);
        }
        if !(src.mint == dst.mint) {
            return Err(CobotiumError::InvalidTokenAccount);
        }
        if src.is_frozen || dst.is_frozen {
            return Err(CobotiumError::AccountFrozen);
        }
        if src.amount < amount {
            return Err(CobotiumError::InsufficientFunds);
        }
        if accounts[0].key == accounts[1].key {
            return Ok(());
        }
        if amount > u64::MAX - dst.amount {
            return Err(CobotiumError::Overflow);
        }
        src.amount = src.amount - amount;
        dst.amount = dst.amount + amount;
        let packed_src = src.pack();
        let packed_dst = dst.pack();
        let src_h = &mut accounts[0];
        src_h.write_prefix(&packed_src);
        let dst_h = &mut accounts[1];
        dst_h.write_prefix(&packed_dst);
        proof {
            let mid = old(accounts)@.update(0, accounts@[0]);
            lemma_handle_views_update(old(accounts)@, 0, accounts@[0]);
            lemma_handle_views_update(mid, 1, accounts@[1]);
            assert(accounts@ =~= mid.update(1, accounts@[1]));
            assert(handle_views(accounts@) =~= spec_transfer(
                handle_views(old(accounts)@),
                amount,
                program_id@,
            )->Ok_0);
        }
        Ok(())
    }

    /// Destroy `amount` tokens held by the account, exactly as
    /// [`spec_burn`] prescribes: the balance and the supply both shrink by
    /// `amount`, with both checked subtractions validated before either
    /// buffer is written.
    pub fn process_burn(
        accounts: &mut Vec<AccountHandle>,
        amount: u64,
        program_id: &Pubkey,
    ) -> (r: Result<(), CobotiumError>)
        ensures
            match spec_burn(handle_views(old(accounts)@), amount, program_id@) {
                Ok(s) => r is Ok && handle_views(final(accounts)@) == s,
                Err(e) => r == Err::<(), CobotiumError>(e) && final(accounts)@ == old(accounts)@,
            },
    {
        if accounts.len() < 3 {
            return Err(CobotiumError::InvalidInstruction);
        }
        if !(accounts[0].owner == *program_id) || !(accounts[1].owner == *program_id) {
            return Err(CobotiumError::IncorrectOwner);
        }
        let mut acct = match TokenAccount::unpack_from_slice(accounts[0].data.as_slice()) {
            Ok(a) => a,
            Err(e) => {
                return Err(e);
            },
        };
        let mut mint = match Mint::unpack_from_slice(accounts[1].data.as_slice()) {
            Ok(m) => m,
            Err(e) => {
                return Err(e);
            },
        };
        if !acct.is_initialized || !mint.is_initialized {
            return Err(CobotiumError::UninitializedAccount);
        }
        if !accounts[2].is_signer {
            return Err(CobotiumError::MissingRequiredSignature);
        }
        if !(acct.owner == accounts[2].key) {
            return Err(CobotiumError::IncorrectOwner);
        }
        if !(acct.mint == accounts[1].key) {
            return Err(CobotiumError::InvalidTokenAccount);
        }
        if acct.is_frozen {
            return Err(CobotiumError::AccountFrozen);
        }
        if acct.amount < amount {
            return Err(CobotiumError::InsufficientFunds);
        }
        if mint.supply < amount {
            return Err(CobotiumError::Overflow);
        }
        acct.amount = acct.amount - amount;
        mint.supply = mint.supply - amount;
        let packed_acct = acct.pack();
        let packed_mint = mint.pack();
        let acct_h = &mut accounts[0];
        acct_h.write_prefix(&packed_acct);
        let mint_h = &mut accounts[1];
        mint_h.write_prefix(&packed_mint);
        proof {
            let mid = old(accounts)@.update(0, accounts@[0]);
            lemma_handle_views_update(old(accounts)@, 0, accounts@[0]);
            lemma_handle_views_update(mid, 1, accounts@[1]);
            assert(accounts@ =~= mid.update(1, accounts@[1]));
            assert(handle_views(accounts@) =~= spec_burn(
                handle_views(old(accounts)@),
                amount,
                program_id@,
            )->Ok_0);
        }
        Ok(())
    }

    /// Set or clear the account's frozen flag, exactly as
    /// [`spec_set_freeze`] prescribes. Setting the flag to the value it
    /// already has succeeds and leaves the buffer byte-for-byte unchanged.
    fn process_set_freeze(
        accounts: &mut Vec<AccountHandle>,
        frozen: bool,
        program_id: &Pubkey,
    ) -> (r: Result<(), CobotiumError>)
        ensures
            match spec_set_freeze(handle_views(old(accounts)@), frozen, program_id@) {
                Ok(s) => r is Ok && handle_views(final(accounts)@) == s,
                Err(e) => r == Err::<(), CobotiumError>(e) && final(accounts)@ == old(accounts)@,
            },
    {
        if accounts.len() < 3 {
            return Err(CobotiumError::InvalidInstruction);
        }
        if !(accounts[0].owner == *program_id) || !(accounts[1].owner == *program_id) {
            return Err(CobotiumError::IncorrectOwner);
        }
        let mut acct = match TokenAccount::unpack_from_slice(accounts[0].data.as_slice()) {
            Ok(a) => a,
            Err(e) => {
                return Err(e);
            },
        };
        let mint = match Mint::unpack_from_slice(accounts[1].data.as_slice()) {
            Ok(m) => m,
            Err(e) => {
                return Err(e);
            },
        };
        if !acct.is_initialized || !mint.is_initialized {
            return Err(CobotiumError::UninitializedAccount);
        }
        let freeze_key = match &mint.freeze_authority {
            Some(k) => *k,
            None => {
                return Err(CobotiumError::InvalidMintAuthority);
            },
        };
        if !accounts[2].is_signer {
            return Err(CobotiumError::MissingRequiredSignature);
        }
        if !(freeze_key == accounts[2].key) {
            return Err(CobotiumError::InvalidMintAuthority);
        }
        if !(acct.mint == accounts[1].key) {
            return Err(CobotiumError::InvalidTokenAccount);
        }
        acct.is_frozen = frozen;
        let packed = acct.pack();
        let acct_h = &mut accounts[0];
        acct_h.write_prefix(&packed);
        proof {
            lemma_handle_views_update(old(accounts)@, 0, accounts@[0]);
            assert(accounts@ =~= old(accounts)@.update(0, accounts@[0]));
            assert(handle_views(accounts@) =~= spec_set_freeze(
                handle_views(old(accounts)@),
                frozen,
                program_id@,
            )->Ok_0);
        }
        Ok(())
    }

    /// Freeze the account: deposits into it, transfers touching it and
    /// burns from it are rejected until it is thawed. Freezing an already
    /// frozen account succeeds and changes nothing.
    pub fn process_freeze_account(
        accounts: &mut Vec<AccountHandle>,
        program_id: &Pubkey,
    ) -> (r: Result<(), CobotiumError>)
        ensures
            match spec_set_freeze(handle_views(old(accounts)@), true, program_id@) {
                Ok(s) => r is Ok && handle_views(final(accounts)@) == s,
                Err(e) => r == Err::<(), CobotiumError>(e) && final(accounts)@ == old(accounts)@,
            },
    {
        Self::process_set_freeze(accounts, true, program_id)
    }

    /// Thaw the account: clear its frozen flag. Thawing an account that is
    /// not frozen succeeds and changes nothing.
    pub fn process_thaw_account(
        accounts: &mut Vec<AccountHandle>,
        program_id: &Pubkey,
    ) -> (r: Result<(), CobotiumError>)
        ensures
            match spec_set_freeze(handle_views(old(accounts)@), false, program_id@) {
                Ok(s) => r is Ok && handle_views(final(accounts)@) == s,
                Err(e) => r == Err::<(), CobotiumError>(e) && final(accounts)@ == old(accounts)@,
            },
    {
        Self::process_set_freeze(accounts, false, program_id)
    }
}

/// Decode `input` and apply the resulting instruction to `accounts`:
/// the module-level entry point, routing through
/// [`Processor::process_instruction`].
pub fn process_instruction(
    program_id: &Pubkey,
    accounts: &mut Vec<AccountHandle>,
    input: &[u8],
) -> (r: Result<(), CobotiumError>)
    ensures
        match spec_process_instruction(handle_views(old(accounts)@), input@, program_id@) {
            Ok(s) => r is Ok && handle_views(final(accounts)@) == s,
            Err(e) => r == Err::<(), CobotiumError>(e) && final(accounts)@ == old(accounts)@,
        },
{
    Processor::process_instruction(program_id, accounts, input)
}

} // verus!
