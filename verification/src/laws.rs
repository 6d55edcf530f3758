//! The accounting laws of the processor, stated once over the handler
//! outcome functions and proved for every input.
//!
//! Each law speaks about [`crate::processor`]'s spec functions; the
//! handlers' own contracts tie those functions to the executable code, so
//! whatever holds here holds of every call. In particular, every handler's
//! contract already pins the failure side — an error leaves every buffer
//! byte-for-byte unchanged — so the laws here concentrate on what success
//! implies and on when success is impossible.

use vstd::prelude::*;

use crate::account::AccountHandleView;
use crate::error::CobotiumError;
use crate::processor::{
    spec_burn, spec_initialize_mint, spec_initialized_mint, spec_mint_to, spec_set_freeze,
    spec_transfer,
};
use crate::state::{
    lemma_mint_pack_unpack, lemma_mint_unpack_pack, lemma_token_account_pack_unpack,
    lemma_token_account_unpack_pack, spec_pack_mint, spec_pack_token_account, spec_unpack_mint,
    spec_unpack_token_account, MintView,
    TokenAccountView, MINT_LEN, TOKEN_ACCOUNT_LEN,
};

verus! {

/// A transfer conserves the closed system: on success the source and
/// destination balances still sum to what they summed to before — also
/// when source and destination are the same account — and success is
/// impossible when the source balance is below the transferred amount.
pub proof fn lemma_transfer_conserves_total(
    accounts: Seq<AccountHandleView>,
    amount: u64,
    program_id: Seq<u8>,
)
    requires
        spec_transfer(accounts, amount, program_id) is Ok,
    ensures
        ({
            let s = spec_transfer(accounts, amount, program_id)->Ok_0;
            let src0 = spec_unpack_token_account(accounts[0].data)->Some_0;
            let dst0 = spec_unpack_token_account(accounts[1].data)->Some_0;
            &&& amount <= src0.amount
            &&& spec_unpack_token_account(s[0].data) is Some
            &&& spec_unpack_token_account(s[1].data) is Some
            &&& spec_unpack_token_account(s[0].data)->Some_0.amount + spec_unpack_token_account(
                s[1].data,
            )->Some_0.amount == src0.amount + dst0.amount
            &&& accounts[0].key == accounts[1].key ==> s == accounts
            &&& accounts[0].key != accounts[1].key ==> spec_unpack_token_account(
                s[0].data,
            )->Some_0 == (TokenAccountView { amount: (src0.amount - amount) as u64, ..src0 })
                && spec_unpack_token_account(s[1].data)->Some_0 == (TokenAccountView {
                amount: (dst0.amount + amount) as u64,
                ..dst0
            })
        }),
{
    let s = spec_transfer(accounts, amount, program_id)->Ok_0;
    let src0 = spec_unpack_token_account(accounts[0].data)->Some_0;
    let dst0 = spec_unpack_token_account(accounts[1].data)->Some_0;
    if accounts[0].key == accounts[1].key {
        assert(s == accounts);
    } else {
        let src1 = TokenAccountView { amount: (src0.amount - amount) as u64, ..src0 };
        let dst1 = TokenAccountView { amount: (dst0.amount + amount) as u64, ..dst0 };
        lemma_token_account_unpack_pack(accounts[0].data);
        lemma_token_account_unpack_pack(accounts[1].data);
        vstd::bytes::lemma_auto_spec_u64_to_from_le_bytes();
        assert(spec_pack_token_account(src1).len() == TOKEN_ACCOUNT_LEN);
        assert(spec_pack_token_account(dst1).len() == TOKEN_ACCOUNT_LEN);
        lemma_token_account_pack_unpack(
            src1,
            accounts[0].data.skip(TOKEN_ACCOUNT_LEN as int),
        );
        lemma_token_account_pack_unpack(
            dst1,
            accounts[1].data.skip(TOKEN_ACCOUNT_LEN as int),
        );
    }
}

/// Minting is checked arithmetic: success is possible only when neither
/// the destination balance nor the supply would wrap, and then both grow
/// by exactly the minted amount.
pub proof fn lemma_mint_to_checked(
    accounts: Seq<AccountHandleView>,
    amount: u64,
    program_id: Seq<u8>,
)
    requires
        spec_mint_to(accounts, amount, program_id) is Ok,
    ensures
        ({
            let s = spec_mint_to(accounts, amount, program_id)->Ok_0;
            let mint0 = spec_unpack_mint(accounts[0].data)->Some_0;
            let dest0 = spec_unpack_token_account(accounts[1].data)->Some_0;
            &&& mint0.supply + amount <= u64::MAX
            &&& dest0.amount + amount <= u64::MAX
            &&& spec_unpack_mint(s[0].data) is Some
            &&& spec_unpack_token_account(s[1].data) is Some
            &&& spec_unpack_mint(s[0].data)->Some_0 == (MintView {
                supply: (mint0.supply + amount) as u64,
                ..mint0
            })
            &&& spec_unpack_token_account(s[1].data)->Some_0 == (TokenAccountView {
                amount: (dest0.amount + amount) as u64,
                ..dest0
            })
        }),
{
    let mint0 = spec_unpack_mint(accounts[0].data)->Some_0;
    let dest0 = spec_unpack_token_account(accounts[1].data)->Some_0;
    let mint1 = MintView { supply: (mint0.supply + amount) as u64, ..mint0 };
    let dest1 = TokenAccountView { amount: (dest0.amount + amount) as u64, ..dest0 };
    lemma_mint_unpack_pack(accounts[0].data);
    lemma_token_account_unpack_pack(accounts[1].data);
    lemma_mint_pack_unpack(mint1, accounts[0].data.skip(MINT_LEN as int));
    lemma_token_account_pack_unpack(dest1, accounts[1].data.skip(TOKEN_ACCOUNT_LEN as int));
    vstd::bytes::lemma_auto_spec_u64_to_from_le_bytes();
    assert(spec_pack_mint(mint1).len() == MINT_LEN);
    assert(spec_pack_token_account(dest1).len() == TOKEN_ACCOUNT_LEN);
}

/// Feeding the largest possible amount to `MintTo` on a mint whose supply
/// is nonzero reports `Overflow`: with every other precondition met, the
/// checked additions are what decides.
pub proof fn lemma_mint_to_max_amount_overflows(
    accounts: Seq<AccountHandleView>,
    program_id: Seq<u8>,
)
    requires
        accounts.len() >= 3,
        accounts[0].owner == program_id,
        accounts[1].owner == program_id,
        spec_unpack_mint(accounts[0].data) is Some,
        spec_unpack_token_account(accounts[1].data) is Some,
        spec_unpack_mint(accounts[0].data)->Some_0.is_initialized,
        spec_unpack_token_account(accounts[1].data)->Some_0.is_initialized,
        accounts[2].is_signer,
        spec_unpack_mint(accounts[0].data)->Some_0.mint_authority == accounts[2].key,
        spec_unpack_token_account(accounts[1].data)->Some_0.mint == accounts[0].key,
        !spec_unpack_token_account(accounts[1].data)->Some_0.is_frozen,
        spec_unpack_mint(accounts[0].data)->Some_0.supply != 0,
    ensures
        spec_mint_to(accounts, u64::MAX, program_id) == Err::<
            Seq<AccountHandleView>,
            CobotiumError,
        >(CobotiumError::Overflow),
{
}

/// Burning is checked arithmetic: success is possible only when neither
/// the balance nor the supply would go negative, and then both shrink by
/// exactly the burned amount.
pub proof fn lemma_burn_checked(accounts: Seq<AccountHandleView>, amount: u64, program_id: Seq<u8>)
    requires
        spec_burn(accounts, amount, program_id) is Ok,
    ensures
        ({
            let s = spec_burn(accounts, amount, program_id)->Ok_0;
            let acct0 = spec_unpack_token_account(accounts[0].data)->Some_0;
            let mint0 = spec_unpack_mint(accounts[1].data)->Some_0;
            &&& amount <= acct0.amount
            &&& amount <= mint0.supply
            &&& spec_unpack_token_account(s[0].data) is Some
            &&& spec_unpack_mint(s[1].data) is Some
            &&& spec_unpack_token_account(s[0].data)->Some_0 == (TokenAccountView {
                amount: (acct0.amount - amount) as u64,
                ..acct0
            })
            &&& spec_unpack_mint(s[1].data)->Some_0 == (MintView {
                supply: (mint0.supply - amount) as u64,
                ..mint0
            })
        }),
{
    let acct0 = spec_unpack_token_account(accounts[0].data)->Some_0;
    let mint0 = spec_unpack_mint(accounts[1].data)->Some_0;
    let acct1 = TokenAccountView { amount: (acct0.amount - amount) as u64, ..acct0 };
    let mint1 = MintView { supply: (mint0.supply - amount) as u64, ..mint0 };
    lemma_token_account_unpack_pack(accounts[0].data);
    lemma_mint_unpack_pack(accounts[1].data);
    lemma_token_account_pack_unpack(acct1, accounts[0].data.skip(TOKEN_ACCOUNT_LEN as int));
    lemma_mint_pack_unpack(mint1, accounts[1].data.skip(MINT_LEN as int));
    vstd::bytes::lemma_auto_spec_u64_to_from_le_bytes();
    assert(spec_pack_token_account(acct1).len() == TOKEN_ACCOUNT_LEN);
    assert(spec_pack_mint(mint1).len() == MINT_LEN);
}

/// Re-freezing is idempotent: freezing an account that is already frozen
/// (or thawing one that is not) succeeds and returns the account list
/// byte-for-byte unchanged.
pub proof fn lemma_set_freeze_idempotent(
    accounts: Seq<AccountHandleView>,
    frozen: bool,
    program_id: Seq<u8>,
)
    requires
        spec_set_freeze(accounts, frozen, program_id) is Ok,
        spec_unpack_token_account(accounts[0].data)->Some_0.is_frozen == frozen,
    ensures
        spec_set_freeze(accounts, frozen, program_id) == Ok::<
            Seq<AccountHandleView>,
            CobotiumError,
        >(accounts),
{
    let acct0 = spec_unpack_token_account(accounts[0].data)->Some_0;
    lemma_token_account_unpack_pack(accounts[0].data);
    assert(TokenAccountView { is_frozen: frozen, ..acct0 } =~= acct0);
    vstd::bytes::lemma_auto_spec_u64_to_from_le_bytes();
    assert(spec_pack_token_account(acct0).len() == TOKEN_ACCOUNT_LEN);
    assert(spec_pack_token_account(acct0) + accounts[0].data.skip(TOKEN_ACCOUNT_LEN as int)
        =~= accounts[0].data);
    assert(crate::account::spec_with_prefix(accounts[0], spec_pack_token_account(acct0))
        =~= accounts[0]);
    assert(accounts.update(
        0,
        crate::account::spec_with_prefix(accounts[0], spec_pack_token_account(acct0)),
    ) =~= accounts);
}

/// Freezing and thawing gate balances but never touch them: on success
/// the account record changes in its frozen flag alone.
pub proof fn lemma_set_freeze_keeps_balance(
    accounts: Seq<AccountHandleView>,
    frozen: bool,
    program_id: Seq<u8>,
)
    requires
        spec_set_freeze(accounts, frozen, program_id) is Ok,
    ensures
        ({
            let s = spec_set_freeze(accounts, frozen, program_id)->Ok_0;
            let acct0 = spec_unpack_token_account(accounts[0].data)->Some_0;
            &&& spec_unpack_token_account(s[0].data) is Some
            &&& spec_unpack_token_account(s[0].data)->Some_0 == (TokenAccountView {
                is_frozen: frozen,
                ..acct0
            })
        }),
{
    let acct0 = spec_unpack_token_account(accounts[0].data)->Some_0;
    let acct1 = TokenAccountView { is_frozen: frozen, ..acct0 };
    lemma_token_account_unpack_pack(accounts[0].data);
    lemma_token_account_pack_unpack(acct1, accounts[0].data.skip(TOKEN_ACCOUNT_LEN as int));
    vstd::bytes::lemma_auto_spec_u64_to_from_le_bytes();
    assert(spec_pack_token_account(acct1).len() == TOKEN_ACCOUNT_LEN);
}

/// A frozen destination blocks minting: with every earlier precondition
/// met, `MintTo` into a frozen account reports `AccountFrozen` (and the
/// handler contract then leaves every buffer unchanged).
pub proof fn lemma_frozen_blocks_mint_to(
    accounts: Seq<AccountHandleView>,
    amount: u64,
    program_id: Seq<u8>,
)
    requires
        accounts.len() >= 3,
        amount != 0,
        accounts[0].owner == program_id,
        accounts[1].owner == program_id,
        spec_unpack_mint(accounts[0].data) is Some,
        spec_unpack_token_account(accounts[1].data) is Some,
        spec_unpack_mint(accounts[0].data)->Some_0.is_initialized,
        spec_unpack_token_account(accounts[1].data)->Some_0.is_initialized,
        accounts[2].is_signer,
        spec_unpack_mint(accounts[0].data)->Some_0.mint_authority == accounts[2].key,
        spec_unpack_token_account(accounts[1].data)->Some_0.mint == accounts[0].key,
        spec_unpack_token_account(accounts[1].data)->Some_0.is_frozen,
    ensures
        spec_mint_to(accounts, amount, program_id) == Err::<
            Seq<AccountHandleView>,
            CobotiumError,
        >(CobotiumError::AccountFrozen),
{
}

/// A frozen endpoint blocks transfers: with every earlier precondition
/// met, a transfer touching a frozen source or a frozen destination
/// reports `AccountFrozen`.
pub proof fn lemma_frozen_blocks_transfer(
    accounts: Seq<AccountHandleView>,
    amount: u64,
    program_id: Seq<u8>,
)
    requires
        accounts.len() >= 3,
        accounts[0].owner == program_id,
        accounts[1].owner == program_id,
        spec_unpack_token_account(accounts[0].data) is Some,
        spec_unpack_token_account(accounts[1].data) is Some,
        spec_unpack_token_account(accounts[0].data)->Some_0.is_initialized,
        spec_unpack_token_account(accounts[1].data)->Some_0.is_initialized,
        accounts[2].is_signer,
        spec_unpack_token_account(accounts[0].data)->Some_0.owner == accounts[2].key,
        spec_unpack_token_account(accounts[0].data)->Some_0.mint == spec_unpack_token_account(
            accounts[1].data,
        )->Some_0.mint,
        spec_unpack_token_account(accounts[0].data)->Some_0.is_frozen
            || spec_unpack_token_account(accounts[1].data)->Some_0.is_frozen,
    ensures
        spec_transfer(accounts, amount, program_id) == Err::<
            Seq<AccountHandleView>,
            CobotiumError,
        >(CobotiumError::AccountFrozen),
{
}

/// A frozen account blocks burning: with every earlier precondition met,
/// `Burn` from a frozen account reports `AccountFrozen`.
pub proof fn lemma_frozen_blocks_burn(
    accounts: Seq<AccountHandleView>,
    amount: u64,
    program_id: Seq<u8>,
)
    requires
        accounts.len() >= 3,
        accounts[0].owner == program_id,
        accounts[1].owner == program_id,
        spec_unpack_token_account(accounts[0].data) is Some,
        spec_unpack_mint(accounts[1].data) is Some,
        spec_unpack_token_account(accounts[0].data)->Some_0.is_initialized,
        spec_unpack_mint(accounts[1].data)->Some_0.is_initialized,
        accounts[2].is_signer,
        spec_unpack_token_account(accounts[0].data)->Some_0.owner == accounts[2].key,
        spec_unpack_token_account(accounts[0].data)->Some_0.mint == accounts[1].key,
        spec_unpack_token_account(accounts[0].data)->Some_0.is_frozen,
    ensures
        spec_burn(accounts, amount, program_id) == Err::<
            Seq<AccountHandleView>,
            CobotiumError,
        >(CobotiumError::AccountFrozen),
{
}

/// Initializing a mint is not repeatable: whatever arguments the second
/// call carries, running `InitializeMint` on a buffer that a first call
/// populated reports `AlreadyInitialized`, and the handler contract then
/// leaves the first initialization's bytes untouched.
pub proof fn lemma_initialize_mint_rejects_reinit(
    accounts: Seq<AccountHandleView>,
    decimals1: u8,
    freeze1: Option<Seq<u8>>,
    decimals2: u8,
    freeze2: Option<Seq<u8>>,
    program_id: Seq<u8>,
)
    requires
        spec_initialize_mint(accounts, decimals1, freeze1, program_id) is Ok,
        accounts[1].key.len() == 32,
        freeze1 is Some ==> freeze1->0.len() == 32,
        freeze2 is Some ==> accounts.len() >= 3,
    ensures
        spec_initialize_mint(
            spec_initialize_mint(accounts, decimals1, freeze1, program_id)->Ok_0,
            decimals2,
            freeze2,
            program_id,
        ) == Err::<Seq<AccountHandleView>, CobotiumError>(CobotiumError::AlreadyInitialized),
{
    let s = spec_initialize_mint(accounts, decimals1, freeze1, program_id)->Ok_0;
    let m = spec_initialized_mint(accounts, decimals1, freeze1);
    lemma_mint_pack_unpack(m, accounts[0].data.skip(spec_pack_mint(m).len() as int));
    assert(s[0].data == spec_pack_mint(m) + accounts[0].data.skip(spec_pack_mint(m).len() as int));
    assert(spec_unpack_mint(s[0].data) == Some(m));
}

/// The contribution of one token account record to a mint's summed
/// balances: its amount when it is an initialized account of that mint,
/// nothing otherwise.
pub open spec fn spec_balance_contribution(a: TokenAccountView, mint_key: Seq<u8>) -> int {
    if a.is_initialized && a.mint == mint_key {
        a.amount as int
    } else {
        0
    }
}

/// The summed balances that a ledger of token account records holds of
/// one mint.
pub open spec fn spec_total_balance(ledger: Seq<TokenAccountView>, mint_key: Seq<u8>) -> int
    decreases ledger.len(),
{
    if ledger.len() == 0 {
        0
    } else {
        spec_total_balance(ledger.drop_last(), mint_key) + spec_balance_contribution(
            ledger.last(),
            mint_key,
        )
    }
}

/// Replacing one ledger entry moves the total by the difference of the
/// two entries' contributions.
pub proof fn lemma_total_balance_update(
    ledger: Seq<TokenAccountView>,
    i: int,
    a: TokenAccountView,
    mint_key: Seq<u8>,
)
    requires
        0 <= i < ledger.len(),
    ensures
        spec_total_balance(ledger.update(i, a), mint_key) == spec_total_balance(ledger, mint_key)
            - spec_balance_contribution(ledger[i], mint_key) + spec_balance_contribution(
            a,
            mint_key,
        ),
    decreases ledger.len(),
{
    let u = ledger.update(i, a);
    if i == ledger.len() - 1 {
        assert(u.drop_last() =~= ledger.drop_last());
    } else {
        lemma_total_balance_update(ledger.drop_last(), i, a, mint_key);
        assert(u.drop_last() =~= ledger.drop_last().update(i, a));
        assert(u.last() == ledger.last());
    }
}

/// Conservation under minting: when the mint's supply equals the summed
/// balances of a ledger whose entry `i` is the destination account's
/// record, a successful `MintTo` keeps supply and sum equal. Applied to
/// each step in turn, this makes the supply track the summed balances
/// across any sequence of successful mints and burns.
pub proof fn lemma_mint_to_preserves_conservation(
    accounts: Seq<AccountHandleView>,
    amount: u64,
    program_id: Seq<u8>,
    ledger: Seq<TokenAccountView>,
    i: int,
)
    requires
        spec_mint_to(accounts, amount, program_id) is Ok,
        0 <= i < ledger.len(),
        ledger[i] == spec_unpack_token_account(accounts[1].data)->Some_0,
        spec_unpack_mint(accounts[0].data)->Some_0.supply as int == spec_total_balance(
            ledger,
            accounts[0].key,
        ),
    ensures
        ({
            let s = spec_mint_to(accounts, amount, program_id)->Ok_0;
            spec_unpack_mint(s[0].data)->Some_0.supply as int == spec_total_balance(
                ledger.update(i, spec_unpack_token_account(s[1].data)->Some_0),
                accounts[0].key,
            )
        }),
{
    lemma_mint_to_checked(accounts, amount, program_id);
    let s = spec_mint_to(accounts, amount, program_id)->Ok_0;
    let dest1 = spec_unpack_token_account(s[1].data)->Some_0;
    lemma_total_balance_update(ledger, i, dest1, accounts[0].key);
}

/// Conservation under burning: the mirror image of
/// [`lemma_mint_to_preserves_conservation`], with the burned account's
/// record at entry `i` of the ledger and both supply and sum shrinking by
/// the burned amount.
pub proof fn lemma_burn_preserves_conservation(
    accounts: Seq<AccountHandleView>,
    amount: u64,
    program_id: Seq<u8>,
    ledger: Seq<TokenAccountView>,
    i: int,
)
    requires
        spec_burn(accounts, amount, program_id) is Ok,
        0 <= i < ledger.len(),
        ledger[i] == spec_unpack_token_account(accounts[0].data)->Some_0,
        spec_unpack_mint(accounts[1].data)->Some_0.supply as int == spec_total_balance(
            ledger,
            accounts[1].key,
        ),
    ensures
        ({
            let s = spec_burn(accounts, amount, program_id)->Ok_0;
            spec_unpack_mint(s[1].data)->Some_0.supply as int == spec_total_balance(
                ledger.update(i, spec_unpack_token_account(s[0].data)->Some_0),
                accounts[1].key,
            )
        }),
{
    lemma_burn_checked(accounts, amount, program_id);
    let s = spec_burn(accounts, amount, program_id)->Ok_0;
    let acct1 = spec_unpack_token_account(s[0].data)->Some_0;
    lemma_total_balance_update(ledger, i, acct1, accounts[1].key);
}

/// Conservation under transfer: whatever mint a ledger is summed over, a
/// successful transfer between two distinct ledger entries leaves the sum
/// unchanged — the debit and the credit cancel. Together with the two
/// lemmas above, the supply of a mint tracks the summed balances of its
/// accounts across every successful instruction.
pub proof fn lemma_transfer_preserves_conservation(
    accounts: Seq<AccountHandleView>,
    amount: u64,
    program_id: Seq<u8>,
    ledger: Seq<TokenAccountView>,
    i: int,
    j: int,
    mint_key: Seq<u8>,
)
    requires
        spec_transfer(accounts, amount, program_id) is Ok,
        accounts[0].key != accounts[1].key,
        0 <= i < ledger.len(),
        0 <= j < ledger.len(),
        i != j,
        ledger[i] == spec_unpack_token_account(accounts[0].data)->Some_0,
        ledger[j] == spec_unpack_token_account(accounts[1].data)->Some_0,
    ensures
        ({
            let s = spec_transfer(accounts, amount, program_id)->Ok_0;
            spec_total_balance(
                ledger.update(i, spec_unpack_token_account(s[0].data)->Some_0).update(
                    j,
                    spec_unpack_token_account(s[1].data)->Some_0,
                ),
                mint_key,
            ) == spec_total_balance(ledger, mint_key)
        }),
{
    lemma_transfer_conserves_total(accounts, amount, program_id);
    let s = spec_transfer(accounts, amount, program_id)->Ok_0;
    let src1 = spec_unpack_token_account(s[0].data)->Some_0;
    let dst1 = spec_unpack_token_account(s[1].data)->Some_0;
    let mid = ledger.update(i, src1);
    lemma_total_balance_update(ledger, i, src1, mint_key);
    lemma_total_balance_update(mid, j, dst1, mint_key);
    assert(mid[j] == ledger[j]);
}

} // verus!
