//! The two persisted record kinds and their fixed-width binary codec.
//!
//! A [`Mint`] describes one fungible asset class; a [`TokenAccount`] holds
//! one owner's balance of one mint. Both are stored in fixed-width buffers:
//! the encoding is canonical (every record has exactly one encoding, and
//! decoding rejects any prefix that no record encodes to), which is what
//! lets the processor promise byte-for-byte unchanged buffers on every
//! failed or idempotent instruction.
//!
//! Wire layout, offsets in bytes:
//! * `Mint` (75 bytes): initialized flag (1), decimals (1), mint authority
//!   (32), freeze-authority flag (1), freeze-authority payload (32, all
//!   zero when absent), supply (8, little endian).
//! * `TokenAccount` (74 bytes): initialized flag (1), mint (32), owner
//!   (32), amount (8, little endian), frozen flag (1).

use vstd::prelude::*;

use crate::error::CobotiumError;
use crate::pubkey::Pubkey;

verus! {

/// Encoded length of a [`Mint`] record.
pub const MINT_LEN: usize = 75;

/// Encoded length of a [`TokenAccount`] record.
pub const TOKEN_ACCOUNT_LEN: usize = 74;

/// Largest number of decimals a mint may be created with.
pub const MAX_DECIMALS: u8 = 18;

/// One fungible asset class: its authorities and its outstanding supply.
#[derive(Clone, Debug)]
pub struct Mint {
    /// False until `InitializeMint` succeeds on the buffer; guards every
    /// other field's validity.
    pub is_initialized: bool,
    /// Display scale fixed at creation, at most [`MAX_DECIMALS`]; advisory
    /// to callers and never used in arithmetic here.
    pub decimals: u8,
    /// The sole identity permitted to increase the supply.
    pub mint_authority: Pubkey,
    /// If present, the sole identity permitted to freeze and thaw accounts
    /// of this mint; if absent, accounts of this mint can never be frozen.
    pub freeze_authority: Option<Pubkey>,
    /// Sum of all outstanding balances of accounts referencing this mint.
    pub supply: u64,
}

/// One holder's balance of one mint.
#[derive(Clone, Debug)]
pub struct TokenAccount {
    /// False until `InitializeAccount` succeeds on the buffer.
    pub is_initialized: bool,
    /// The mint this balance belongs to; set once at initialization.
    pub mint: Pubkey,
    /// The identity permitted to authorize transfers and burns from this
    /// account; immutable after initialization.
    pub owner: Pubkey,
    /// Current balance; every mutation is checked arithmetic.
    pub amount: u64,
    /// When true, deposits into, transfers touching and burns from this
    /// account are rejected.
    pub is_frozen: bool,
}

/// Mathematical model of a [`Mint`]: identities as byte sequences.
#[verifier::ext_equal]
pub struct MintView {
    /// Model of [`Mint::is_initialized`].
    pub is_initialized: bool,
    /// Model of [`Mint::decimals`].
    pub decimals: u8,
    /// Model of [`Mint::mint_authority`].
    pub mint_authority: Seq<u8>,
    /// Model of [`Mint::freeze_authority`].
    pub freeze_authority: Option<Seq<u8>>,
    /// Model of [`Mint::supply`].
    pub supply: u64,
}

/// Mathematical model of a [`TokenAccount`].
#[verifier::ext_equal]
pub struct TokenAccountView {
    /// Model of [`TokenAccount::is_initialized`].
    pub is_initialized: bool,
    /// Model of [`TokenAccount::mint`].
    pub mint: Seq<u8>,
    /// Model of [`TokenAccount::owner`].
    pub owner: Seq<u8>,
    /// Model of [`TokenAccount::amount`].
    pub amount: u64,
    /// Model of [`TokenAccount::is_frozen`].
    pub is_frozen: bool,
}

impl View for Mint {
    type V = MintView;

    open spec fn view(&self) -> MintView {
        MintView {
            is_initialized: self.is_initialized,
            decimals: self.decimals,
            mint_authority: self.mint_authority@,
            freeze_authority: match self.freeze_authority {
                Some(k) => Some(k@),
                None => None,
            },
            supply: self.supply,
        }
    }
}

impl View for TokenAccount {
    type V = TokenAccountView;

    open spec fn view(&self) -> TokenAccountView {
        TokenAccountView {
            is_initialized: self.is_initialized,
            mint: self.mint@,
            owner: self.owner@,
            amount: self.amount,
            is_frozen: self.is_frozen,
        }
    }
}

impl MintView {
    /// Every identity the record holds has the fixed identity width.
    pub open spec fn wf(self) -> bool {
        &&& self.mint_authority.len() == 32
        &&& match self.freeze_authority {
            Some(k) => k.len() == 32,
            None => true,
        }
    }
}

impl TokenAccountView {
    /// Every identity the record holds has the fixed identity width.
    pub open spec fn wf(self) -> bool {
        self.mint.len() == 32 && self.owner.len() == 32
    }
}

/// The single byte a flag is stored as.
pub open spec fn spec_bool_byte(b: bool) -> u8 {
    if b {
        1u8
    } else {
        0u8
    }
}

/// True when `b` is a stored flag: anything else makes a buffer
/// undecodable.
pub open spec fn spec_is_bool_byte(b: u8) -> bool {
    b == 0 || b == 1
}

/// `n` zero bytes: the payload of an absent freeze authority.
pub open spec fn spec_zero_bytes(n: nat) -> Seq<u8> {
    Seq::new(n, |i: int| 0u8)
}

/// True when every byte of `s` is zero.
pub open spec fn spec_all_zero(s: Seq<u8>) -> bool {
    forall|i: int| 0 <= i < s.len() ==> s[i] == 0
}

/// The canonical encoding of a mint record.
pub open spec fn spec_pack_mint(m: MintView) -> Seq<u8> {
    seq![spec_bool_byte(m.is_initialized), m.decimals] + m.mint_authority + (match m
        .freeze_authority {
        Some(k) => seq![1u8] + k,
        None => seq![0u8] + spec_zero_bytes(32),
    }) + vstd::bytes::spec_u64_to_le_bytes(m.supply)
}

/// Decode the mint record stored in the first [`MINT_LEN`] bytes of `s`,
/// or nothing when `s` is too short or holds bytes no record encodes to.
pub open spec fn spec_unpack_mint(s: Seq<u8>) -> Option<MintView> {
    if s.len() < MINT_LEN {
        None
    } else if !spec_is_bool_byte(s[0]) {
        None
    } else if !spec_is_bool_byte(s[34]) {
        None
    } else if s[34] == 0 && !spec_all_zero(s.subrange(35, 67)) {
        None
    } else {
        Some(
            MintView {
                is_initialized: s[0] == 1,
                decimals: s[1],
                mint_authority: s.subrange(2, 34),
                freeze_authority: if s[34] == 1 {
                    Some(s.subrange(35, 67))
                } else {
                    None
                },
                supply: vstd::bytes::spec_u64_from_le_bytes(s.subrange(67, 75)),
            },
        )
    }
}

/// The canonical encoding of a token account record.
pub open spec fn spec_pack_token_account(a: TokenAccountView) -> Seq<u8> {
    seq![spec_bool_byte(a.is_initialized)] + a.mint + a.owner + vstd::bytes::spec_u64_to_le_bytes(
        a.amount,
    ) + seq![spec_bool_byte(a.is_frozen)]
}

/// Decode the token account record stored in the first
/// [`TOKEN_ACCOUNT_LEN`] bytes of `s`, or nothing when `s` is too short or
/// holds bytes no record encodes to.
pub open spec fn spec_unpack_token_account(s: Seq<u8>) -> Option<TokenAccountView> {
    if s.len() < TOKEN_ACCOUNT_LEN {
        None
    } else if !spec_is_bool_byte(s[0]) {
        None
    } else if !spec_is_bool_byte(s[73]) {
        None
    } else {
        Some(
            TokenAccountView {
                is_initialized: s[0] == 1,
                mint: s.subrange(1, 33),
                owner: s.subrange(33, 65),
                amount: vstd::bytes::spec_u64_from_le_bytes(s.subrange(65, 73)),
                is_frozen: s[73] == 1,
            },
        )
    }
}

/// Decoding undoes encoding: a packed mint, however the buffer continues,
/// decodes back to the record it came from.
pub proof fn lemma_mint_pack_unpack(m: MintView, rest: Seq<u8>)
    requires
        m.wf(),
    ensures
        spec_unpack_mint(spec_pack_mint(m) + rest) == Some(m),
{
    let s = spec_pack_mint(m) + rest;
    vstd::bytes::lemma_auto_spec_u64_to_from_le_bytes();
    assert(s.subrange(2, 34) =~= m.mint_authority);
    assert(s.subrange(67, 75) =~= vstd::bytes::spec_u64_to_le_bytes(m.supply));
    match m.freeze_authority {
        Some(k) => {
            assert(s[34] == 1);
            assert(s.subrange(35, 67) =~= k);
        },
        None => {
            assert(s[34] == 0);
            assert(spec_all_zero(s.subrange(35, 67)));
        },
    }
    assert(spec_unpack_mint(s)->Some_0 == m);
}

/// Encoding undoes decoding: a buffer that decodes as a mint starts with
/// exactly that record's canonical encoding.
pub proof fn lemma_mint_unpack_pack(s: Seq<u8>)
    requires
        spec_unpack_mint(s) is Some,
    ensures
        spec_unpack_mint(s)->Some_0.wf(),
        spec_pack_mint(spec_unpack_mint(s)->Some_0) == s.take(MINT_LEN as int),
{
    let m = spec_unpack_mint(s)->Some_0;
    let p = spec_pack_mint(m);
    vstd::bytes::lemma_auto_spec_u64_to_from_le_bytes();
    assert(vstd::bytes::spec_u64_to_le_bytes(m.supply) =~= s.subrange(67, 75));
    assert forall|i: int| 0 <= i < MINT_LEN implies p[i] == s[i] by {
        if 2 <= i < 34 {
            assert(p[i] == m.mint_authority[i - 2]);
        } else if 35 <= i < 67 {
            if s[34] == 1 {
                assert(p[i] == s.subrange(35, 67)[i - 35]);
            } else {
                assert(p[i] == spec_zero_bytes(32)[i - 35]);
                assert(s.subrange(35, 67)[i - 35] == 0);
            }
        } else if 67 <= i < 75 {
            assert(p[i] == vstd::bytes::spec_u64_to_le_bytes(m.supply)[i - 67]);
        }
    }
    assert(p =~= s.take(MINT_LEN as int));
}

/// Decoding undoes encoding for token accounts.
pub proof fn lemma_token_account_pack_unpack(a: TokenAccountView, rest: Seq<u8>)
    requires
        a.wf(),
    ensures
        spec_unpack_token_account(spec_pack_token_account(a) + rest) == Some(a),
{
    let s = spec_pack_token_account(a) + rest;
    vstd::bytes::lemma_auto_spec_u64_to_from_le_bytes();
    assert(s.subrange(1, 33) =~= a.mint);
    assert(s.subrange(33, 65) =~= a.owner);
    assert(s.subrange(65, 73) =~= vstd::bytes::spec_u64_to_le_bytes(a.amount));
    assert(s[73] == spec_bool_byte(a.is_frozen));
    assert(spec_unpack_token_account(s)->Some_0 == a);
}

/// Encoding undoes decoding for token accounts.
pub proof fn lemma_token_account_unpack_pack(s: Seq<u8>)
    requires
        spec_unpack_token_account(s) is Some,
    ensures
        spec_unpack_token_account(s)->Some_0.wf(),
        spec_pack_token_account(spec_unpack_token_account(s)->Some_0) == s.take(
            TOKEN_ACCOUNT_LEN as int,
        ),
{
    let a = spec_unpack_token_account(s)->Some_0;
    let p = spec_pack_token_account(a);
    vstd::bytes::lemma_auto_spec_u64_to_from_le_bytes();
    assert(vstd::bytes::spec_u64_to_le_bytes(a.amount) =~= s.subrange(65, 73));
    assert forall|i: int| 0 <= i < TOKEN_ACCOUNT_LEN implies p[i] == s[i] by {
        if 1 <= i < 33 {
            assert(p[i] == a.mint[i - 1]);
        } else if 33 <= i < 65 {
            assert(p[i] == a.owner[i - 33]);
        } else if 65 <= i < 73 {
            assert(p[i] == vstd::bytes::spec_u64_to_le_bytes(a.amount)[i - 65]);
        }
    }
    assert(p =~= s.take(TOKEN_ACCOUNT_LEN as int));
}

/// Append the canonical flag byte for `b`.
fn push_bool(out: &mut Vec<u8>, b: bool)
    ensures
        final(out)@ == old(out)@ + seq![spec_bool_byte(b)],
{
    out.push(if b { 1 } else { 0 });
}

/// Append `n` zero bytes.
fn push_zeros(out: &mut Vec<u8>, n: usize)
    ensures
        final(out)@ == old(out)@ + spec_zero_bytes(n as nat),
{
    let mut i: usize = 0;
    while i < n
        invariant
            i <= n,
            out@ == old(out)@ + spec_zero_bytes(i as nat),
        decreases n - i,
    {
        out.push(0);
        assert(old(out)@ + spec_zero_bytes(i as nat) + seq![0u8] =~= old(out)@ + spec_zero_bytes(
            (i + 1) as nat,
        ));
        i = i + 1;
    }
}

/// Append the eight little-endian bytes of `v`.
fn push_u64_le(out: &mut Vec<u8>, v: u64)
    ensures
        final(out)@ == old(out)@ + vstd::bytes::spec_u64_to_le_bytes(v),
{
    let mut bytes = vstd::bytes::u64_to_le_bytes(v);
    out.append(&mut bytes);
}

/// Read the eight little-endian bytes starting at `offset`.
fn read_u64_le(src: &[u8], offset: usize) -> (r: u64)
    requires
        offset + 8 <= src@.len(),
    ensures
        r == vstd::bytes::spec_u64_from_le_bytes(src@.subrange(offset as int, offset + 8)),
{
    let n = src.len();
    let sub = vstd::slice::slice_subrange(src, offset, offset + 8);
    vstd::bytes::u64_from_le_bytes(sub)
}

/// True exactly when the 32 bytes starting at `offset` are all zero.
fn all_zero_32(src: &[u8], offset: usize) -> (r: bool)
    requires
        offset + 32 <= src@.len(),
    ensures
        r == spec_all_zero(src@.subrange(offset as int, offset + 32)),
{
    let n = src.len();
    let ghost sub = src@.subrange(offset as int, offset + 32);
    let mut i: usize = 0;
    while i < 32
        invariant
            i <= 32,
            offset + 32 <= n == src@.len(),
            sub == src@.subrange(offset as int, offset + 32),
            forall|j: int| 0 <= j < i ==> sub[j] == 0,
        decreases 32 - i,
    {
        if src[offset + i] != 0 {
            assert(sub[i as int] != 0);
            return false;
        }
        i = i + 1;
    }
    true
}

impl Mint {
    /// Whether `InitializeMint` has succeeded on this record's buffer.
    pub fn is_initialized(&self) -> (r: bool)
        ensures
            r == self@.is_initialized,
    {
        self.is_initialized
    }

    /// Encode this record into its canonical [`MINT_LEN`]-byte form.
    pub fn pack(&self) -> (r: Vec<u8>)
        ensures
            r@ == spec_pack_mint(self@),
            r@.len() == MINT_LEN,
    {
        let mut out: Vec<u8> = Vec::new();
        push_bool(&mut out, self.is_initialized);
        out.push(self.decimals);
        self.mint_authority.append_to(&mut out);
        match &self.freeze_authority {
            Some(k) => {
                out.push(1);
                k.append_to(&mut out);
            },
            None => {
                out.push(0);
                push_zeros(&mut out, 32);
            },
        }
        push_u64_le(&mut out, self.supply);
        proof {
            vstd::bytes::lemma_auto_spec_u64_to_from_le_bytes();
            assert(out@ =~= spec_pack_mint(self@));
        }
        out
    }

    /// Decode the record stored in the first [`MINT_LEN`] bytes of `src`.
    pub fn unpack_from_slice(src: &[u8]) -> (r: Result<Mint, CobotiumError>)
        ensures
            match spec_unpack_mint(src@) {
                Some(m) => r is Ok && r->Ok_0@ == m,
                None => r == Err::<Mint, CobotiumError>(CobotiumError::InvalidAccountData),
            },
    {
        if src.len() < MINT_LEN {
            return Err(CobotiumError::InvalidAccountData);
        }
        let init_byte = src[0];
        if init_byte > 1 {
            return Err(CobotiumError::InvalidAccountData);
        }
        let flag_byte = src[34];
        if flag_byte > 1 {
            return Err(CobotiumError::InvalidAccountData);
        }
        let freeze_authority = if flag_byte == 1 {
            Some(Pubkey::from_slice(src, 35))
        } else {
            if !all_zero_32(src, 35) {
                return Err(CobotiumError::InvalidAccountData);
            }
            None
        };
        let mint = Mint {
            is_initialized: init_byte == 1,
            decimals: src[1],
            mint_authority: Pubkey::from_slice(src, 2),
            freeze_authority,
            supply: read_u64_le(src, 67),
        };
        Ok(mint)
    }
}

impl TokenAccount {
    /// Whether `InitializeAccount` has succeeded on this record's buffer.
    pub fn is_initialized(&self) -> (r: bool)
        ensures
            r == self@.is_initialized,
    {
        self.is_initialized
    }

    /// Encode this record into its canonical [`TOKEN_ACCOUNT_LEN`]-byte
    /// form.
    pub fn pack(&self) -> (r: Vec<u8>)
        ensures
            r@ == spec_pack_token_account(self@),
            r@.len() == TOKEN_ACCOUNT_LEN,
    {
        let mut out: Vec<u8> = Vec::new();
        push_bool(&mut out, self.is_initialized);
        self.mint.append_to(&mut out);
        self.owner.append_to(&mut out);
        push_u64_le(&mut out, self.amount);
        push_bool(&mut out, self.is_frozen);
        proof {
            vstd::bytes::lemma_auto_spec_u64_to_from_le_bytes();
            assert(out@ =~= spec_pack_token_account(self@));
        }
        out
    }

    /// Decode the record stored in the first [`TOKEN_ACCOUNT_LEN`] bytes
    /// of `src`.
    pub fn unpack_from_slice(src: &[u8]) -> (r: Result<TokenAccount, CobotiumError>)
        ensures
            match spec_unpack_token_account(src@) {
                Some(a) => r is Ok && r->Ok_0@ == a,
                None => r == Err::<TokenAccount, CobotiumError>(CobotiumError::InvalidAccountData),
            },
    {
        if src.len() < TOKEN_ACCOUNT_LEN {
            return Err(CobotiumError::InvalidAccountData);
        }
        let init_byte = src[0];
        if init_byte > 1 {
            return Err(CobotiumError::InvalidAccountData);
        }
        let frozen_byte = src[73];
        if frozen_byte > 1 {
            return Err(CobotiumError::InvalidAccountData);
        }
        let account = TokenAccount {
            is_initialized: init_byte == 1,
            mint: Pubkey::from_slice(src, 1),
            owner: Pubkey::from_slice(src, 33),
            amount: read_u64_le(src, 65),
            is_frozen: frozen_byte == 1,
        };
        Ok(account)
    }
}

} // verus!
