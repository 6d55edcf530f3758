//! The account handle: what the external runtime hands the processor for
//! each account an instruction touches.
//!
//! The runtime has already resolved identities to buffers, verified which
//! buffers are signed for, and attested rent exemption; a handle carries
//! those facts as plain values together with the buffer itself. The
//! processor mutates the buffer in place and the runtime persists it.

use vstd::prelude::*;

use crate::pubkey::Pubkey;

verus! {

/// One account as the runtime presents it to the processor.
pub struct AccountHandle {
    /// The identity this buffer is stored under.
    pub key: Pubkey,
    /// The program that owns the buffer; only buffers owned by this
    /// program may be decoded or mutated.
    pub owner: Pubkey,
    /// Whether the runtime verified a signature for `key` on this
    /// instruction.
    pub is_signer: bool,
    /// The rent-exemption attestation: whether the runtime guarantees the
    /// buffer is funded to persist. Consumed, never computed, here.
    pub is_rent_exempt: bool,
    /// The raw bytes of the account, at least a record's fixed length for
    /// any account a record is read from or written to.
    pub data: Vec<u8>,
}

/// Mathematical model of an [`AccountHandle`].
#[verifier::ext_equal]
pub struct AccountHandleView {
    /// Model of [`AccountHandle::key`].
    pub key: Seq<u8>,
    /// Model of [`AccountHandle::owner`].
    pub owner: Seq<u8>,
    /// Model of [`AccountHandle::is_signer`].
    pub is_signer: bool,
    /// Model of [`AccountHandle::is_rent_exempt`].
    pub is_rent_exempt: bool,
    /// Model of [`AccountHandle::data`].
    pub data: Seq<u8>,
}

impl View for AccountHandle {
    type V = AccountHandleView;

    open spec fn view(&self) -> AccountHandleView {
        AccountHandleView {
            key: self.key@,
            owner: self.owner@,
            is_signer: self.is_signer,
            is_rent_exempt: self.is_rent_exempt,
            data: self.data@,
        }
    }
}

/// The models of a whole account list.
pub open spec fn handle_views(s: Seq<AccountHandle>) -> Seq<AccountHandleView> {
    s.map_values(|h: AccountHandle| h@)
}

/// Replacing one handle of a list replaces one model of its model list.
pub proof fn lemma_handle_views_update(s: Seq<AccountHandle>, i: int, h: AccountHandle)
    requires
        0 <= i < s.len(),
    ensures
        handle_views(s.update(i, h)) == handle_views(s).update(i, h@),
{
    assert(handle_views(s.update(i, h)) =~= handle_views(s).update(i, h@));
}

/// The model of `a` after its buffer's first `bytes.len()` bytes were
/// overwritten with `bytes`.
pub open spec fn spec_with_prefix(a: AccountHandleView, bytes: Seq<u8>) -> AccountHandleView {
    AccountHandleView { data: bytes + a.data.skip(bytes.len() as int), ..a }
}

impl AccountHandle {
    /// Build a handle from its parts.
    pub fn new(key: Pubkey, owner: Pubkey, is_signer: bool, is_rent_exempt: bool, data: Vec<u8>) -> (r:
        AccountHandle)
        ensures
            r@ == (AccountHandleView {
                key: key@,
                owner: owner@,
                is_signer,
                is_rent_exempt,
                data: data@,
            }),
    {
        AccountHandle { key, owner, is_signer, is_rent_exempt, data }
    }

    /// Overwrite the start of this handle's buffer with `bytes`, leaving
    /// every byte past `bytes.len()` and every other field unchanged.
    pub fn write_prefix(&mut self, bytes: &Vec<u8>)
        requires
            bytes@.len() <= old(self).data@.len(),
        ensures
            final(self)@ == spec_with_prefix(old(self)@, bytes@),
    {
        let n = bytes.len();
        let mut i: usize = 0;
        while i < n
            invariant
                i <= n,
                n == bytes@.len(),
                n <= self.data@.len(),
                self.data@.len() == old(self).data@.len(),
                forall|j: int| 0 <= j < i ==> self.data@[j] == bytes@[j],
                forall|j: int| i <= j < self.data@.len() ==> self.data@[j] == old(self).data@[j],
                self.key == old(self).key,
                self.owner == old(self).owner,
                self.is_signer == old(self).is_signer,
                self.is_rent_exempt == old(self).is_rent_exempt,
            decreases n - i,
        {
            self.data[i] = bytes[i];
            i = i + 1;
        }
        proof {
            assert(self.data@ =~= bytes@ + old(self).data@.skip(bytes@.len() as int));
        }
    }
}

} // verus!
