//! The 32-byte identity every authority, owner, mint and buffer is named by.

use vstd::prelude::*;

verus! {

/// Number of bytes in an identity.
pub const PUBKEY_LEN: usize = 32;

/// A 32-byte identity: the name of an account buffer, of a program, or of
/// an authority whose signature gates a privileged state change.
#[derive(Clone, Copy, Debug)]
pub struct Pubkey {
    /// The raw bytes of the identity.
    pub bytes: [u8; 32],
}

impl View for Pubkey {
    type V = Seq<u8>;

    open spec fn view(&self) -> Seq<u8> {
        self.bytes@
    }
}

impl Pubkey {
    /// Build an identity from its raw bytes.
    pub fn new(bytes: [u8; 32]) -> (r: Pubkey)
        ensures
            r@ == bytes@,
    {
        Pubkey { bytes }
    }

    /// Read the identity stored in `src` at byte offset `offset`.
    pub fn from_slice(src: &[u8], offset: usize) -> (r: Pubkey)
        requires
            offset + 32 <= src@.len(),
        ensures
            r@ == src@.subrange(offset as int, offset + 32),
    {
        let n = src.len();
        let mut bytes = [0u8; 32];
        let mut i: usize = 0;
        while i < 32
            invariant
                i <= 32,
                offset + 32 <= n == src@.len(),
                bytes@.len() == 32,
                forall|j: int| 0 <= j < i ==> bytes@[j] == src@[offset + j],
            decreases 32 - i,
        {
            bytes[i] = src[offset + i];
            i = i + 1;
        }
        let r = Pubkey { bytes };
        proof {
            assert(r@ =~= src@.subrange(offset as int, offset + 32));
        }
        r
    }

    /// Append the 32 bytes of this identity to `out`.
    pub fn append_to(&self, out: &mut Vec<u8>)
        ensures
            final(out)@ == old(out)@ + self@,
    {
        let mut i: usize = 0;
        while i < 32
            invariant
                i <= 32,
                out@ == old(out)@ + self@.take(i as int),
            decreases 32 - i,
        {
            out.push(self.bytes[i]);
            proof {
                assert(old(out)@ + self@.take(i as int) + seq![self@[i as int]] =~= old(out)@
                    + self@.take(i + 1));
            }
            i = i + 1;
        }
        proof {
            assert(self@.take(32) =~= self@);
        }
    }
}

impl PartialEq for Pubkey {
    fn eq(&self, other: &Pubkey) -> (r: bool) {
        let mut i: usize = 0;
        while i < 32
            invariant
                i <= 32,
                forall|j: int| 0 <= j < i ==> self.bytes@[j] == other.bytes@[j],
            decreases 32 - i,
        {
            if self.bytes[i] != other.bytes[i] {
                assert(self@ != other@);
                return false;
            }
            i = i + 1;
        }
        assert(self@ =~= other@);
        true
    }
}

impl vstd::std_specs::cmp::PartialEqSpecImpl for Pubkey {
    open spec fn obeys_eq_spec() -> bool {
        true
    }

    open spec fn eq_spec(&self, other: &Pubkey) -> bool {
        self@ == other@
    }
}

} // verus!
