//! A creator entry of an asset: address, verification flag and royalty share.

use vstd::prelude::*;
use vstd::slice::slice_subrange;
use crate::codec::bool_byte;
use crate::pubkey::{Pubkey, append_bytes, copy_pubkey, pubkey_of, lemma_pubkey_of_view};

verus! {

/// One creator of an asset; encoded in 34 bytes.
#[derive(Clone, Copy, Debug, PartialEq, Eq)]
pub struct Creator {
    pub address: Pubkey,
    pub verified: bool,
    pub share: u8,
}

impl Creator {
    pub const LEN: usize = 34;

    /// The address bytes, then the verification flag as 0 or 1, then the share.
    pub open spec fn encoded(self) -> Seq<u8> {
        self.address@ + seq![bool_byte(self.verified), self.share]
    }

    /// The creator held by the first 34 bytes of `d`; any nonzero flag byte reads as verified.
    pub open spec fn decoded(d: Seq<u8>) -> Creator {
        Creator { address: pubkey_of(d.subrange(0, 32)), verified: d[32] != 0, share: d[33] }
    }

    /// Appends the 34-byte encoding of the creator.
    pub fn serialize(&self, buffer: &mut Vec<u8>)
        ensures
            final(buffer)@ == old(buffer)@ + self.encoded(),
    {
        append_bytes(buffer, self.address.as_slice());
        buffer.push(if self.verified {
            1u8
        } else {
            0u8
        });
        buffer.push(self.share);
        assert(buffer@ =~= old(buffer)@ + self.encoded());
    }

    /// Reads a creator from the start of `data`, which must hold at least 34 bytes.
    pub fn deserialize(data: &[u8]) -> (r: Result<Self, &'static str>)
        ensures
            r is Ok <==> data@.len() >= 34,
            r is Ok ==> r->Ok_0 == Creator::decoded(data@),
    {
        if data.len() < 34 {
            return Err("Insufficient data for Creator");
        }
        let address = copy_pubkey(slice_subrange(data, 0, 32));
        let verified = data[32] != 0;
        let share = data[33];
        Ok(Creator { address, verified, share })
    }
}

/// Decoding the encoding of a creator gives it back.
pub proof fn lemma_creator_round_trip(c: Creator)
    ensures
        c.encoded().len() == 34,
        Creator::decoded(c.encoded()) == c,
{
    assert(c.encoded().subrange(0, 32) =~= c.address@);
    lemma_pubkey_of_view(c.address);
}

} // verus!
