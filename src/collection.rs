//! Collection membership, collection details and the collection-authority record.

use vstd::prelude::*;
use vstd::bytes::*;
use vstd::slice::slice_subrange;
use crate::codec::bool_byte;
use crate::error::{DeserializeError, MetadataError, ProgramError};
use crate::key::{Key, key_of_byte};
use crate::pubkey::{Pubkey, append_bytes, array_of, copy_array, copy_pubkey, pubkey_of, lemma_array_of_view, lemma_pubkey_of_view};
use crate::account::TokenMetadataAccount;

verus! {

/// Size in bytes of a collection-authority record.
pub const COLLECTION_AUTHORITY_RECORD_SIZE: usize = 35;

/// The collection an asset belongs to; encoded in 33 bytes.
#[derive(Clone, Copy, Debug, PartialEq, Eq)]
pub struct Collection {
    pub verified: bool,
    pub key: Pubkey,
}

impl Collection {
    pub const LEN: usize = 33;

    /// The verification flag as 0 or 1, then the address bytes.
    pub open spec fn encoded(self) -> Seq<u8> {
        seq![bool_byte(self.verified)] + self.key@
    }

    /// The collection held by the first 33 bytes of `d`; any nonzero flag reads as verified.
    pub open spec fn decoded(d: Seq<u8>) -> Collection {
        Collection { verified: d[0] != 0, key: pubkey_of(d.subrange(1, 33)) }
    }

    /// Appends the 33-byte encoding of the collection.
    pub fn serialize(&self, buffer: &mut Vec<u8>)
        ensures
            final(buffer)@ == old(buffer)@ + self.encoded(),
    {
        buffer.push(if self.verified {
            1u8
        } else {
            0u8
        });
        append_bytes(buffer, self.key.as_slice());
        assert(buffer@ =~= old(buffer)@ + self.encoded());
    }

    /// Reads a collection from the start of `data`, which must hold at least 33 bytes.
    pub fn deserialize(data: &[u8]) -> (r: Result<Self, &'static str>)
        ensures
            r is Ok <==> data@.len() >= 33,
            r is Ok ==> r->Ok_0 == Collection::decoded(data@),
    {
        if data.len() < 33 {
            return Err("Insufficient data for Collection");
        }
        let verified = data[0] != 0;
        let key = copy_pubkey(slice_subrange(data, 1, 33));
        Ok(Collection { verified, key })
    }
}

/// Decoding the encoding of a collection gives it back.
pub proof fn lemma_collection_round_trip(c: Collection)
    ensures
        c.encoded().len() == 33,
        Collection::decoded(c.encoded()) == c,
{
    assert(c.encoded().subrange(1, 33) =~= c.key@);
    lemma_pubkey_of_view(c.key);
}

/// Details of a collection. On the wire there is no tag: the 8 bytes are read as `V1`
/// with their little-endian size unless that size is zero, which reads as `V2`.
#[derive(Clone, Copy, Debug, PartialEq, Eq)]
pub enum CollectionDetails {
    V1 { size: u64 },
    V2 { padding: [u8; 8] },
}

impl CollectionDetails {
    pub const LEN: usize = 8;

    /// `V1` writes its size in little-endian order, `V2` its padding as it stands.
    pub open spec fn encoded(self) -> Seq<u8> {
        match self {
            CollectionDetails::V1 { size } => spec_u64_to_le_bytes(size),
            CollectionDetails::V2 { padding } => padding@,
        }
    }

    /// The details that the first 8 bytes of `d` stand for, the variant inferred from content.
    pub open spec fn decoded(d: Seq<u8>) -> CollectionDetails {
        let size = spec_u64_from_le_bytes(d.subrange(0, 8));
        if size == 0 {
            CollectionDetails::V2 { padding: array_of::<8>(d.subrange(0, 8)) }
        } else {
            CollectionDetails::V1 { size }
        }
    }

    /// Values that survive a write and a read: a nonzero size, or all-zero padding.
    pub open spec fn round_trips(self) -> bool {
        match self {
            CollectionDetails::V1 { size } => size != 0,
            CollectionDetails::V2 { padding } => padding@ == Seq::new(8, |i: int| 0u8),
        }
    }

    /// Appends the 8 payload bytes of the variant.
    pub fn serialize(&self, buffer: &mut Vec<u8>)
        ensures
            final(buffer)@ == old(buffer)@ + self.encoded(),
    {
        match self {
            CollectionDetails::V1 { size } => {
                let b = u64_to_le_bytes(*size);
                append_bytes(buffer, b.as_slice());
            },
            CollectionDetails::V2 { padding } => {
                append_bytes(buffer, padding.as_slice());
            },
        }
    }

    /// Reads details from the start of `data`, which must hold at least 8 bytes.
    pub fn deserialize(data: &[u8]) -> (r: Result<Self, &'static str>)
        ensures
            r is Ok <==> data@.len() >= 8,
            r is Ok ==> r->Ok_0 == CollectionDetails::decoded(data@),
    {
        if data.len() < 8 {
            return Err("Insufficient data for CollectionDetails");
        }
        let bytes = slice_subrange(data, 0, 8);
        let size = u64_from_le_bytes(bytes);
        if size == 0 {
            let padding = copy_array::<8>(bytes);
            Ok(CollectionDetails::V2 { padding })
        } else {
            Ok(CollectionDetails::V1 { size })
        }
    }
}

/// The little-endian bytes of zero are eight zero bytes.
pub proof fn lemma_zero_le_bytes()
    ensures
        spec_u64_to_le_bytes(0) == Seq::new(8, |i: int| 0u8),
{
    spec_u64_to_le_bytes_to_open(0);
    let z: u64 = 0;
    assert((z & 0xff) as u8 == 0 && ((z >> 8) & 0xff) as u8 == 0 && ((z >> 16) & 0xff) as u8 == 0
        && ((z >> 24) & 0xff) as u8 == 0 && ((z >> 32) & 0xff) as u8 == 0 && ((z >> 40) & 0xff) as u8
        == 0 && ((z >> 48) & 0xff) as u8 == 0 && ((z >> 56) & 0xff) as u8 == 0) by (bit_vector)
        requires
            z == 0,
    ;
    assert(spec_u64_to_le_bytes_open(0) =~= Seq::new(8, |i: int| 0u8));
}

/// Details that survive a write and a read come back unchanged: `V2` with zero padding
/// and `V1` with a nonzero size.
pub proof fn lemma_collection_details_round_trip(c: CollectionDetails)
    requires
        c.round_trips(),
    ensures
        c.encoded().len() == 8,
        CollectionDetails::decoded(c.encoded()) == c,
{
    lemma_auto_spec_u64_to_from_le_bytes();
    match c {
        CollectionDetails::V1 { size } => {
            assert(spec_u64_to_le_bytes(size).len() == 8);
            assert(c.encoded().subrange(0, 8) =~= c.encoded());
        },
        CollectionDetails::V2 { padding } => {
            lemma_zero_le_bytes();
            assert(c.encoded().subrange(0, 8) =~= c.encoded());
            assert(spec_u64_from_le_bytes(spec_u64_to_le_bytes(0)) == 0);
            lemma_array_of_view::<8>(padding);
        },
    }
}

/// Grants an authority over a collection; a fixed-size record of 35 bytes.
#[derive(Clone, Copy, Debug, PartialEq, Eq)]
pub struct CollectionAuthorityRecord {
    pub key: Key,
    pub bump: u8,
    pub update_authority: Option<Pubkey>,
}

impl Default for CollectionAuthorityRecord {
    fn default() -> (r: Self)
        ensures
            r == (CollectionAuthorityRecord {
                key: Key::CollectionAuthorityRecord,
                bump: 255,
                update_authority: None,
            }),
    {
        CollectionAuthorityRecord { key: Key::CollectionAuthorityRecord, bump: 255, update_authority: None }
    }
}

/// What a 35-byte collection-authority record holds: tag, bump, then an optional address
/// whose presence byte must be 0 or 1.
pub open spec fn parse_collection_authority_record(d: Seq<u8>) -> Result<CollectionAuthorityRecord, DeserializeError> {
    if d.len() != 35 {
        Err(DeserializeError::InvalidData)
    } else if key_of_byte(d[0]) != Some(Key::CollectionAuthorityRecord) {
        Err(DeserializeError::DataTypeMismatch)
    } else if d[2] == 0 {
        Ok(CollectionAuthorityRecord { key: Key::CollectionAuthorityRecord, bump: d[1], update_authority: None })
    } else if d[2] == 1 {
        Ok(
            CollectionAuthorityRecord {
                key: Key::CollectionAuthorityRecord,
                bump: d[1],
                update_authority: Some(pubkey_of(d.subrange(3, 35))),
            },
        )
    } else {
        Err(DeserializeError::InvalidData)
    }
}

impl TokenMetadataAccount for CollectionAuthorityRecord {
    open spec fn spec_key() -> Key {
        Key::CollectionAuthorityRecord
    }

    open spec fn spec_size() -> usize {
        COLLECTION_AUTHORITY_RECORD_SIZE
    }

    open spec fn parse_record(data: Seq<u8>) -> Result<Self, DeserializeError> {
        parse_collection_authority_record(data)
    }

    fn key() -> (r: Key) {
        Key::CollectionAuthorityRecord
    }

    fn size() -> (r: usize) {
        COLLECTION_AUTHORITY_RECORD_SIZE
    }

    fn safe_deserialize(data: &[u8]) -> (r: Result<Self, DeserializeError>) {
        if data.len() != COLLECTION_AUTHORITY_RECORD_SIZE {
            return Err(DeserializeError::InvalidData);
        }
        let key = match Key::from_byte(data[0]) {
            Some(k) => k,
            None => return Err(DeserializeError::DataTypeMismatch),
        };
        if key != Key::CollectionAuthorityRecord {
            return Err(DeserializeError::DataTypeMismatch);
        }
        let bump = data[1];
        let update_authority = if data[2] == 0 {
            None
        } else if data[2] == 1 {
            Some(copy_pubkey(slice_subrange(data, 3, 35)))
        } else {
            return Err(DeserializeError::InvalidData);
        };
        Ok(CollectionAuthorityRecord { key, bump, update_authority })
    }
}

impl CollectionAuthorityRecord {
    /// Decodes a record, reporting any failure as `DataTypeMismatch`.
    pub fn from_bytes(b: &[u8]) -> (r: Result<CollectionAuthorityRecord, ProgramError>)
        ensures
            r == match parse_collection_authority_record(b@) {
                Ok(v) => Ok(v),
                Err(_) => Err(ProgramError::Custom(MetadataError::DataTypeMismatch as u32)),
            },
    {
        match Self::safe_deserialize(b) {
            Ok(v) => Ok(v),
            Err(_) => Err(ProgramError::Custom(MetadataError::DataTypeMismatch.code())),
        }
    }
}

} // verus!
