//! Limited-use configuration of an asset and the use-authority record.

use vstd::prelude::*;
use vstd::bytes::*;
use vstd::slice::slice_subrange;
use crate::error::{DeserializeError, MetadataError, ProgramError};
use crate::key::{Key, key_of_byte};
use crate::account::TokenMetadataAccount;

verus! {

/// Size in bytes of a use-authority record (with trailing padding).
pub const USE_AUTHORITY_RECORD_SIZE: usize = 18;

/// How an asset is consumed when used.
#[derive(Clone, Copy, Debug, PartialEq, Eq, Structural)]
pub enum UseMethod {
    Burn,
    Multiple,
    Single,
}

/// The use method whose discriminant is `value`, if any.
pub open spec fn use_method_of_byte(value: u8) -> Option<UseMethod> {
    if value == 0 {
        Some(UseMethod::Burn)
    } else if value == 1 {
        Some(UseMethod::Multiple)
    } else if value == 2 {
        Some(UseMethod::Single)
    } else {
        None
    }
}

impl UseMethod {
    /// The use method with discriminant `value`; other values are `InvalidData`.
    pub fn from_u8(value: u8) -> (r: Result<Self, DeserializeError>)
        ensures
            r == match use_method_of_byte(value) {
                Some(m) => Ok(m),
                None => Err(DeserializeError::InvalidData),
            },
    {
        match value {
            0 => Ok(UseMethod::Burn),
            1 => Ok(UseMethod::Multiple),
            2 => Ok(UseMethod::Single),
            _ => Err(DeserializeError::InvalidData),
        }
    }
}

/// Remaining and total uses of an asset; encoded in 17 bytes.
#[derive(Clone, Copy, Debug, PartialEq, Eq, Structural)]
pub struct Uses {
    pub use_method: UseMethod,
    pub remaining: u64,
    pub total: u64,
}

impl Uses {
    pub const LEN: usize = 17;

    /// The method byte, then `remaining` and `total` in little-endian order.
    pub open spec fn encoded(self) -> Seq<u8> {
        seq![self.use_method as u8] + spec_u64_to_le_bytes(self.remaining) + spec_u64_to_le_bytes(
            self.total,
        )
    }

    /// Whether the first 17 bytes of `d` hold uses: the method byte must be known.
    pub open spec fn decodable(d: Seq<u8>) -> bool {
        d.len() >= 17 && use_method_of_byte(d[0]) is Some
    }

    /// The uses held by the first 17 bytes of `d`.
    pub open spec fn decoded(d: Seq<u8>) -> Uses {
        Uses {
            use_method: use_method_of_byte(d[0])->Some_0,
            remaining: spec_u64_from_le_bytes(d.subrange(1, 9)),
            total: spec_u64_from_le_bytes(d.subrange(9, 17)),
        }
    }

    /// Appends the 17-byte encoding.
    pub fn serialize(&self, buffer: &mut Vec<u8>)
        ensures
            final(buffer)@ == old(buffer)@ + self.encoded(),
    {
        buffer.push(self.use_method as u8);
        crate::codec::write_u64(buffer, self.remaining);
        crate::codec::write_u64(buffer, self.total);
        assert(buffer@ =~= old(buffer)@ + self.encoded());
    }

    /// Reads uses from the start of `data`.
    pub fn deserialize(data: &[u8]) -> (r: Result<Self, &'static str>)
        ensures
            r is Ok <==> Uses::decodable(data@),
            r is Ok ==> r->Ok_0 == Uses::decoded(data@),
    {
        if data.len() < 17 {
            return Err("Insufficient data for Uses");
        }
        let use_method = match UseMethod::from_u8(data[0]) {
            Ok(m) => m,
            Err(_) => return Err("Invalid UseMethod"),
        };
        let remaining = u64_from_le_bytes(slice_subrange(data, 1, 9));
        let total = u64_from_le_bytes(slice_subrange(data, 9, 17));
        Ok(Uses { use_method, remaining, total })
    }
}

/// Decoding the encoding of uses gives them back.
pub proof fn lemma_uses_round_trip(u: Uses)
    ensures
        u.encoded().len() == 17,
        Uses::decodable(u.encoded()),
        Uses::decoded(u.encoded()) == u,
{
    lemma_auto_spec_u64_to_from_le_bytes();
    let e = u.encoded();
    assert(spec_u64_to_le_bytes(u.remaining).len() == 8);
    assert(spec_u64_to_le_bytes(u.total).len() == 8);
    assert(e.subrange(1, 9) =~= spec_u64_to_le_bytes(u.remaining));
    assert(e.subrange(9, 17) =~= spec_u64_to_le_bytes(u.total));
}

/// Grants an authority a number of uses; a fixed-size record of 18 bytes.
#[derive(Clone, Copy, Debug, PartialEq, Eq, Structural)]
pub struct UseAuthorityRecord {
    pub key: Key,
    pub allowed_uses: u64,
    pub bump: u8,
}

impl Default for UseAuthorityRecord {
    fn default() -> (r: Self)
        ensures
            r == (UseAuthorityRecord { key: Key::UseAuthorityRecord, allowed_uses: 0, bump: 255 }),
    {
        UseAuthorityRecord { key: Key::UseAuthorityRecord, allowed_uses: 0, bump: 255 }
    }
}

/// What an 18-byte use-authority record holds: tag, allowed uses, bump, padding.
pub open spec fn parse_use_authority_record(d: Seq<u8>) -> Result<UseAuthorityRecord, DeserializeError> {
    if d.len() != 18 {
        Err(DeserializeError::InvalidData)
    } else if key_of_byte(d[0]) != Some(Key::UseAuthorityRecord) {
        Err(DeserializeError::DataTypeMismatch)
    } else {
        Ok(
            UseAuthorityRecord {
                key: Key::UseAuthorityRecord,
                allowed_uses: spec_u64_from_le_bytes(d.subrange(1, 9)),
                bump: d[9],
            },
        )
    }
}

impl TokenMetadataAccount for UseAuthorityRecord {
    open spec fn spec_key() -> Key {
        Key::UseAuthorityRecord
    }

    open spec fn spec_size() -> usize {
        USE_AUTHORITY_RECORD_SIZE
    }

    open spec fn parse_record(data: Seq<u8>) -> Result<Self, DeserializeError> {
        parse_use_authority_record(data)
    }

    fn key() -> (r: Key) {
        Key::UseAuthorityRecord
    }

    fn size() -> (r: usize) {
        USE_AUTHORITY_RECORD_SIZE
    }

    fn safe_deserialize(data: &[u8]) -> (r: Result<Self, DeserializeError>) {
        if data.len() != USE_AUTHORITY_RECORD_SIZE {
            return Err(DeserializeError::InvalidData);
        }
        let key = match Key::from_byte(data[0]) {
            Some(k) => k,
            None => return Err(DeserializeError::DataTypeMismatch),
        };
        if key != Key::UseAuthorityRecord {
            return Err(DeserializeError::DataTypeMismatch);
        }
        let allowed_uses = u64_from_le_bytes(slice_subrange(data, 1, 9));
        let bump = data[9];
        Ok(UseAuthorityRecord { key, allowed_uses, bump })
    }
}

impl UseAuthorityRecord {
    /// Decodes a record, reporting any failure as `DataTypeMismatch`.
    pub fn from_bytes(b: &[u8]) -> (r: Result<UseAuthorityRecord, ProgramError>)
        ensures
            r == match parse_use_authority_record(b@) {
                Ok(v) => Ok(v),
                Err(_) => Err(ProgramError::Custom(MetadataError::DataTypeMismatch as u32)),
            },
    {
        match Self::safe_deserialize(b) {
            Ok(v) => Ok(v),
            Err(_) => Err(ProgramError::Custom(MetadataError::DataTypeMismatch.code())),
        }
    }

    /// Whether the record is a use-authority record whose bump is 0.
    pub fn bump_empty(&self) -> (r: bool)
        ensures
            r == (self.bump == 0 && self.key == Key::UseAuthorityRecord),
    {
        self.bump == 0 && self.key == Key::UseAuthorityRecord
    }
}

} // verus!
