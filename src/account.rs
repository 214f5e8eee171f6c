//! Fixed-size account records that start with a type tag.

use vstd::prelude::*;
use crate::error::{DeserializeError, MetadataError, ProgramError};
use crate::key::{Key, key_of_byte};
use crate::pubkey::Pubkey;

verus! {

/// Whether `data` holds an account of type `data_type` (or a fresh one) of the expected size,
/// where a size of 0 admits any length.
pub open spec fn account_type_matches(data: Seq<u8>, data_type: Key, data_size: usize) -> bool {
    &&& data.len() > 0
    &&& key_of_byte(data[0]) is Some
    &&& (key_of_byte(data[0]) == Some(data_type) || key_of_byte(data[0]) == Some(Key::Uninitialized))
    &&& (data.len() == data_size || data_size == 0)
}

/// `n` zero bytes.
pub open spec fn zeros(n: nat) -> Seq<u8> {
    Seq::new(n, |i: int| 0u8)
}

/// Fails with `IncorrectOwner` unless the account's owner is `owner`.
pub fn assert_owned_by(account_owner: &Pubkey, owner: &Pubkey) -> (r: Result<(), ProgramError>)
    ensures
        r is Ok <==> account_owner@ == owner@,
        r is Err ==> r == Err::<(), ProgramError>(ProgramError::Custom(MetadataError::IncorrectOwner as u32)),
{
    let mut i: usize = 0;
    while i < 32
        invariant
            0 <= i <= 32,
            account_owner@.len() == 32,
            owner@.len() == 32,
            forall|j: int| 0 <= j < i ==> account_owner@[j] == owner@[j],
        decreases 32 - i,
    {
        if account_owner[i] != owner[i] {
            return Err(ProgramError::Custom(MetadataError::IncorrectOwner.code()));
        }
        i += 1;
    }
    assert(account_owner@ =~= owner@);
    Ok(())
}

/// A record type stored in an account of its own, with a tag and a fixed size.
pub trait TokenMetadataAccount: Sized {
    /// The tag of this record type.
    spec fn spec_key() -> Key;

    /// The size of this record type in bytes, 0 where it varies.
    spec fn spec_size() -> usize;

    /// What decoding `data` gives.
    spec fn parse_record(data: Seq<u8>) -> Result<Self, DeserializeError>;

    fn key() -> (r: Key)
        ensures
            r == Self::spec_key(),
    ;

    fn size() -> (r: usize)
        ensures
            r == Self::spec_size(),
    ;

    fn safe_deserialize(data: &[u8]) -> (r: Result<Self, DeserializeError>)
        ensures
            r == Self::parse_record(data@),
    ;

    /// Whether `data` starts with the tag `data_type` (or the fresh-account tag) and has
    /// the size `data_size`, where a size of 0 admits any length.
    fn is_correct_account_type(data: &[u8], data_type: Key, data_size: usize) -> (r: bool)
        ensures
            r == account_type_matches(data@, data_type, data_size),
    {
        if data.len() == 0 {
            return false;
        }
        match Key::from_byte(data[0]) {
            Some(k) => (k == data_type || k == Key::Uninitialized) && (data.len() == data_size
                || data_size == 0),
            None => false,
        }
    }

    /// Pads `buf` with zeros up to the record size; fails when it is already longer.
    /// Records of varying size (size 0) are left as they are.
    fn pad_length(buf: &mut Vec<u8>) -> (r: Result<(), MetadataError>)
        ensures
            Self::spec_size() == 0 ==> r is Ok && final(buf)@ == old(buf)@,
            Self::spec_size() != 0 && old(buf)@.len() > Self::spec_size() ==> r == Err::<(), MetadataError>(MetadataError::NumericalOverflowError)
                && final(buf)@ == old(buf)@,
            Self::spec_size() != 0 && old(buf)@.len() <= Self::spec_size() ==> r is Ok
                && final(buf)@ == old(buf)@ + zeros((Self::spec_size() - old(buf)@.len()) as nat),
    {
        let size = Self::size();
        if size != 0 {
            if buf.len() > size {
                return Err(MetadataError::NumericalOverflowError);
            }
            let padding_length = size - buf.len();
            let mut i: usize = 0;
            while i < padding_length
                invariant
                    0 <= i <= padding_length,
                    buf@ == old(buf)@ + zeros(i as nat),
                decreases padding_length - i,
            {
                buf.push(0u8);
                assert(zeros((i + 1) as nat) =~= zeros(i as nat).push(0u8));
                i += 1;
            }
        }
        Ok(())
    }

    /// Decodes the record held by an account and checks that `program_id` owns it.
    fn from_account_info(data: &[u8], owner: &Pubkey, program_id: &Pubkey) -> (r: Result<Self, ProgramError>)
        ensures
            Self::parse_record(data@) is Err ==> r == Err::<Self, ProgramError>(ProgramError::Custom(MetadataError::DataTypeMismatch as u32)),
            Self::parse_record(data@) is Ok && owner@ != program_id@ ==> r == Err::<Self, ProgramError>(ProgramError::Custom(MetadataError::IncorrectOwner as u32)),
            Self::parse_record(data@) is Ok && owner@ == program_id@ ==> r == Ok::<Self, ProgramError>(Self::parse_record(data@)->Ok_0),
    {
        let record = match Self::safe_deserialize(data) {
            Ok(v) => v,
            Err(_) => return Err(ProgramError::Custom(MetadataError::DataTypeMismatch.code())),
        };
        match assert_owned_by(owner, program_id) {
            Ok(()) => Ok(record),
            Err(e) => Err(e),
        }
    }
}

} // verus!
