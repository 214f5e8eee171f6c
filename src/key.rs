//! The one-byte account-type tag that starts every variable-length record.

use vstd::prelude::*;

verus! {

/// Account type, stored as its declaration index in the first byte of a record; `Uninitialized` (0) marks a fresh account.
#[derive(Clone, Copy, Debug, PartialEq, Eq, Structural)]
pub enum Key {
    Uninitialized,
    EditionV1,
    MasterEditionV1,
    ReservationListV1,
    MetadataV1,
    ReservationListV2,
    MasterEditionV2,
    EditionMarker,
    UseAuthorityRecord,
    CollectionAuthorityRecord,
    TokenOwnedEscrow,
    TokenRecord,
    MetadataDelegate,
    EditionMarkerV2,
    HolderDelegate,
}

/// The account type whose tag is `value`, if any.
pub open spec fn key_of_byte(value: u8) -> Option<Key> {
    if value == 0 {
        Some(Key::Uninitialized)
    } else if value == 1 {
        Some(Key::EditionV1)
    } else if value == 2 {
        Some(Key::MasterEditionV1)
    } else if value == 3 {
        Some(Key::ReservationListV1)
    } else if value == 4 {
        Some(Key::MetadataV1)
    } else if value == 5 {
        Some(Key::ReservationListV2)
    } else if value == 6 {
        Some(Key::MasterEditionV2)
    } else if value == 7 {
        Some(Key::EditionMarker)
    } else if value == 8 {
        Some(Key::UseAuthorityRecord)
    } else if value == 9 {
        Some(Key::CollectionAuthorityRecord)
    } else if value == 10 {
        Some(Key::TokenOwnedEscrow)
    } else if value == 11 {
        Some(Key::TokenRecord)
    } else if value == 12 {
        Some(Key::MetadataDelegate)
    } else if value == 13 {
        Some(Key::EditionMarkerV2)
    } else if value == 14 {
        Some(Key::HolderDelegate)
    } else {
        None
    }
}

impl Key {
    /// The variant whose discriminant is `value`, if any.
    pub fn from_byte(value: u8) -> (r: Option<Key>)
        ensures
            r == key_of_byte(value),
    {
        match value {
            0 => Some(Key::Uninitialized),
            1 => Some(Key::EditionV1),
            2 => Some(Key::MasterEditionV1),
            3 => Some(Key::ReservationListV1),
            4 => Some(Key::MetadataV1),
            5 => Some(Key::ReservationListV2),
            6 => Some(Key::MasterEditionV2),
            7 => Some(Key::EditionMarker),
            8 => Some(Key::UseAuthorityRecord),
            9 => Some(Key::CollectionAuthorityRecord),
            10 => Some(Key::TokenOwnedEscrow),
            11 => Some(Key::TokenRecord),
            12 => Some(Key::MetadataDelegate),
            13 => Some(Key::EditionMarkerV2),
            14 => Some(Key::HolderDelegate),
            _ => None,
        }
    }
}

impl TryFrom<u8> for Key {
    type Error = ();

    fn try_from(value: u8) -> (r: Result<Key, ()>) {
        match Key::from_byte(value) {
            Some(k) => Ok(k),
            None => Err(()),
        }
    }
}

impl vstd::std_specs::convert::TryFromSpecImpl<u8> for Key {
    open spec fn obeys_try_from_spec() -> bool {
        true
    }

    open spec fn try_from_spec(value: u8) -> Result<Key, ()> {
        match key_of_byte(value) {
            Some(k) => Ok(k),
            None => Err(()),
        }
    }
}

/// Decoding the discriminant of a variant gives the variant back.
pub proof fn lemma_key_of_byte_round_trip(v: Key)
    ensures
        key_of_byte(v as u8) == Some(v),
{
}

} // verus!
