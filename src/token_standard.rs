//! The kind of token that a metadata record describes.

use vstd::prelude::*;

verus! {

/// Kind of token, stored as its declaration index.
#[derive(Clone, Copy, Debug, PartialEq, Eq, Structural)]
pub enum TokenStandard {
    NonFungible,
    FungibleAsset,
    Fungible,
    NonFungibleEdition,
    ProgrammableNonFungible,
    ProgrammableNonFungibleEdition,
}

/// The token standard whose discriminant is `value`, if any.
pub open spec fn token_standard_of_byte(value: u8) -> Option<TokenStandard> {
    if value == 0 {
        Some(TokenStandard::NonFungible)
    } else if value == 1 {
        Some(TokenStandard::FungibleAsset)
    } else if value == 2 {
        Some(TokenStandard::Fungible)
    } else if value == 3 {
        Some(TokenStandard::NonFungibleEdition)
    } else if value == 4 {
        Some(TokenStandard::ProgrammableNonFungible)
    } else if value == 5 {
        Some(TokenStandard::ProgrammableNonFungibleEdition)
    } else {
        None
    }
}

impl TokenStandard {
    /// The variant whose discriminant is `value`, if any.
    pub fn from_byte(value: u8) -> (r: Option<TokenStandard>)
        ensures
            r == token_standard_of_byte(value),
    {
        match value {
            0 => Some(TokenStandard::NonFungible),
            1 => Some(TokenStandard::FungibleAsset),
            2 => Some(TokenStandard::Fungible),
            3 => Some(TokenStandard::NonFungibleEdition),
            4 => Some(TokenStandard::ProgrammableNonFungible),
            5 => Some(TokenStandard::ProgrammableNonFungibleEdition),
            _ => None,
        }
    }
}

impl TryFrom<u8> for TokenStandard {
    type Error = ();

    fn try_from(value: u8) -> (r: Result<TokenStandard, ()>) {
        match TokenStandard::from_byte(value) {
            Some(k) => Ok(k),
            None => Err(()),
        }
    }
}

impl vstd::std_specs::convert::TryFromSpecImpl<u8> for TokenStandard {
    open spec fn obeys_try_from_spec() -> bool {
        true
    }

    open spec fn try_from_spec(value: u8) -> Result<TokenStandard, ()> {
        match token_standard_of_byte(value) {
            Some(k) => Ok(k),
            None => Err(()),
        }
    }
}

/// Decoding the discriminant of a variant gives the variant back.
pub proof fn lemma_token_standard_of_byte_round_trip(v: TokenStandard)
    ensures
        token_standard_of_byte(v as u8) == Some(v),
{
}

} // verus!
