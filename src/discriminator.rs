//! Eight-byte discriminators that identify SPL-compatible account layouts.

use vstd::prelude::*;

verus! {

/// A simple array-based discriminator (8 bytes).
#[derive(Clone, Copy, Debug, PartialEq, Eq)]
pub struct ArrayDiscriminator(pub [u8; 8]);

impl ArrayDiscriminator {
    pub const LENGTH: usize = 8;

    /// Wraps the 8 bytes.
    pub fn new(value: [u8; 8]) -> (r: Self)
        ensures
            r.0 == value,
    {
        ArrayDiscriminator(value)
    }

    /// The 8 bytes.
    pub fn as_slice(&self) -> (r: &[u8])
        ensures
            r@ == self.0@,
    {
        self.0.as_slice()
    }

    /// The all-zero discriminator of an uninitialized account.
    pub fn uninitialized() -> (r: Self)
        ensures
            r.0@ == Seq::new(8, |i: int| 0u8),
    {
        let r = ArrayDiscriminator([0u8; 8]);
        assert(r.0@ =~= Seq::new(8, |i: int| 0u8));
        r
    }

    /// The discriminator held by `a`; fails with `InvalidAccountData` unless `a` has 8 bytes.
    pub fn try_from_slice(a: &[u8]) -> (r: Result<Self, crate::error::ProgramError>)
        ensures
            r is Ok <==> a@.len() == 8,
            r is Ok ==> r->Ok_0.0@ == a@,
            r is Err ==> r->Err_0 == crate::error::ProgramError::InvalidAccountData,
    {
        if a.len() == 8 {
            Ok(ArrayDiscriminator(crate::pubkey::copy_array::<8>(a)))
        } else {
            Err(crate::error::ProgramError::InvalidAccountData)
        }
    }
}

impl From<[u8; 8]> for ArrayDiscriminator {
    fn from(from: [u8; 8]) -> (r: Self) {
        ArrayDiscriminator(from)
    }
}

impl vstd::std_specs::convert::FromSpecImpl<[u8; 8]> for ArrayDiscriminator {
    open spec fn obeys_from_spec() -> bool {
        true
    }

    open spec fn from_spec(from: [u8; 8]) -> ArrayDiscriminator {
        ArrayDiscriminator(from)
    }
}

/// A type that has an SPL-compatible 8-byte discriminator.
pub trait SplDiscriminate {
    /// The discriminator of the type.
    fn spl_discriminator() -> ArrayDiscriminator;
}

} // verus!
