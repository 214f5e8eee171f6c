//! Lock state of a programmable token account.

use vstd::prelude::*;

verus! {

/// Seed prefix of token-record addresses.
pub const TOKEN_RECORD_SEED: &'static str = "token_record";

/// Position of the state byte within a token record.
pub const TOKEN_STATE_INDEX: usize = 2;

/// Position of the type tag within a record.
pub const DISCRIMINATOR_INDEX: usize = 0;

/// The state of a programmable token account.
#[derive(Clone, Copy, Debug, PartialEq, Eq, Structural)]
pub enum TokenState {
    /// Operations are allowed on the account.
    Unlocked,
    /// No operations are allowed on the account.
    Locked,
    /// A sale delegate is set; operations are restricted.
    Listed,
}

} // verus!
