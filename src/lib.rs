//! Account-data codecs for a token-metadata program: fixed-layout records, primitive
//! fields, optional-field framing, versioned variants and the composite metadata record.

pub mod error;
pub mod pubkey;
pub mod key;
pub mod token_standard;
pub mod codec;
pub mod account;
pub mod creator;
pub mod collection;
pub mod uses;
pub mod asset_data;
pub mod metadata;
pub mod discriminator;
pub mod token_metadata;
pub mod delegate;
pub mod token_state;
pub mod instructions;
