use mpl_metadata::account::TokenMetadataAccount;
use mpl_metadata::collection::CollectionAuthorityRecord;
use mpl_metadata::delegate::{HolderDelegateRole, MetadataDelegateRole};
use mpl_metadata::error::{DeserializeError, MetadataError, ProgramError, CUSTOM_ZERO, INCORRECT_AUTHORITY, INVALID_ARGUMENT};
use mpl_metadata::instructions::{AccountMeta, Create, InitilizeMint2, TransferMetadata, UpdateNonceAccount};
use mpl_metadata::key::Key;
use mpl_metadata::token_standard::TokenStandard;
use mpl_metadata::uses::UseAuthorityRecord;

#[test]
fn error_codes() {
    assert_eq!(u64::from(ProgramError::InvalidArgument), 2u64 << 32);
    assert_eq!(u64::from(ProgramError::InvalidArgument), INVALID_ARGUMENT);
    assert_eq!(u64::from(ProgramError::IncorrectAuthority), INCORRECT_AUTHORITY);
    assert_eq!(u64::from(ProgramError::Custom(0)), CUSTOM_ZERO);
    assert_eq!(u64::from(ProgramError::Custom(42)), 42);
    assert_eq!(ProgramError::from(4u64 << 32), ProgramError::InvalidAccountData);
    assert_eq!(ProgramError::from(1u64 << 32), ProgramError::Custom(0));
    assert_eq!(ProgramError::from(7u64), ProgramError::Custom(7));
    assert_eq!(ProgramError::from(27u64 << 32), ProgramError::Custom(0));
}

#[test]
fn error_codes_round_trip() {
    for e in [
        ProgramError::Custom(0),
        ProgramError::Custom(9),
        ProgramError::InvalidArgument,
        ProgramError::AccountBorrowFailed,
        ProgramError::IncorrectAuthority,
    ] {
        assert_eq!(ProgramError::from(u64::from(e.clone())), e);
    }
}

#[test]
fn metadata_error_codes() {
    assert_eq!(MetadataError::InstructionUnpackError.code(), 0);
    assert_eq!(MetadataError::NumericalOverflowError.code(), 51);
    assert_eq!(ProgramError::from(MetadataError::NotRentExempt), ProgramError::Custom(2));
    let last: ProgramError = MetadataError::ConditionsForClosingNotMet.into();
    assert_eq!(last, ProgramError::Custom(200));
}

#[test]
fn key_and_standard_from_bytes() {
    assert_eq!(Key::try_from(4u8), Ok(Key::MetadataV1));
    assert_eq!(Key::try_from(14u8), Ok(Key::HolderDelegate));
    assert_eq!(Key::try_from(15u8), Err(()));
    assert_eq!(TokenStandard::try_from(5u8), Ok(TokenStandard::ProgrammableNonFungibleEdition));
    assert_eq!(TokenStandard::try_from(6u8), Err(()));
}

#[test]
fn account_type_checks() {
    let mut data = vec![0u8; 35];
    assert!(CollectionAuthorityRecord::is_correct_account_type(&data, Key::CollectionAuthorityRecord, 35));
    data[0] = 9;
    assert!(CollectionAuthorityRecord::is_correct_account_type(&data, Key::CollectionAuthorityRecord, 0));
    assert!(!CollectionAuthorityRecord::is_correct_account_type(&data, Key::CollectionAuthorityRecord, 34));
    assert!(!CollectionAuthorityRecord::is_correct_account_type(&data, Key::UseAuthorityRecord, 35));
    data[0] = 200;
    assert!(!CollectionAuthorityRecord::is_correct_account_type(&data, Key::CollectionAuthorityRecord, 35));
    assert!(!CollectionAuthorityRecord::is_correct_account_type(&[], Key::Uninitialized, 0));
}

#[test]
fn pad_length_fills_to_size() {
    let mut buf = vec![1u8, 2, 3];
    UseAuthorityRecord::pad_length(&mut buf).unwrap();
    assert_eq!(buf.len(), 18);
    assert_eq!(&buf[..4], &[1, 2, 3, 0]);
    let mut long = vec![0u8; 19];
    assert_eq!(UseAuthorityRecord::pad_length(&mut long), Err(MetadataError::NumericalOverflowError));
    assert_eq!(long.len(), 19);
}

#[test]
fn record_from_account_checks_owner() {
    let mut data = vec![0u8; 18];
    data[0] = 8;
    assert!(UseAuthorityRecord::from_account_info(&data, &[1u8; 32], &[1u8; 32]).is_ok());
    assert_eq!(
        UseAuthorityRecord::from_account_info(&data, &[1u8; 32], &[2u8; 32]).err(),
        Some(ProgramError::Custom(MetadataError::IncorrectOwner as u32))
    );
    data[0] = 1;
    assert_eq!(
        UseAuthorityRecord::from_account_info(&data, &[1u8; 32], &[1u8; 32]).err(),
        Some(ProgramError::Custom(MetadataError::DataTypeMismatch as u32))
    );
    assert_eq!(UseAuthorityRecord::key(), Key::UseAuthorityRecord);
    assert_eq!(CollectionAuthorityRecord::size(), 35);
}

#[test]
fn create_instruction() {
    let c = Create {
        metadata_account: [1u8; 32],
        mint: [2u8; 32],
        mint_authority: [3u8; 32],
        payer: [4u8; 32],
        update_authority: [5u8; 32],
        name: "N".to_string(),
        symbol: "S".to_string(),
        uri: "U".to_string(),
        seller_fee_basis_points: 0x0102,
    };
    let ix = c.instruction(&[9u8; 32]);
    assert_eq!(ix.program_id, [9u8; 32]);
    assert_eq!(ix.data, vec![0, 1, 0, 0, 0, b'N', 1, 0, 0, 0, b'S', 1, 0, 0, 0, b'U', 2, 1]);
    assert_eq!(ix.accounts.len(), 5);
    assert_eq!(ix.accounts[0], AccountMeta { pubkey: [1u8; 32], is_writable: true, is_signer: false });
    assert_eq!(ix.accounts[3], AccountMeta { pubkey: [4u8; 32], is_writable: false, is_signer: true });
}

#[test]
fn transfer_and_nonce_instructions() {
    let ix = TransferMetadata { metadata: [1u8; 32], owner: [2u8; 32], new_owner: [3u8; 32] }.instruction(&[0u8; 32]);
    assert_eq!(ix.data, vec![1]);
    assert!(ix.accounts[1].is_signer);
    let ix = UpdateNonceAccount { account: [7u8; 32] }.instruction(&[0u8; 32]);
    assert_eq!(ix.data, vec![12]);
    assert!(ix.accounts[0].is_writable);
}

#[test]
fn initialize_mint_instruction() {
    let ix = InitilizeMint2 { mint: [1u8; 32], decimals: 6, mint_authority: [2u8; 32], freeze_authority: Some([3u8; 32]) }
        .instruction(&[0u8; 32]);
    assert_eq!(ix.data.len(), 67);
    assert_eq!(&ix.data[..2], &[20, 6]);
    assert_eq!(ix.data[34], 1);
    assert_eq!(&ix.data[35..], &[3u8; 32]);
    let ix = InitilizeMint2 { mint: [1u8; 32], decimals: 0, mint_authority: [2u8; 32], freeze_authority: None }
        .instruction(&[0u8; 32]);
    assert_eq!(ix.data.len(), 67);
    assert_eq!(ix.data[34], 0);
    assert_eq!(&ix.data[35..], &[0u8; 32]);
}

#[test]
fn delegate_role_names() {
    assert_eq!(HolderDelegateRole::PrintDelegate.to_role_string(), "print_delegate");
    assert_eq!(MetadataDelegateRole::ProgrammableConfigItem.to_role_string(), "prog_config_item_delegate");
    assert_eq!(MetadataDelegateRole::Data.to_role_string(), "data_delegate");
}

#[test]
fn safe_deserialize_error_kinds() {
    let mut data = vec![0u8; 35];
    data[0] = 8;
    assert_eq!(CollectionAuthorityRecord::safe_deserialize(&data), Err(DeserializeError::DataTypeMismatch));
    data[0] = 99;
    assert_eq!(CollectionAuthorityRecord::safe_deserialize(&data), Err(DeserializeError::DataTypeMismatch));
    assert_eq!(CollectionAuthorityRecord::safe_deserialize(&data[..34]), Err(DeserializeError::InvalidData));
    let mut rec = vec![0u8; 18];
    rec[0] = 8;
    rec[1..9].copy_from_slice(&300u64.to_le_bytes());
    rec[9] = 7;
    let r = UseAuthorityRecord::safe_deserialize(&rec).unwrap();
    assert_eq!((r.allowed_uses, r.bump), (300, 7));
}
