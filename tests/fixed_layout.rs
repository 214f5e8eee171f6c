use mpl_metadata::account::assert_owned_by;
use mpl_metadata::discriminator::{ArrayDiscriminator, SplDiscriminate};
use mpl_metadata::error::{MetadataError, ProgramError};
use mpl_metadata::token_metadata::{read_str_from_bytes, Field, TokenMetadata, TOKEN_METADATA_LEN};

fn blank() -> TokenMetadata {
    TokenMetadata::from_bytes(&vec![0u8; TOKEN_METADATA_LEN]).unwrap()
}

#[test]
fn layout_size() {
    assert_eq!(TokenMetadata::LEN, 2376);
    assert!(TokenMetadata::from_bytes(&vec![0u8; 2375]).is_err());
    assert_eq!(
        TokenMetadata::from_bytes(&vec![0u8; 2377]).err(),
        Some(ProgramError::InvalidAccountData)
    );
}

#[test]
fn from_account_info_checks_owner_and_length() {
    let data = vec![0u8; TOKEN_METADATA_LEN];
    assert!(TokenMetadata::from_account_info(&data, &[1u8; 32], &[1u8; 32]).is_ok());
    assert_eq!(
        TokenMetadata::from_account_info(&data, &[2u8; 32], &[1u8; 32]).err(),
        Some(ProgramError::InvalidAccountOwner)
    );
    assert_eq!(
        TokenMetadata::from_account_info(&data[1..], &[1u8; 32], &[1u8; 32]).err(),
        Some(ProgramError::InvalidAccountData)
    );
}

#[test]
fn write_then_read_name_symbol_uri() {
    let mut t = blank();
    t.set_name("Token");
    t.set_symbol("TKN");
    t.set_uri("https://example.com/t.json");
    assert_eq!(t.name(), "Token");
    assert_eq!(t.symbol(), "TKN");
    assert_eq!(t.uri(), "https://example.com/t.json");
    assert_eq!(&t.as_bytes()[64..70], b"Token\0");
}

#[test]
fn long_name_is_truncated_to_capacity_less_one() {
    let mut t = blank();
    let long = "a".repeat(40);
    t.set_name(&long);
    assert_eq!(t.name(), &long[..31]);
    t.set_name("b");
    assert_eq!(t.name(), "b");
}

#[test]
fn truncation_inside_a_character_reads_empty() {
    let mut t = blank();
    let s = format!("{}é", "a".repeat(30));
    assert_eq!(s.len(), 32);
    t.set_name(&s);
    assert_eq!(t.name(), "");
}

#[test]
fn invalid_utf8_field_reads_empty() {
    assert_eq!(read_str_from_bytes(&[0xff, 0xfe, 0]), "");
    assert_eq!(read_str_from_bytes(&[b'h', b'i', 0, b'x']), "hi");
    assert_eq!(read_str_from_bytes(b"full"), "full");
}

#[test]
fn key_value_set_get_remove() {
    let mut t = blank();
    assert_eq!(t.get_value("color"), None);
    t.set_key_value("color", "blue").unwrap();
    assert_eq!(t.get_value("color"), Some("blue"));
    t.set_key_value("color", "red").unwrap();
    assert_eq!(t.get_value("color"), Some("red"));
    t.set_key_value("size", "9").unwrap();
    assert_eq!(t.get_value("size"), Some("9"));
    assert!(t.remove_key("color"));
    assert_eq!(t.get_value("color"), None);
    assert!(!t.remove_key("color"));
    assert_eq!(t.get_value("size"), Some("9"));
}

#[test]
fn removed_slot_is_reused() {
    let mut t = blank();
    t.set_key_value("a", "1").unwrap();
    t.set_key_value("b", "2").unwrap();
    t.remove_key("a");
    t.set_key_value("c", "3").unwrap();
    assert_eq!(&t.as_bytes()[328..330], b"c\0");
}

#[test]
fn table_full_after_max_pairs() {
    let mut t = blank();
    for i in 0..32 {
        t.set_key_value(&format!("k{}", i), "v").unwrap();
    }
    assert_eq!(t.set_key_value("k32", "v"), Err(ProgramError::AccountDataTooSmall));
    assert_eq!(t.set_key_value("k5", "w"), Ok(()));
    assert_eq!(t.get_value("k5"), Some("w"));
}

#[test]
fn long_key_lookup_does_not_panic() {
    let mut t = blank();
    let long = "k".repeat(40);
    assert_eq!(t.get_value(&long), None);
    assert_eq!(t.set_key_value(&long, "v"), Err(ProgramError::InvalidArgument));
    assert_eq!(t.as_bytes(), blank().as_bytes());
    assert_eq!(t.get_value(&long), None);
    assert_eq!(t.get_value(&long[..31]), None);
    assert_eq!(t.get_value(&long[..32]), None);
    assert!(!t.remove_key(&long));
}

#[test]
fn key_of_capacity_is_stored_cut() {
    let mut t = blank();
    let key = "k".repeat(31);
    t.set_key_value(&key, "v").unwrap();
    assert_eq!(t.get_value(&key), Some("v"));
    let full = "j".repeat(32);
    assert_eq!(t.set_key_value(&full, "w"), Ok(()));
    assert_eq!(t.get_value(&full[..31]), Some("w"));
    let longer = "k".repeat(33);
    assert_eq!(t.set_key_value(&longer, "x"), Err(ProgramError::InvalidArgument));
    assert_eq!(t.get_value(&key), Some("v"));
}

#[test]
fn key_with_zero_byte_is_stored_cut() {
    let mut t = blank();
    assert_eq!(t.set_key_value("a\0b", "v"), Ok(()));
    assert_eq!(t.get_value("a"), Some("v"));
    assert_eq!(t.get_value("a\0b"), None);
}

#[test]
fn slot_key_filling_its_field_is_found() {
    let mut data = vec![0u8; TOKEN_METADATA_LEN];
    for b in data[328..360].iter_mut() {
        *b = b'z';
    }
    data[360] = b'v';
    let mut t = TokenMetadata::from_bytes(&data).unwrap();
    let key = "z".repeat(32);
    assert_eq!(t.get_value(&key), Some("v"));
    assert!(t.remove_key(&key));
    assert_eq!(&t.as_bytes()[328..392], &[0u8; 64][..]);
    assert_eq!(t.get_value(&key), None);
}

#[test]
fn long_value_is_truncated() {
    let mut t = blank();
    let long = "v".repeat(40);
    t.set_key_value("k", &long).unwrap();
    assert_eq!(t.get_value("k"), Some(&long[..31]));
}

#[test]
fn update_dispatches_fields() {
    let mut t = blank();
    t.update(Field::Name("N")).unwrap();
    t.update(Field::Symbol("S")).unwrap();
    t.update(Field::Uri("U")).unwrap();
    t.update(Field::Key("k", "v")).unwrap();
    assert_eq!((t.name(), t.symbol(), t.uri()), ("N", "S", "U"));
    assert_eq!(t.get_value("k"), Some("v"));
}

#[test]
fn authority_and_mint() {
    let mut data = vec![0u8; TOKEN_METADATA_LEN];
    let t = TokenMetadata::from_bytes(&data).unwrap();
    assert!(!t.has_update_authority());
    data[5] = 1;
    for b in data[32..64].iter_mut() {
        *b = 7;
    }
    let t = TokenMetadata::from_bytes(&data).unwrap();
    assert!(t.has_update_authority());
    assert_eq!(t.update_authority()[5], 1);
    assert_eq!(t.mint(), [7u8; 32]);
}

#[test]
fn discriminators() {
    let d = TokenMetadata::spl_discriminator();
    assert_eq!(d.as_slice(), &[112, 132, 90, 90, 11, 88, 157, 87]);
    assert_eq!(ArrayDiscriminator::new([1; 8]), ArrayDiscriminator::from([1u8; 8]));
    assert_eq!(ArrayDiscriminator::uninitialized().as_slice(), &[0u8; 8]);
    assert!(ArrayDiscriminator::try_from_slice(&[1, 2, 3]).is_err());
    assert_eq!(ArrayDiscriminator::try_from_slice(&[2u8; 8]).unwrap(), ArrayDiscriminator([2u8; 8]));
}

#[test]
fn owner_check() {
    assert_eq!(assert_owned_by(&[1u8; 32], &[1u8; 32]), Ok(()));
    assert_eq!(
        assert_owned_by(&[1u8; 32], &[2u8; 32]),
        Err(ProgramError::Custom(MetadataError::IncorrectOwner as u32))
    );
}
