use mpl_metadata::asset_data::AssetData;
use mpl_metadata::collection::{Collection, CollectionDetails};
use mpl_metadata::creator::Creator;
use mpl_metadata::error::DeserializeError;
use mpl_metadata::metadata::{Metadata, ProgrammableConfig};
use mpl_metadata::error::ProgramError;
use mpl_metadata::key::Key;
use mpl_metadata::token_standard::TokenStandard;
use mpl_metadata::uses::{UseMethod, Uses};

fn full_asset() -> AssetData {
    let mut a = AssetData::new(
        TokenStandard::ProgrammableNonFungible,
        "Name é".to_string(),
        "SYM".to_string(),
        "https://x.io/a.json".to_string(),
    );
    a.seller_fee_basis_points = 500;
    a.creators = Some(vec![
        Creator { address: [1u8; 32], verified: true, share: 60 },
        Creator { address: [2u8; 32], verified: false, share: 40 },
    ]);
    a.primary_sale_happened = true;
    a.is_mutable = false;
    a.collection = Some(Collection { verified: true, key: [3u8; 32] });
    a.uses = Some(Uses { use_method: UseMethod::Single, remaining: 1, total: 2 });
    a.collection_details = Some(CollectionDetails::V1 { size: 42 });
    a.rule_set = Some([4u8; 32]);
    a
}

#[test]
fn asset_new_defaults() {
    let a = AssetData::new(TokenStandard::Fungible, "n".to_string(), "s".to_string(), "u".to_string());
    assert_eq!(a.seller_fee_basis_points, 0);
    assert!(a.is_mutable);
    assert!(!a.primary_sale_happened);
    assert!(a.creators.is_none() && a.collection.is_none() && a.uses.is_none());
    assert!(a.collection_details.is_none() && a.rule_set.is_none());
}

#[test]
fn asset_minimal_exact_bytes() {
    let a = AssetData::new(TokenStandard::NonFungible, "ab".to_string(), "".to_string(), "c".to_string());
    let bytes = a.serialize();
    let expected: Vec<u8> = vec![
        2, 0, 0, 0, b'a', b'b', 0, 0, 0, 0, 1, 0, 0, 0, b'c', 0, 0, 0, 0, 1, 0, 0, 0, 0, 0,
    ];
    assert_eq!(bytes, expected);
    assert_eq!(a.calculate_serialized_length(), 25);
}

#[test]
fn asset_round_trip_full() {
    let a = full_asset();
    let bytes = a.serialize();
    assert_eq!(bytes.len(), a.calculate_serialized_length());
    assert_eq!(AssetData::deserialize(&bytes).unwrap(), a);
}

#[test]
fn asset_length_counts_every_field() {
    let a = full_asset();
    let expected = 4 + "Name é".len() + 4 + 3 + 4 + 19 + 2 + 1 + 4 + 68 + 3 + 34 + 18 + 9 + 33;
    assert_eq!(a.calculate_serialized_length(), expected);
    assert_eq!(a.serialize().len(), expected);
}

#[test]
fn asset_round_trip_ignores_trailing_bytes() {
    let a = full_asset();
    let mut bytes = a.serialize();
    bytes.extend_from_slice(&[9, 9, 9]);
    assert_eq!(AssetData::deserialize(&bytes).unwrap(), a);
}

#[test]
fn asset_truncated_input_is_invalid_data() {
    let bytes = full_asset().serialize();
    for cut in [0usize, 3, 10, 40, bytes.len() - 1] {
        assert!(matches!(AssetData::deserialize(&bytes[..cut]), Err(DeserializeError::InvalidData)));
    }
}

#[test]
fn asset_length_prefix_beyond_input_is_invalid() {
    let bytes = vec![200u8, 0, 0, 0, b'a'];
    assert!(matches!(AssetData::deserialize(&bytes), Err(DeserializeError::InvalidData)));
}

#[test]
fn asset_invalid_utf8_is_invalid_data() {
    let mut bytes = AssetData::new(TokenStandard::NonFungible, "ab".to_string(), "".to_string(), "".to_string()).serialize();
    bytes[4] = 0xff;
    assert!(matches!(AssetData::deserialize(&bytes), Err(DeserializeError::InvalidData)));
}

#[test]
fn asset_bad_flag_or_standard_is_invalid_data() {
    let a = AssetData::new(TokenStandard::NonFungible, "".to_string(), "".to_string(), "".to_string());
    let bytes = a.serialize();
    let flag_at = 4 + 4 + 4 + 2 + 1;
    let mut bad = bytes.clone();
    bad[flag_at] = 2;
    assert!(matches!(AssetData::deserialize(&bad), Err(DeserializeError::InvalidData)));
    let mut bad = bytes.clone();
    bad[flag_at + 2] = 6;
    assert!(matches!(AssetData::deserialize(&bad), Err(DeserializeError::InvalidData)));
}

#[test]
fn absent_presence_byte_ignores_following_bytes() {
    let a = AssetData::new(TokenStandard::NonFungible, "".to_string(), "".to_string(), "".to_string());
    let mut bytes = a.serialize();
    // the rule-set presence byte is last; what follows it must not be read
    assert_eq!(*bytes.last().unwrap(), 0);
    bytes.extend_from_slice(&[0xff; 40]);
    assert_eq!(AssetData::deserialize(&bytes).unwrap(), a);
}

#[test]
fn present_byte_needs_full_payload() {
    let a = AssetData::new(TokenStandard::NonFungible, "".to_string(), "".to_string(), "".to_string());
    let mut bytes = a.serialize();
    let last = bytes.len() - 1;
    bytes[last] = 1;
    bytes.extend_from_slice(&[7u8; 31]);
    assert!(matches!(AssetData::deserialize(&bytes), Err(DeserializeError::InvalidData)));
    bytes.push(7);
    assert_eq!(AssetData::deserialize(&bytes).unwrap().rule_set, Some([7u8; 32]));
}

#[test]
fn creators_count_beyond_input_is_invalid() {
    let a = AssetData::new(TokenStandard::NonFungible, "".to_string(), "".to_string(), "".to_string());
    let mut bytes = a.serialize();
    let at = 4 + 4 + 4 + 2;
    bytes[at] = 1;
    bytes.splice(at + 1..at + 1, [0xff, 0xff, 0xff, 0xff]);
    assert!(matches!(AssetData::deserialize(&bytes), Err(DeserializeError::InvalidData)));
}

#[test]
fn as_data_copies_fields() {
    let a = full_asset();
    let d = a.as_data();
    assert_eq!(d.name, a.name);
    assert_eq!(d.creators, a.creators);
    assert_eq!(d.seller_fee_basis_points, 500);
    let d2 = a.as_data_v2();
    assert_eq!(d2.collection, a.collection);
    assert_eq!(d2.uses, a.uses);
    assert_eq!(d2.uri, a.uri);
}

fn sample_metadata() -> Metadata {
    Metadata {
        key: Key::MetadataV1,
        update_authority: [8u8; 32],
        mint: [9u8; 32],
        data: full_asset(),
        primary_sale_happened: true,
        is_mutable: true,
        edition_nonce: Some(254),
        token_standard: Some(TokenStandard::NonFungibleEdition),
        collection: Some(Collection { verified: false, key: [5u8; 32] }),
        uses: Some(Uses { use_method: UseMethod::Burn, remaining: 0, total: 7 }),
        collection_details: Some(CollectionDetails::V2 { padding: [0u8; 8] }),
        programmable_config: Some(ProgrammableConfig::V1 { rule_set: Some([6u8; 32]) }),
    }
}

#[test]
fn metadata_round_trip() {
    let m = sample_metadata();
    let mut buf = Vec::new();
    m.serialize(&mut buf);
    assert_eq!(buf.len(), m.calculate_serialized_length());
    assert_eq!(buf[0], 4);
    assert_eq!(&buf[1..33], &[8u8; 32]);
    assert_eq!(Metadata::deserialize(&buf).unwrap(), m);
    assert_eq!(Metadata::from_account_info(&buf).unwrap(), m);
}

#[test]
fn metadata_round_trip_without_optionals() {
    let mut m = sample_metadata();
    m.edition_nonce = None;
    m.token_standard = None;
    m.collection = None;
    m.uses = None;
    m.collection_details = None;
    m.programmable_config = Some(ProgrammableConfig::V1 { rule_set: None });
    let mut buf = Vec::new();
    m.serialize(&mut buf);
    assert_eq!(buf.len(), m.calculate_serialized_length());
    assert_eq!(&buf[buf.len() - 3..], &[1, 0, 0]);
    assert_eq!(Metadata::deserialize(&buf).unwrap(), m);
}

#[test]
fn metadata_errors() {
    assert_eq!(Metadata::deserialize(&[]), Err("Insufficient data for key"));
    assert_eq!(Metadata::deserialize(&[15]), Err("Invalid key"));
    assert!(Metadata::deserialize(&[4, 1, 2]).is_err());
    assert_eq!(Metadata::from_account_info(&[15]), Err(ProgramError::InvalidAccountData));
    let m = sample_metadata();
    let mut buf = Vec::new();
    m.serialize(&mut buf);
    buf.pop();
    assert!(Metadata::deserialize(&buf).is_err());
}

#[test]
fn metadata_save_overwrites_sized_buffer() {
    let m = sample_metadata();
    let mut account = vec![0u8; m.calculate_serialized_length()];
    m.save(&mut account);
    let mut buf = Vec::new();
    m.serialize(&mut buf);
    assert_eq!(account, buf);
}

#[test]
fn programmable_config_bytes() {
    let mut buf = Vec::new();
    ProgrammableConfig::V1 { rule_set: None }.serialize(&mut buf);
    assert_eq!(buf, vec![0, 0]);
    let mut buf = Vec::new();
    ProgrammableConfig::V1 { rule_set: Some([1u8; 32]) }.serialize(&mut buf);
    assert_eq!(buf.len(), 34);
    assert_eq!(&buf[..2], &[0, 1]);
}

#[test]
fn metadata_nonzero_presence_reads_present() {
    let m = sample_metadata();
    let mut buf = Vec::new();
    m.serialize(&mut buf);
    let nonce_at = 65 + m.data.calculate_serialized_length() + 2;
    assert_eq!(buf[nonce_at], 1);
    buf[nonce_at] = 2;
    assert_eq!(Metadata::deserialize(&buf).unwrap().edition_nonce, Some(254));
    buf[nonce_at - 1] = 9;
    assert!(Metadata::deserialize(&buf).unwrap().is_mutable);
}

#[test]
fn metadata_absent_presence_ignores_rest() {
    let mut m = sample_metadata();
    m.programmable_config = None;
    let mut buf = Vec::new();
    m.serialize(&mut buf);
    assert_eq!(*buf.last().unwrap(), 0);
    buf.extend_from_slice(&[5u8; 10]);
    assert_eq!(Metadata::deserialize(&buf).unwrap(), m);
}

#[test]
fn every_strict_prefix_is_invalid_data() {
    let bytes = full_asset().serialize();
    for cut in 0..bytes.len() {
        assert!(
            matches!(AssetData::deserialize(&bytes[..cut]), Err(DeserializeError::InvalidData)),
            "cut at {}",
            cut
        );
    }
}
