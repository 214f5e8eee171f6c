use mpl_metadata::collection::{Collection, CollectionAuthorityRecord, CollectionDetails};
use mpl_metadata::creator::Creator;
use mpl_metadata::error::{MetadataError, ProgramError};
use mpl_metadata::key::Key;
use mpl_metadata::pubkey::{bytes_to_pubkey, deserialize_pubkey, pubkey_to_bytes, serialize_pubkey};
use mpl_metadata::uses::{UseAuthorityRecord, UseMethod, Uses};

#[test]
fn creator_encodes_to_34_bytes_and_back() {
    let creator = Creator { address: [1u8; 32], verified: true, share: 100 };
    let mut buf = Vec::new();
    creator.serialize(&mut buf);
    let mut expected = vec![1u8; 32];
    expected.push(0x01);
    expected.push(0x64);
    assert_eq!(buf, expected);
    assert_eq!(buf.len(), 34);
    assert_eq!(Creator::deserialize(&buf).unwrap(), creator);
}

#[test]
fn creator_short_input_fails() {
    assert!(Creator::deserialize(&[0u8; 33]).is_err());
}

#[test]
fn creator_nonzero_flag_reads_verified() {
    let mut bytes = vec![7u8; 32];
    bytes.push(5);
    bytes.push(9);
    let c = Creator::deserialize(&bytes).unwrap();
    assert!(c.verified);
    assert_eq!(c.share, 9);
    assert_eq!(c.address, [7u8; 32]);
}

#[test]
fn collection_round_trip() {
    let c = Collection { verified: false, key: [3u8; 32] };
    let mut buf = Vec::new();
    c.serialize(&mut buf);
    assert_eq!(buf.len(), 33);
    assert_eq!(buf[0], 0);
    assert_eq!(Collection::deserialize(&buf).unwrap(), c);
    assert!(Collection::deserialize(&buf[..32]).is_err());
}

#[test]
fn collection_details_v2_zero_padding_round_trips() {
    let d = CollectionDetails::V2 { padding: [0u8; 8] };
    let mut buf = Vec::new();
    d.serialize(&mut buf);
    assert_eq!(buf, vec![0u8; 8]);
    assert_eq!(CollectionDetails::deserialize(&buf).unwrap(), d);
}

#[test]
fn collection_details_v1_nonzero_round_trips() {
    let d = CollectionDetails::V1 { size: 5 };
    let mut buf = Vec::new();
    d.serialize(&mut buf);
    assert_eq!(buf, vec![5, 0, 0, 0, 0, 0, 0, 0]);
    assert_eq!(CollectionDetails::deserialize(&buf).unwrap(), CollectionDetails::V1 { size: 5 });
}

#[test]
fn collection_details_variant_is_inferred_from_content() {
    let mut buf = Vec::new();
    CollectionDetails::V1 { size: 0 }.serialize(&mut buf);
    assert_eq!(CollectionDetails::deserialize(&buf).unwrap(), CollectionDetails::V2 { padding: [0u8; 8] });
    let mut buf = Vec::new();
    CollectionDetails::V2 { padding: [1, 0, 0, 0, 0, 0, 0, 0] }.serialize(&mut buf);
    assert_eq!(CollectionDetails::deserialize(&buf).unwrap(), CollectionDetails::V1 { size: 1 });
    assert!(CollectionDetails::deserialize(&[0u8; 7]).is_err());
}

#[test]
fn uses_round_trip_and_errors() {
    let u = Uses { use_method: UseMethod::Multiple, remaining: 3, total: 0x0102 };
    let mut buf = Vec::new();
    u.serialize(&mut buf);
    assert_eq!(buf.len(), 17);
    assert_eq!(buf[0], 1);
    assert_eq!(&buf[1..9], &[3, 0, 0, 0, 0, 0, 0, 0]);
    assert_eq!(&buf[9..17], &[2, 1, 0, 0, 0, 0, 0, 0]);
    assert_eq!(Uses::deserialize(&buf).unwrap(), u);
    assert_eq!(Uses::deserialize(&buf[..16]), Err("Insufficient data for Uses"));
    let mut bad = buf.clone();
    bad[0] = 3;
    assert_eq!(Uses::deserialize(&bad), Err("Invalid UseMethod"));
}

#[test]
fn use_method_from_u8() {
    assert_eq!(UseMethod::from_u8(0).unwrap(), UseMethod::Burn);
    assert_eq!(UseMethod::from_u8(2).unwrap(), UseMethod::Single);
    assert!(UseMethod::from_u8(3).is_err());
}

#[test]
fn use_authority_record_from_bytes() {
    let mut bytes = vec![0u8; 18];
    bytes[0] = 8;
    bytes[1] = 10;
    bytes[9] = 0;
    let r = UseAuthorityRecord::from_bytes(&bytes).unwrap();
    assert_eq!(r.key, Key::UseAuthorityRecord);
    assert_eq!(r.allowed_uses, 10);
    assert!(r.bump_empty());
    bytes[0] = 9;
    assert_eq!(
        UseAuthorityRecord::from_bytes(&bytes),
        Err(ProgramError::Custom(MetadataError::DataTypeMismatch as u32))
    );
    assert!(UseAuthorityRecord::from_bytes(&bytes[..17]).is_err());
    assert!(!UseAuthorityRecord::default().bump_empty());
}

#[test]
fn collection_authority_record_from_bytes() {
    let mut bytes = vec![0u8; 35];
    bytes[0] = 9;
    bytes[1] = 254;
    bytes[2] = 1;
    for b in bytes[3..].iter_mut() {
        *b = 4;
    }
    let r = CollectionAuthorityRecord::from_bytes(&bytes).unwrap();
    assert_eq!(r.bump, 254);
    assert_eq!(r.update_authority, Some([4u8; 32]));
    bytes[2] = 0;
    assert_eq!(CollectionAuthorityRecord::from_bytes(&bytes).unwrap().update_authority, None);
    bytes[2] = 2;
    assert!(CollectionAuthorityRecord::from_bytes(&bytes).is_err());
    let d = CollectionAuthorityRecord::default();
    assert_eq!(d.bump, 255);
    assert_eq!(d.key, Key::CollectionAuthorityRecord);
}

#[test]
fn pubkey_helpers() {
    assert_eq!(bytes_to_pubkey(&[2u8; 32]), Some([2u8; 32]));
    assert_eq!(bytes_to_pubkey(&[2u8; 31]), None);
    assert_eq!(pubkey_to_bytes(&[6u8; 32]), [6u8; 32]);
    let mut buf = vec![9u8];
    serialize_pubkey(&[5u8; 32], &mut buf);
    assert_eq!(buf.len(), 33);
    assert_eq!(deserialize_pubkey(&buf[1..]).unwrap(), [5u8; 32]);
    assert!(deserialize_pubkey(&buf).is_err());
}
