//! The metadata account record: a type tag, two addresses, an embedded asset record and
//! the metadata's own flags and optional fields.

use vstd::prelude::*;
use crate::asset_data::{AssetData, AssetDataView, encode_opt_collection, encode_opt_uses, encode_opt_details, encode_opt_address, parse_asset_data, lemma_parse_asset_data_of, lemma_encoded_len};
use crate::codec::{bool_byte, parse_address, parse_u8, read_address, read_u8, read_agrees};
use crate::collection::{Collection, CollectionDetails};
use crate::error::{DeserializeError, ProgramError};
use crate::key::{Key, key_of_byte};
use crate::pubkey::{Pubkey, append_bytes};
use crate::token_standard::{TokenStandard, token_standard_of_byte};
use crate::uses::Uses;
use vstd::slice::slice_subrange;

verus! {

/// Configuration for programmable assets.
#[derive(Clone, Copy, Debug, PartialEq, Eq)]
pub enum ProgrammableConfig {
    V1 {
        /// Programmable authorization rules.
        rule_set: Option<Pubkey>,
    },
}

impl ProgrammableConfig {
    /// The discriminant of the variant (`V1` is 0), then its optional rule set.
    pub open spec fn encoded(self) -> Seq<u8> {
        match self {
            ProgrammableConfig::V1 { rule_set } => seq![0u8] + encode_opt_address(rule_set),
        }
    }

    /// Appends the encoding of the configuration.
    pub fn serialize(&self, buffer: &mut Vec<u8>)
        ensures
            final(buffer)@ == old(buffer)@ + self.encoded(),
    {
        match self {
            ProgrammableConfig::V1 { rule_set } => {
                buffer.push(0u8);
                match rule_set {
                    Some(pubkey) => {
                        buffer.push(1u8);
                        append_bytes(buffer, pubkey.as_slice());
                    },
                    None => {
                        buffer.push(0u8);
                    },
                }
                assert(buffer@ =~= old(buffer)@ + self.encoded());
            },
        }
    }
}

/// The metadata of a token.
#[derive(Clone, Debug, PartialEq, Eq)]
pub struct Metadata {
    pub key: Key,
    pub update_authority: Pubkey,
    pub mint: Pubkey,
    pub data: AssetData,
    pub primary_sale_happened: bool,
    pub is_mutable: bool,
    pub edition_nonce: Option<u8>,
    pub token_standard: Option<TokenStandard>,
    pub collection: Option<Collection>,
    pub uses: Option<Uses>,
    pub collection_details: Option<CollectionDetails>,
    pub programmable_config: Option<ProgrammableConfig>,
}

/// The fields of a metadata record as mathematical values.
pub struct MetadataView {
    pub key: Key,
    pub update_authority: Pubkey,
    pub mint: Pubkey,
    pub data: AssetDataView,
    pub primary_sale_happened: bool,
    pub is_mutable: bool,
    pub edition_nonce: Option<u8>,
    pub token_standard: Option<TokenStandard>,
    pub collection: Option<Collection>,
    pub uses: Option<Uses>,
    pub collection_details: Option<CollectionDetails>,
    pub programmable_config: Option<ProgrammableConfig>,
}

impl View for Metadata {
    type V = MetadataView;

    open spec fn view(&self) -> MetadataView {
        MetadataView {
            key: self.key,
            update_authority: self.update_authority,
            mint: self.mint,
            data: self.data@,
            primary_sale_happened: self.primary_sale_happened,
            is_mutable: self.is_mutable,
            edition_nonce: self.edition_nonce,
            token_standard: self.token_standard,
            collection: self.collection,
            uses: self.uses,
            collection_details: self.collection_details,
            programmable_config: self.programmable_config,
        }
    }
}

pub open spec fn encode_opt_byte(o: Option<u8>) -> Seq<u8> {
    match o {
        Some(b) => seq![1u8, b],
        None => seq![0u8],
    }
}

pub open spec fn encode_opt_token_standard(o: Option<TokenStandard>) -> Seq<u8> {
    match o {
        Some(t) => seq![1u8, t as u8],
        None => seq![0u8],
    }
}

pub open spec fn encode_opt_config(o: Option<ProgrammableConfig>) -> Seq<u8> {
    match o {
        Some(c) => seq![1u8] + c.encoded(),
        None => seq![0u8],
    }
}

impl MetadataView {
    /// The record's bytes: tag, the two addresses, the asset record, then the metadata's
    /// own fields in declaration order, each optional one behind a presence byte.
    pub open spec fn encoded(self) -> Seq<u8> {
        seq![self.key as u8] + self.update_authority@ + self.mint@ + self.data.encoded() + seq![
            bool_byte(self.primary_sale_happened),
            bool_byte(self.is_mutable),
        ] + encode_opt_byte(self.edition_nonce) + encode_opt_token_standard(self.token_standard)
            + encode_opt_collection(self.collection) + encode_opt_uses(self.uses)
            + encode_opt_details(self.collection_details) + encode_opt_config(
            self.programmable_config,
        )
    }

    /// The encoded length, field by field.
    pub open spec fn encoded_len(self) -> nat {
        65 + self.data.encoded_len() + 2 + (if self.edition_nonce is Some {
            2nat
        } else {
            1
        }) + (if self.token_standard is Some {
            2nat
        } else {
            1
        }) + (if self.collection is Some {
            34nat
        } else {
            1
        }) + (if self.uses is Some {
            18nat
        } else {
            1
        }) + (if self.collection_details is Some {
            9nat
        } else {
            1
        }) + match self.programmable_config {
            Some(ProgrammableConfig::V1 { rule_set }) => if rule_set is Some {
                35nat
            } else {
                3
            },
            None => 1,
        }
    }

    /// Within the bounds of the format: the embedded asset record is.
    pub open spec fn within_bounds(self) -> bool {
        &&& self.data.within_bounds()
        &&& (self.collection_details matches Some(c) ==> c.round_trips())
    }
}

/// A flag byte: any nonzero value reads as set.
pub open spec fn parse_flag(d: Seq<u8>, p: int) -> Option<(bool, int)> {
    match parse_u8(d, p) {
        Some((b, q)) => Some((b != 0, q)),
        None => None,
    }
}

pub open spec fn parse_opt_byte(d: Seq<u8>, p: int) -> Option<(Option<u8>, int)> {
    match parse_u8(d, p) {
        Some((flag, q)) => if flag == 0 {
            Some((None, q))
        } else {
            match parse_u8(d, q) {
                Some((b, r)) => Some((Some(b), r)),
                None => None,
            }
        },
        None => None,
    }
}

pub open spec fn parse_opt_token_standard(d: Seq<u8>, p: int) -> Option<(Option<TokenStandard>, int)> {
    match parse_u8(d, p) {
        Some((flag, q)) => if flag == 0 {
            Some((None, q))
        } else {
            match parse_u8(d, q) {
                Some((b, r)) => match token_standard_of_byte(b) {
                    Some(t) => Some((Some(t), r)),
                    None => None,
                },
                None => None,
            }
        },
        None => None,
    }
}

pub open spec fn parse_present_collection(d: Seq<u8>, p: int) -> Option<(Option<Collection>, int)> {
    match parse_u8(d, p) {
        Some((flag, q)) => if flag == 0 {
            Some((None, q))
        } else if q + 33 <= d.len() {
            Some((Some(Collection::decoded(d.subrange(q, q + 33))), q + 33))
        } else {
            None
        },
        None => None,
    }
}

pub open spec fn parse_present_uses(d: Seq<u8>, p: int) -> Option<(Option<Uses>, int)> {
    match parse_u8(d, p) {
        Some((flag, q)) => if flag == 0 {
            Some((None, q))
        } else if q + 17 <= d.len() && Uses::decodable(d.subrange(q, q + 17)) {
            Some((Some(Uses::decoded(d.subrange(q, q + 17))), q + 17))
        } else {
            None
        },
        None => None,
    }
}

pub open spec fn parse_present_details(d: Seq<u8>, p: int) -> Option<(Option<CollectionDetails>, int)> {
    match parse_u8(d, p) {
        Some((flag, q)) => if flag == 0 {
            Some((None, q))
        } else if q + 8 <= d.len() {
            Some((Some(CollectionDetails::decoded(d.subrange(q, q + 8))), q + 8))
        } else {
            None
        },
        None => None,
    }
}

/// An optional configuration: presence byte, discriminant 0, then an optional rule set
/// behind its own presence byte.
pub open spec fn parse_present_config(d: Seq<u8>, p: int) -> Option<(Option<ProgrammableConfig>, int)> {
    match parse_u8(d, p) {
        Some((flag, q)) => if flag == 0 {
            Some((None, q))
        } else {
            match parse_u8(d, q) {
                Some((tag, r)) => if tag != 0 {
                    None
                } else {
                    match parse_u8(d, r) {
                        Some((has_rule_set, s)) => if has_rule_set == 0 {
                            Some((Some(ProgrammableConfig::V1 { rule_set: None }), s))
                        } else {
                            match parse_address(d, s) {
                                Some((a, t)) => Some((Some(ProgrammableConfig::V1 { rule_set: Some(a) }), t)),
                                None => None,
                            }
                        },
                        None => None,
                    }
                },
                None => None,
            }
        },
        None => None,
    }
}

/// The metadata's own fields after the embedded asset record.
pub struct MetadataTail {
    pub primary_sale_happened: bool,
    pub is_mutable: bool,
    pub edition_nonce: Option<u8>,
    pub token_standard: Option<TokenStandard>,
    pub collection: Option<Collection>,
    pub uses: Option<Uses>,
    pub collection_details: Option<CollectionDetails>,
    pub programmable_config: Option<ProgrammableConfig>,
}

pub open spec fn parse_metadata_tail(d: Seq<u8>, p: int) -> Option<MetadataTail> {
    match parse_flag(d, p) {
        Some((primary_sale_happened, p1)) => match parse_flag(d, p1) {
            Some((is_mutable, p2)) => match parse_opt_byte(d, p2) {
                Some((edition_nonce, p3)) => match parse_opt_token_standard(d, p3) {
                    Some((token_standard, p4)) => match parse_present_collection(d, p4) {
                        Some((collection, p5)) => match parse_present_uses(d, p5) {
                            Some((uses, p6)) => match parse_present_details(d, p6) {
                                Some((collection_details, p7)) => match parse_present_config(d, p7) {
                                    Some((programmable_config, _)) => Some(
                                        MetadataTail {
                                            primary_sale_happened,
                                            is_mutable,
                                            edition_nonce,
                                            token_standard,
                                            collection,
                                            uses,
                                            collection_details,
                                            programmable_config,
                                        },
                                    ),
                                    None => None,
                                },
                                None => None,
                            },
                            None => None,
                        },
                        None => None,
                    },
                    None => None,
                },
                None => None,
            },
            None => None,
        },
        None => None,
    }
}

/// The metadata record at the start of `d`; bytes after it are ignored.
pub open spec fn parse_metadata(d: Seq<u8>) -> Option<MetadataView> {
    match parse_u8(d, 0) {
        Some((k, p1)) => match key_of_byte(k) {
            Some(key) => match parse_address(d, p1) {
                Some((update_authority, p2)) => match parse_address(d, p2) {
                    Some((mint, p3)) => match parse_asset_data(d, p3) {
                        Some((data, p4)) => match parse_metadata_tail(d, p4) {
                            Some(t) => Some(
                                MetadataView {
                                    key,
                                    update_authority,
                                    mint,
                                    data,
                                    primary_sale_happened: t.primary_sale_happened,
                                    is_mutable: t.is_mutable,
                                    edition_nonce: t.edition_nonce,
                                    token_standard: t.token_standard,
                                    collection: t.collection,
                                    uses: t.uses,
                                    collection_details: t.collection_details,
                                    programmable_config: t.programmable_config,
                                },
                            ),
                            None => None,
                        },
                        None => None,
                    },
                    None => None,
                },
                None => None,
            },
            None => None,
        },
        None => None,
    }
}

fn read_flag(data: &[u8], pos: usize) -> (r: Result<(bool, usize), DeserializeError>)
    ensures
        read_agrees(r, parse_flag(data@, pos as int)),
{
    match read_u8(data, pos) {
        Ok((b, next)) => Ok((b != 0, next)),
        Err(e) => Err(e),
    }
}

fn read_opt_byte(data: &[u8], pos: usize) -> (r: Result<(Option<u8>, usize), DeserializeError>)
    ensures
        read_agrees(r, parse_opt_byte(data@, pos as int)),
{
    let (flag, next) = match read_u8(data, pos) {
        Ok(v) => v,
        Err(e) => return Err(e),
    };
    if flag == 0 {
        return Ok((None, next));
    }
    match read_u8(data, next) {
        Ok((b, end)) => Ok((Some(b), end)),
        Err(e) => Err(e),
    }
}

fn read_opt_token_standard(data: &[u8], pos: usize) -> (r: Result<(Option<TokenStandard>, usize), DeserializeError>)
    ensures
        read_agrees(r, parse_opt_token_standard(data@, pos as int)),
{
    let (flag, next) = match read_u8(data, pos) {
        Ok(v) => v,
        Err(e) => return Err(e),
    };
    if flag == 0 {
        return Ok((None, next));
    }
    let (b, end) = match read_u8(data, next) {
        Ok(v) => v,
        Err(e) => return Err(e),
    };
    match TokenStandard::from_byte(b) {
        Some(t) => Ok((Some(t), end)),
        None => Err(DeserializeError::InvalidData),
    }
}

fn read_present_collection(data: &[u8], pos: usize) -> (r: Result<(Option<Collection>, usize), DeserializeError>)
    ensures
        read_agrees(r, parse_present_collection(data@, pos as int)),
{
    let (flag, next) = match read_u8(data, pos) {
        Ok(v) => v,
        Err(e) => return Err(e),
    };
    if flag == 0 {
        return Ok((None, next));
    }
    if data.len() - next < 33 {
        return Err(DeserializeError::InvalidData);
    }
    match Collection::deserialize(slice_subrange(data, next, next + 33)) {
        Ok(c) => Ok((Some(c), next + 33)),
        Err(_) => Err(DeserializeError::InvalidData),
    }
}

fn read_present_uses(data: &[u8], pos: usize) -> (r: Result<(Option<Uses>, usize), DeserializeError>)
    ensures
        read_agrees(r, parse_present_uses(data@, pos as int)),
{
    let (flag, next) = match read_u8(data, pos) {
        Ok(v) => v,
        Err(e) => return Err(e),
    };
    if flag == 0 {
        return Ok((None, next));
    }
    if data.len() - next < 17 {
        return Err(DeserializeError::InvalidData);
    }
    match Uses::deserialize(slice_subrange(data, next, next + 17)) {
        Ok(u) => Ok((Some(u), next + 17)),
        Err(_) => Err(DeserializeError::InvalidData),
    }
}

fn read_present_details(data: &[u8], pos: usize) -> (r: Result<(Option<CollectionDetails>, usize), DeserializeError>)
    ensures
        read_agrees(r, parse_present_details(data@, pos as int)),
{
    let (flag, next) = match read_u8(data, pos) {
        Ok(v) => v,
        Err(e) => return Err(e),
    };
    if flag == 0 {
        return Ok((None, next));
    }
    if data.len() - next < 8 {
        return Err(DeserializeError::InvalidData);
    }
    match CollectionDetails::deserialize(slice_subrange(data, next, next + 8)) {
        Ok(c) => Ok((Some(c), next + 8)),
        Err(_) => Err(DeserializeError::InvalidData),
    }
}

fn read_present_config(data: &[u8], pos: usize) -> (r: Result<(Option<ProgrammableConfig>, usize), DeserializeError>)
    ensures
        read_agrees(r, parse_present_config(data@, pos as int)),
{
    let (flag, next) = match read_u8(data, pos) {
        Ok(v) => v,
        Err(e) => return Err(e),
    };
    if flag == 0 {
        return Ok((None, next));
    }
    let (tag, after_tag) = match read_u8(data, next) {
        Ok(v) => v,
        Err(e) => return Err(e),
    };
    if tag != 0 {
        return Err(DeserializeError::InvalidData);
    }
    let (has_rule_set, after_flag) = match read_u8(data, after_tag) {
        Ok(v) => v,
        Err(e) => return Err(e),
    };
    if has_rule_set == 0 {
        return Ok((Some(ProgrammableConfig::V1 { rule_set: None }), after_flag));
    }
    match read_address(data, after_flag) {
        Ok((a, end)) => Ok((Some(ProgrammableConfig::V1 { rule_set: Some(a) }), end)),
        Err(e) => Err(e),
    }
}

fn write_flags(buffer: &mut Vec<u8>, a: bool, b: bool)
    ensures
        final(buffer)@ == old(buffer)@ + seq![bool_byte(a), bool_byte(b)],
{
    buffer.push(if a {
        1u8
    } else {
        0u8
    });
    buffer.push(if b {
        1u8
    } else {
        0u8
    });
    assert(buffer@ =~= old(buffer)@ + seq![bool_byte(a), bool_byte(b)]);
}

fn write_opt_byte(buffer: &mut Vec<u8>, o: &Option<u8>)
    ensures
        final(buffer)@ == old(buffer)@ + encode_opt_byte(*o),
{
    match o {
        Some(b) => {
            buffer.push(1u8);
            buffer.push(*b);
        },
        None => buffer.push(0u8),
    }
    assert(buffer@ =~= old(buffer)@ + encode_opt_byte(*o));
}

fn write_opt_token_standard(buffer: &mut Vec<u8>, o: &Option<TokenStandard>)
    ensures
        final(buffer)@ == old(buffer)@ + encode_opt_token_standard(*o),
{
    match o {
        Some(t) => {
            buffer.push(1u8);
            buffer.push(*t as u8);
        },
        None => buffer.push(0u8),
    }
    assert(buffer@ =~= old(buffer)@ + encode_opt_token_standard(*o));
}

fn write_opt_config(buffer: &mut Vec<u8>, o: &Option<ProgrammableConfig>)
    ensures
        final(buffer)@ == old(buffer)@ + encode_opt_config(*o),
{
    match o {
        Some(c) => {
            buffer.push(1u8);
            c.serialize(buffer);
        },
        None => buffer.push(0u8),
    }
    assert(buffer@ =~= old(buffer)@ + encode_opt_config(*o));
}

fn write_opt_collection(buffer: &mut Vec<u8>, o: &Option<Collection>)
    ensures
        final(buffer)@ == old(buffer)@ + encode_opt_collection(*o),
{
    match o {
        Some(c) => {
            buffer.push(1u8);
            c.serialize(buffer);
        },
        None => buffer.push(0u8),
    }
    assert(buffer@ =~= old(buffer)@ + encode_opt_collection(*o));
}

fn write_opt_uses(buffer: &mut Vec<u8>, o: &Option<Uses>)
    ensures
        final(buffer)@ == old(buffer)@ + encode_opt_uses(*o),
{
    match o {
        Some(u) => {
            buffer.push(1u8);
            u.serialize(buffer);
        },
        None => buffer.push(0u8),
    }
    assert(buffer@ =~= old(buffer)@ + encode_opt_uses(*o));
}

fn write_opt_details(buffer: &mut Vec<u8>, o: &Option<CollectionDetails>)
    ensures
        final(buffer)@ == old(buffer)@ + encode_opt_details(*o),
{
    match o {
        Some(c) => {
            buffer.push(1u8);
            c.serialize(buffer);
        },
        None => buffer.push(0u8),
    }
    assert(buffer@ =~= old(buffer)@ + encode_opt_details(*o));
}

/// The encoded length agrees with the field-by-field count.
pub proof fn lemma_metadata_encoded_len(m: MetadataView)
    ensures
        m.encoded().len() == m.encoded_len(),
{
    lemma_encoded_len(m.data);
    if let Some(c) = m.collection {
        crate::collection::lemma_collection_round_trip(c);
    }
    if let Some(u) = m.uses {
        crate::uses::lemma_uses_round_trip(u);
    }
    if let Some(c) = m.collection_details {
        match c {
            CollectionDetails::V1 { size } => {
                crate::codec::lemma_encode_lengths(seq![], 0, 0, size);
            },
            CollectionDetails::V2 { padding } => {},
        }
    }
}

impl Metadata {
    /// Decodes the metadata held by an account's data; any failure is `InvalidAccountData`.
    pub fn from_account_info(data: &[u8]) -> (r: Result<Self, ProgramError>)
        ensures
            parse_metadata(data@) is Some <==> r is Ok,
            r is Ok ==> r->Ok_0@ == parse_metadata(data@)->Some_0,
            r is Err ==> r->Err_0 == ProgramError::InvalidAccountData,
    {
        match Self::deserialize(data) {
            Ok(m) => Ok(m),
            Err(_) => Err(ProgramError::InvalidAccountData),
        }
    }

    /// Appends the record's encoding to `buffer`.
    #[verifier::rlimit(40)]
    pub fn serialize(&self, buffer: &mut Vec<u8>)
        ensures
            final(buffer)@ == old(buffer)@ + self@.encoded(),
    {
        let ghost v = self@;
        let ghost start = buffer@;
        buffer.push(self.key as u8);
        append_bytes(buffer, self.update_authority.as_slice());
        append_bytes(buffer, self.mint.as_slice());
        let ghost p1 = seq![v.key as u8] + v.update_authority@ + v.mint@;
        assert(buffer@ =~= start + p1);
        self.data.write_to(buffer);
        let ghost p2 = p1 + v.data.encoded();
        assert(buffer@ =~= start + p2);
        write_flags(buffer, self.primary_sale_happened, self.is_mutable);
        let ghost p3 = p2 + seq![bool_byte(v.primary_sale_happened), bool_byte(v.is_mutable)];
        assert(buffer@ =~= start + p3);
        write_opt_byte(buffer, &self.edition_nonce);
        let ghost p4 = p3 + encode_opt_byte(v.edition_nonce);
        assert(buffer@ =~= start + p4);
        write_opt_token_standard(buffer, &self.token_standard);
        let ghost p5 = p4 + encode_opt_token_standard(v.token_standard);
        assert(buffer@ =~= start + p5);
        write_opt_collection(buffer, &self.collection);
        let ghost p6 = p5 + encode_opt_collection(v.collection);
        assert(buffer@ =~= start + p6);
        write_opt_uses(buffer, &self.uses);
        let ghost p7 = p6 + encode_opt_uses(v.uses);
        assert(buffer@ =~= start + p7);
        write_opt_details(buffer, &self.collection_details);
        let ghost p8 = p7 + encode_opt_details(v.collection_details);
        assert(buffer@ =~= start + p8);
        write_opt_config(buffer, &self.programmable_config);
        let ghost p9 = p8 + encode_opt_config(v.programmable_config);
        assert(buffer@ =~= start + p9);
        assert(p9 == v.encoded());
    }

    /// Reads a metadata record from the start of `data`; bytes after it are ignored.
    /// Presence and flag bytes read any nonzero value as set.
    #[verifier::rlimit(50)]
    pub fn deserialize(data: &[u8]) -> (r: Result<Self, &'static str>)
        ensures
            parse_metadata(data@) is Some <==> r is Ok,
            r is Ok ==> r->Ok_0@ == parse_metadata(data@)->Some_0,
    {
        let (k, p1) = match read_u8(data, 0) {
            Ok(v) => v,
            Err(_) => return Err("Insufficient data for key"),
        };
        let key = match Key::from_byte(k) {
            Some(key) => key,
            None => return Err("Invalid key"),
        };
        let (update_authority, p2) = match read_address(data, p1) {
            Ok(v) => v,
            Err(_) => return Err("Insufficient data for update_authority"),
        };
        let (mint, p3) = match read_address(data, p2) {
            Ok(v) => v,
            Err(_) => return Err("Insufficient data for mint"),
        };
        let (asset, p4) = match AssetData::decode_at(data, p3) {
            Ok(v) => v,
            Err(_) => return Err("Failed to deserialize AssetData"),
        };
        let (primary_sale_happened, p5) = match read_flag(data, p4) {
            Ok(v) => v,
            Err(_) => return Err("Insufficient data for primary_sale_happened"),
        };
        let (is_mutable, p6) = match read_flag(data, p5) {
            Ok(v) => v,
            Err(_) => return Err("Insufficient data for is_mutable"),
        };
        let (edition_nonce, p7) = match read_opt_byte(data, p6) {
            Ok(v) => v,
            Err(_) => return Err("Insufficient data for edition_nonce"),
        };
        let (token_standard, p8) = match read_opt_token_standard(data, p7) {
            Ok(v) => v,
            Err(_) => return Err("Invalid token_standard"),
        };
        let (collection, p9) = match read_present_collection(data, p8) {
            Ok(v) => v,
            Err(_) => return Err("Insufficient data for collection"),
        };
        let (uses, p10) = match read_present_uses(data, p9) {
            Ok(v) => v,
            Err(_) => return Err("Invalid uses"),
        };
        let (collection_details, p11) = match read_present_details(data, p10) {
            Ok(v) => v,
            Err(_) => return Err("Insufficient data for collection_details"),
        };
        let (programmable_config, _) = match read_present_config(data, p11) {
            Ok(v) => v,
            Err(_) => return Err("Invalid programmable_config"),
        };
        Ok(
            Metadata {
                key,
                update_authority,
                mint,
                data: asset,
                primary_sale_happened,
                is_mutable,
                edition_nonce,
                token_standard,
                collection,
                uses,
                collection_details,
                programmable_config,
            },
        )
    }

    /// The exact number of bytes that `serialize` appends.
    pub fn calculate_serialized_length(&self) -> (r: usize)
        requires
            self@.encoded_len() <= usize::MAX,
        ensures
            r == self@.encoded_len(),
            r == self@.encoded().len(),
    {
        proof {
            lemma_metadata_encoded_len(self@);
        }
        let mut len: usize = 1 + 32 + 32;
        len = len + self.data.calculate_serialized_length();
        len = len + 2;
        len = len + match &self.edition_nonce {
            Some(_) => 2,
            None => 1,
        };
        len = len + match &self.token_standard {
            Some(_) => 2,
            None => 1,
        };
        len = len + match &self.collection {
            Some(_) => 1 + Collection::LEN,
            None => 1,
        };
        len = len + match &self.uses {
            Some(_) => 1 + Uses::LEN,
            None => 1,
        };
        len = len + match &self.collection_details {
            Some(_) => 1 + CollectionDetails::LEN,
            None => 1,
        };
        len = len + match &self.programmable_config {
            Some(ProgrammableConfig::V1 { rule_set: Some(_) }) => 3 + 32,
            Some(ProgrammableConfig::V1 { rule_set: None }) => 3,
            None => 1,
        };
        len
    }

    /// Writes the record's encoding over an account buffer that already has its size.
    pub fn save(&self, account_data: &mut Vec<u8>)
        requires
            old(account_data)@.len() == self@.encoded().len(),
        ensures
            final(account_data)@ == self@.encoded(),
    {
        let mut buffer: Vec<u8> = Vec::new();
        self.serialize(&mut buffer);
        assert(buffer@ =~= self@.encoded());
        let mut i: usize = 0;
        while i < buffer.len()
            invariant
                0 <= i <= buffer@.len(),
                account_data@.len() == buffer@.len(),
                forall|j: int| 0 <= j < i ==> account_data@[j] == buffer@[j],
            decreases buffer@.len() - i,
        {
            account_data.set(i, buffer[i]);
            i += 1;
        }
        assert(account_data@ =~= buffer@);
    }
}

proof fn lemma_first_byte(d: Seq<u8>, p: int, e: Seq<u8>)
    requires
        0 <= p,
        e.len() > 0,
        p + e.len() <= d.len(),
        d.subrange(p, p + e.len()) == e,
    ensures
        d[p] == e[0],
{
    assert(d.subrange(p, p + e.len())[0] == d[p]);
}

proof fn lemma_parse_opt_byte_of(d: Seq<u8>, p: int, o: Option<u8>)
    requires
        0 <= p,
        p + encode_opt_byte(o).len() <= d.len(),
        d.subrange(p, p + encode_opt_byte(o).len()) == encode_opt_byte(o),
    ensures
        parse_opt_byte(d, p) == Some((o, p + encode_opt_byte(o).len())),
{
    let e = encode_opt_byte(o);
    lemma_first_byte(d, p, e);
    if let Some(b) = o {
        assert(d.subrange(p, p + 2)[1] == d[p + 1]);
    }
}

proof fn lemma_parse_opt_token_standard_of(d: Seq<u8>, p: int, o: Option<TokenStandard>)
    requires
        0 <= p,
        p + encode_opt_token_standard(o).len() <= d.len(),
        d.subrange(p, p + encode_opt_token_standard(o).len()) == encode_opt_token_standard(o),
    ensures
        parse_opt_token_standard(d, p) == Some((o, p + encode_opt_token_standard(o).len())),
{
    let e = encode_opt_token_standard(o);
    lemma_first_byte(d, p, e);
    if let Some(t) = o {
        assert(d.subrange(p, p + 2)[1] == d[p + 1]);
        crate::token_standard::lemma_token_standard_of_byte_round_trip(t);
    }
}

proof fn lemma_parse_present_collection_of(d: Seq<u8>, p: int, o: Option<Collection>)
    requires
        0 <= p,
        p + encode_opt_collection(o).len() <= d.len(),
        d.subrange(p, p + encode_opt_collection(o).len()) == encode_opt_collection(o),
    ensures
        parse_present_collection(d, p) == Some((o, p + encode_opt_collection(o).len())),
{
    lemma_first_byte(d, p, encode_opt_collection(o));
    if let Some(c) = o {
        crate::collection::lemma_collection_round_trip(c);
        crate::codec::lemma_split_concat(d, p, seq![1u8], c.encoded());
    }
}

proof fn lemma_parse_present_uses_of(d: Seq<u8>, p: int, o: Option<Uses>)
    requires
        0 <= p,
        p + encode_opt_uses(o).len() <= d.len(),
        d.subrange(p, p + encode_opt_uses(o).len()) == encode_opt_uses(o),
    ensures
        parse_present_uses(d, p) == Some((o, p + encode_opt_uses(o).len())),
{
    lemma_first_byte(d, p, encode_opt_uses(o));
    if let Some(u) = o {
        crate::uses::lemma_uses_round_trip(u);
        crate::codec::lemma_split_concat(d, p, seq![1u8], u.encoded());
    }
}

proof fn lemma_parse_present_details_of(d: Seq<u8>, p: int, o: Option<CollectionDetails>)
    requires
        0 <= p,
        o matches Some(c) ==> c.round_trips(),
        p + encode_opt_details(o).len() <= d.len(),
        d.subrange(p, p + encode_opt_details(o).len()) == encode_opt_details(o),
    ensures
        parse_present_details(d, p) == Some((o, p + encode_opt_details(o).len())),
{
    lemma_first_byte(d, p, encode_opt_details(o));
    if let Some(c) = o {
        crate::collection::lemma_collection_details_round_trip(c);
        crate::codec::lemma_split_concat(d, p, seq![1u8], c.encoded());
    }
}

proof fn lemma_parse_present_config_of(d: Seq<u8>, p: int, o: Option<ProgrammableConfig>)
    requires
        0 <= p,
        p + encode_opt_config(o).len() <= d.len(),
        d.subrange(p, p + encode_opt_config(o).len()) == encode_opt_config(o),
    ensures
        parse_present_config(d, p) == Some((o, p + encode_opt_config(o).len())),
{
    let e = encode_opt_config(o);
    lemma_first_byte(d, p, e);
    if let Some(c) = o {
        match c {
            ProgrammableConfig::V1 { rule_set } => {
                let tail = encode_opt_address(rule_set);
                assert(e =~= seq![1u8, 0u8] + tail);
                crate::codec::lemma_split_concat(d, p, seq![1u8, 0u8], tail);
                assert(d.subrange(p, p + 2)[1] == d[p + 1]);
                lemma_first_byte(d, p + 2, tail);
                if let Some(a) = rule_set {
                    crate::codec::lemma_split_concat(d, p + 2, seq![1u8], a@);
                    crate::codec::lemma_parse_address_of(d, p + 3, a);
                }
            },
        }
    }
}

/// The metadata's own fields after the embedded asset record, encoded.
pub open spec fn encode_tail(m: MetadataView) -> Seq<u8> {
    seq![bool_byte(m.primary_sale_happened), bool_byte(m.is_mutable)] + encode_opt_byte(
        m.edition_nonce,
    ) + encode_opt_token_standard(m.token_standard) + encode_opt_collection(m.collection)
        + encode_opt_uses(m.uses) + encode_opt_details(m.collection_details) + encode_opt_config(
        m.programmable_config,
    )
}

#[verifier::rlimit(40)]
proof fn lemma_parse_metadata_tail_of(d: Seq<u8>, p: int, m: MetadataView)
    requires
        0 <= p,
        m.collection_details matches Some(c) ==> c.round_trips(),
        p + encode_tail(m).len() <= d.len(),
        d.subrange(p, p + encode_tail(m).len()) == encode_tail(m),
    ensures
        parse_metadata_tail(d, p) == Some(
            MetadataTail {
                primary_sale_happened: m.primary_sale_happened,
                is_mutable: m.is_mutable,
                edition_nonce: m.edition_nonce,
                token_standard: m.token_standard,
                collection: m.collection,
                uses: m.uses,
                collection_details: m.collection_details,
                programmable_config: m.programmable_config,
            },
        ),
{
    let x0 = seq![bool_byte(m.primary_sale_happened), bool_byte(m.is_mutable)];
    let x1 = x0 + encode_opt_byte(m.edition_nonce);
    let x2 = x1 + encode_opt_token_standard(m.token_standard);
    let x3 = x2 + encode_opt_collection(m.collection);
    let x4 = x3 + encode_opt_uses(m.uses);
    let x5 = x4 + encode_opt_details(m.collection_details);
    let cfg = encode_opt_config(m.programmable_config);
    crate::codec::lemma_split_concat(d, p, x5, cfg);
    crate::codec::lemma_split_concat(d, p, x4, encode_opt_details(m.collection_details));
    crate::codec::lemma_split_concat(d, p, x3, encode_opt_uses(m.uses));
    crate::codec::lemma_split_concat(d, p, x2, encode_opt_collection(m.collection));
    crate::codec::lemma_split_concat(d, p, x1, encode_opt_token_standard(m.token_standard));
    crate::codec::lemma_split_concat(d, p, x0, encode_opt_byte(m.edition_nonce));
    assert(d[p] == x0[0] && d[p + 1] == x0[1]) by {
        assert(d.subrange(p, p + 2)[0] == d[p]);
        assert(d.subrange(p, p + 2)[1] == d[p + 1]);
    }
    lemma_parse_opt_byte_of(d, p + x0.len(), m.edition_nonce);
    lemma_parse_opt_token_standard_of(d, p + x1.len(), m.token_standard);
    lemma_parse_present_collection_of(d, p + x2.len(), m.collection);
    lemma_parse_present_uses_of(d, p + x3.len(), m.uses);
    lemma_parse_present_details_of(d, p + x4.len(), m.collection_details);
    lemma_parse_present_config_of(d, p + x5.len(), m.programmable_config);
}

proof fn lemma_encoded_parts(m: MetadataView)
    ensures
        m.encoded() == seq![m.key as u8] + m.update_authority@ + m.mint@ + m.data.encoded()
            + encode_tail(m),
{
    let x3 = seq![m.key as u8] + m.update_authority@ + m.mint@ + m.data.encoded();
    let f = seq![bool_byte(m.primary_sale_happened), bool_byte(m.is_mutable)];
    let nb = encode_opt_byte(m.edition_nonce);
    let ts = encode_opt_token_standard(m.token_standard);
    let co = encode_opt_collection(m.collection);
    let us = encode_opt_uses(m.uses);
    let de = encode_opt_details(m.collection_details);
    let cfg = encode_opt_config(m.programmable_config);
    vstd::seq_lib::lemma_concat_associative(x3, f, nb);
    vstd::seq_lib::lemma_concat_associative(x3, f + nb, ts);
    vstd::seq_lib::lemma_concat_associative(x3, f + nb + ts, co);
    vstd::seq_lib::lemma_concat_associative(x3, f + nb + ts + co, us);
    vstd::seq_lib::lemma_concat_associative(x3, f + nb + ts + co + us, de);
    vstd::seq_lib::lemma_concat_associative(x3, f + nb + ts + co + us + de, cfg);
}

proof fn lemma_parse_metadata_of(d: Seq<u8>, m: MetadataView)
    requires
        m.within_bounds(),
        d == seq![m.key as u8] + m.update_authority@ + m.mint@ + m.data.encoded() + encode_tail(m),
    ensures
        parse_metadata(d) == Some(m),
{
    let k = seq![m.key as u8];
    let x1 = k + m.update_authority@;
    let x2 = x1 + m.mint@;
    let x3 = x2 + m.data.encoded();
    let tail = encode_tail(m);
    assert(d.subrange(0, d.len() as int) =~= d);
    crate::codec::lemma_split_concat(d, 0, x3, tail);
    crate::codec::lemma_split_concat(d, 0, x2, m.data.encoded());
    crate::codec::lemma_split_concat(d, 0, x1, m.mint@);
    crate::codec::lemma_split_concat(d, 0, k, m.update_authority@);
    lemma_first_byte(d, 0, k);
    crate::key::lemma_key_of_byte_round_trip(m.key);
    crate::codec::lemma_parse_address_of(d, 1, m.update_authority);
    crate::codec::lemma_parse_address_of(d, 33, m.mint);
    lemma_parse_asset_data_of(d, 65, m.data);
    lemma_parse_metadata_tail_of(d, x3.len() as int, m);
}

/// A metadata record within the bounds of the format reads back as itself from its bytes,
/// which are exactly as many as the computed length.
pub proof fn lemma_metadata_round_trip(m: MetadataView)
    requires
        m.within_bounds(),
    ensures
        parse_metadata(m.encoded()) == Some(m),
        m.encoded().len() == m.encoded_len(),
{
    lemma_metadata_encoded_len(m);
    lemma_encoded_parts(m);
    lemma_parse_metadata_of(m.encoded(), m);
}

/// In the metadata's own optional fields, a presence byte of 0 reads as absent whatever
/// follows, and a nonzero presence byte with fewer payload bytes left than the field needs
/// is a read failure.
pub proof fn lemma_metadata_presence_byte(d: Seq<u8>, p: int)
    requires
        0 <= p < d.len(),
    ensures
        d[p] == 0 ==> parse_opt_byte(d, p) == Some((None::<u8>, p + 1)),
        d[p] == 0 ==> parse_opt_token_standard(d, p) == Some((None::<TokenStandard>, p + 1)),
        d[p] == 0 ==> parse_present_collection(d, p) == Some((None::<Collection>, p + 1)),
        d[p] == 0 ==> parse_present_uses(d, p) == Some((None::<Uses>, p + 1)),
        d[p] == 0 ==> parse_present_details(d, p) == Some((None::<CollectionDetails>, p + 1)),
        d[p] == 0 ==> parse_present_config(d, p) == Some((None::<ProgrammableConfig>, p + 1)),
        d[p] != 0 && p + 1 + 1 > d.len() ==> parse_opt_byte(d, p) is None,
        d[p] != 0 && p + 1 + 1 > d.len() ==> parse_opt_token_standard(d, p) is None,
        d[p] != 0 && p + 1 + 33 > d.len() ==> parse_present_collection(d, p) is None,
        d[p] != 0 && p + 1 + 17 > d.len() ==> parse_present_uses(d, p) is None,
        d[p] != 0 && p + 1 + 8 > d.len() ==> parse_present_details(d, p) is None,
        d[p] != 0 && p + 1 + 2 > d.len() ==> parse_present_config(d, p) is None,
{
}

} // verus!
