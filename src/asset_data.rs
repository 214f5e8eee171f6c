//! The variable-length asset record: length-prefixed strings, creators, flags and
//! optional trailing fields, with its exact encoded length.

use vstd::prelude::*;
use vstd::bytes::*;
use vstd::slice::slice_subrange;
use vstd::utf8::*;
use crate::codec::{bool_byte, encode_text, parse_address, parse_text, parse_u16, parse_u32, parse_u8, read_address, read_agrees, read_text, read_u16, read_u32, read_u8, write_text, write_u16, write_u32};
use crate::collection::{Collection, CollectionDetails};
use crate::creator::Creator;
use crate::error::DeserializeError;
use crate::pubkey::{Pubkey, append_bytes, copy_pubkey, pubkey_of};
use crate::token_standard::{TokenStandard, token_standard_of_byte};
use crate::uses::Uses;

verus! {

/// Data representation of an asset.
#[derive(Clone, Debug, PartialEq, Eq)]
pub struct AssetData {
    /// The name of the asset.
    pub name: String,
    /// The symbol for the asset.
    pub symbol: String,
    /// URI pointing to JSON representing the asset.
    pub uri: String,
    /// Royalty basis points that go to creators in secondary sales.
    pub seller_fee_basis_points: u16,
    /// The creators of the asset.
    pub creators: Option<Vec<Creator>>,
    /// Once set, all sales are considered secondary.
    pub primary_sale_happened: bool,
    /// Whether the record may still change.
    pub is_mutable: bool,
    /// Type of the token.
    pub token_standard: TokenStandard,
    /// Collection information.
    pub collection: Option<Collection>,
    /// Uses information.
    pub uses: Option<Uses>,
    /// Collection item details.
    pub collection_details: Option<CollectionDetails>,
    /// Programmable rule set for the asset.
    pub rule_set: Option<Pubkey>,
}

/// The fields of an asset record as mathematical values.
pub struct AssetDataView {
    pub name: Seq<char>,
    pub symbol: Seq<char>,
    pub uri: Seq<char>,
    pub seller_fee_basis_points: u16,
    pub creators: Option<Seq<Creator>>,
    pub primary_sale_happened: bool,
    pub is_mutable: bool,
    pub token_standard: TokenStandard,
    pub collection: Option<Collection>,
    pub uses: Option<Uses>,
    pub collection_details: Option<CollectionDetails>,
    pub rule_set: Option<Pubkey>,
}

impl View for AssetData {
    type V = AssetDataView;

    open spec fn view(&self) -> AssetDataView {
        AssetDataView {
            name: self.name@,
            symbol: self.symbol@,
            uri: self.uri@,
            seller_fee_basis_points: self.seller_fee_basis_points,
            creators: match self.creators {
                Some(v) => Some(v@),
                None => None,
            },
            primary_sale_happened: self.primary_sale_happened,
            is_mutable: self.is_mutable,
            token_standard: self.token_standard,
            collection: self.collection,
            uses: self.uses,
            collection_details: self.collection_details,
            rule_set: self.rule_set,
        }
    }
}

/// The creators one after another, 34 bytes each.
pub open spec fn encode_creator_list(cs: Seq<Creator>) -> Seq<u8>
    decreases cs.len(),
{
    if cs.len() == 0 {
        seq![]
    } else {
        encode_creator_list(cs.drop_last()) + cs.last().encoded()
    }
}

/// Optional creators: presence byte, then a `u32` count and the creators.
pub open spec fn encode_creators(o: Option<Seq<Creator>>) -> Seq<u8> {
    match o {
        Some(cs) => seq![1u8] + spec_u32_to_le_bytes(cs.len() as u32) + encode_creator_list(cs),
        None => seq![0u8],
    }
}

pub open spec fn encode_opt_collection(o: Option<Collection>) -> Seq<u8> {
    match o {
        Some(c) => seq![1u8] + c.encoded(),
        None => seq![0u8],
    }
}

pub open spec fn encode_opt_uses(o: Option<Uses>) -> Seq<u8> {
    match o {
        Some(u) => seq![1u8] + u.encoded(),
        None => seq![0u8],
    }
}

pub open spec fn encode_opt_details(o: Option<CollectionDetails>) -> Seq<u8> {
    match o {
        Some(c) => seq![1u8] + c.encoded(),
        None => seq![0u8],
    }
}

pub open spec fn encode_opt_address(o: Option<Pubkey>) -> Seq<u8> {
    match o {
        Some(a) => seq![1u8] + a@,
        None => seq![0u8],
    }
}

impl AssetDataView {
    /// The record's bytes: the fields in declaration order, each optional one behind a
    /// presence byte.
    pub open spec fn encoded(self) -> Seq<u8> {
        encode_text(self.name) + encode_text(self.symbol) + encode_text(self.uri)
            + spec_u16_to_le_bytes(self.seller_fee_basis_points) + encode_creators(self.creators)
            + seq![
            bool_byte(self.primary_sale_happened),
            bool_byte(self.is_mutable),
            self.token_standard as u8,
        ] + encode_opt_collection(self.collection) + encode_opt_uses(self.uses)
            + encode_opt_details(self.collection_details) + encode_opt_address(self.rule_set)
    }

    /// The encoded length, field by field.
    pub open spec fn encoded_len(self) -> nat {
        4 + encode_utf8(self.name).len() + 4 + encode_utf8(self.symbol).len() + 4 + encode_utf8(
            self.uri,
        ).len() + 2 + 1 + match self.creators {
            Some(cs) => 4 + 34 * cs.len(),
            None => 0,
        } + 3 + 1 + (if self.collection is Some {
            33nat
        } else {
            0
        }) + 1 + (if self.uses is Some {
            17nat
        } else {
            0
        }) + 1 + (if self.collection_details is Some {
            8nat
        } else {
            0
        }) + 1 + (if self.rule_set is Some {
            32nat
        } else {
            0
        })
    }

    /// Within the bounds of the format: each string and the creator count fit their 32-bit
    /// prefixes, and the collection details are ones that the content-inferred read
    /// gives back.
    pub open spec fn within_bounds(self) -> bool {
        &&& encode_utf8(self.name).len() <= u32::MAX
        &&& encode_utf8(self.symbol).len() <= u32::MAX
        &&& encode_utf8(self.uri).len() <= u32::MAX
        &&& (self.creators matches Some(cs) ==> cs.len() <= u32::MAX)
        &&& (self.collection_details matches Some(c) ==> c.round_trips())
    }
}

/// `n` creators of 34 bytes each from `p` on.
pub open spec fn parse_creator_list(d: Seq<u8>, p: int, n: nat) -> Option<(Seq<Creator>, int)> {
    if 0 <= p && p + 34 * n <= d.len() {
        Some(
            (
                Seq::new(n, |i: int| Creator::decoded(d.subrange(p + 34 * i, p + 34 * i + 34))),
                p + 34 * n,
            ),
        )
    } else {
        None
    }
}

/// Optional creators; a presence byte other than 1 reads as absent.
pub open spec fn parse_creators(d: Seq<u8>, p: int) -> Option<(Option<Seq<Creator>>, int)> {
    match parse_u8(d, p) {
        Some((flag, q)) => if flag == 1 {
            match parse_u32(d, q) {
                Some((n, r)) => match parse_creator_list(d, r, n as nat) {
                    Some((cs, s)) => Some((Some(cs), s)),
                    None => None,
                },
                None => None,
            }
        } else {
            Some((None, q))
        },
        None => None,
    }
}

/// A boolean byte, which must be 0 or 1.
pub open spec fn parse_bool(d: Seq<u8>, p: int) -> Option<(bool, int)> {
    match parse_u8(d, p) {
        Some((b, q)) => if b == 0 {
            Some((false, q))
        } else if b == 1 {
            Some((true, q))
        } else {
            None
        },
        None => None,
    }
}

pub open spec fn parse_token_standard(d: Seq<u8>, p: int) -> Option<(TokenStandard, int)> {
    match parse_u8(d, p) {
        Some((b, q)) => match token_standard_of_byte(b) {
            Some(t) => Some((t, q)),
            None => None,
        },
        None => None,
    }
}

/// Optional collection; a presence byte other than 1 reads as absent.
pub open spec fn parse_opt_collection(d: Seq<u8>, p: int) -> Option<(Option<Collection>, int)> {
    match parse_u8(d, p) {
        Some((flag, q)) => if flag != 1 {
            Some((None, q))
        } else if q + 33 <= d.len() {
            Some((Some(Collection::decoded(d.subrange(q, q + 33))), q + 33))
        } else {
            None
        },
        None => None,
    }
}

/// Optional uses; a presence byte other than 1 reads as absent.
pub open spec fn parse_opt_uses(d: Seq<u8>, p: int) -> Option<(Option<Uses>, int)> {
    match parse_u8(d, p) {
        Some((flag, q)) => if flag != 1 {
            Some((None, q))
        } else if q + 17 <= d.len() && Uses::decodable(d.subrange(q, q + 17)) {
            Some((Some(Uses::decoded(d.subrange(q, q + 17))), q + 17))
        } else {
            None
        },
        None => None,
    }
}

/// Optional collection details; a presence byte other than 1 reads as absent.
pub open spec fn parse_opt_details(d: Seq<u8>, p: int) -> Option<(Option<CollectionDetails>, int)> {
    match parse_u8(d, p) {
        Some((flag, q)) => if flag != 1 {
            Some((None, q))
        } else if q + 8 <= d.len() {
            Some((Some(CollectionDetails::decoded(d.subrange(q, q + 8))), q + 8))
        } else {
            None
        },
        None => None,
    }
}

/// Optional address; a presence byte other than 1 reads as absent.
pub open spec fn parse_opt_address(d: Seq<u8>, p: int) -> Option<(Option<Pubkey>, int)> {
    match parse_u8(d, p) {
        Some((flag, q)) => if flag != 1 {
            Some((None, q))
        } else {
            match parse_address(d, q) {
                Some((a, r)) => Some((Some(a), r)),
                None => None,
            }
        },
        None => None,
    }
}

/// The leading fields: three strings, the fee and the creators.
pub struct AssetHead {
    pub name: Seq<char>,
    pub symbol: Seq<char>,
    pub uri: Seq<char>,
    pub seller_fee_basis_points: u16,
    pub creators: Option<Seq<Creator>>,
}

pub open spec fn parse_asset_head(d: Seq<u8>, p: int) -> Option<(AssetHead, int)> {
    match parse_text(d, p) {
        Some((name, p1)) => match parse_text(d, p1) {
            Some((symbol, p2)) => match parse_text(d, p2) {
                Some((uri, p3)) => match parse_u16(d, p3) {
                    Some((fee, p4)) => match parse_creators(d, p4) {
                        Some((creators, p5)) => Some(
                            (
                                AssetHead {
                                    name,
                                    symbol,
                                    uri,
                                    seller_fee_basis_points: fee,
                                    creators,
                                },
                                p5,
                            ),
                        ),
                        None => None,
                    },
                    None => None,
                },
                None => None,
            },
            None => None,
        },
        None => None,
    }
}

/// The fields after the creators: two flags, the token standard and four optional fields.
pub struct AssetTail {
    pub primary_sale_happened: bool,
    pub is_mutable: bool,
    pub token_standard: TokenStandard,
    pub collection: Option<Collection>,
    pub uses: Option<Uses>,
    pub collection_details: Option<CollectionDetails>,
    pub rule_set: Option<Pubkey>,
}

pub open spec fn parse_asset_tail(d: Seq<u8>, p: int) -> Option<(AssetTail, int)> {
    match parse_bool(d, p) {
        Some((primary_sale_happened, p6)) => match parse_bool(d, p6) {
            Some((is_mutable, p7)) => match parse_token_standard(d, p7) {
                Some((token_standard, p8)) => match parse_opt_collection(d, p8) {
                    Some((collection, p9)) => match parse_opt_uses(d, p9) {
                        Some((uses, p10)) => match parse_opt_details(d, p10) {
                            Some((collection_details, p11)) => match parse_opt_address(d, p11) {
                                Some((rule_set, p12)) => Some(
                                    (
                                        AssetTail {
                                            primary_sale_happened,
                                            is_mutable,
                                            token_standard,
                                            collection,
                                            uses,
                                            collection_details,
                                            rule_set,
                                        },
                                        p12,
                                    ),
                                ),
                                None => None,
                            },
                            None => None,
                        },
                        None => None,
                    },
                    None => None,
                },
                None => None,
            },
            None => None,
        },
        None => None,
    }
}

/// The record that starts at `p`, and the position after it.
pub open spec fn parse_asset_data(d: Seq<u8>, p: int) -> Option<(AssetDataView, int)> {
    match parse_asset_head(d, p) {
        Some((h, q)) => match parse_asset_tail(d, q) {
            Some((t, e)) => Some(
                (
                    AssetDataView {
                        name: h.name,
                        symbol: h.symbol,
                        uri: h.uri,
                        seller_fee_basis_points: h.seller_fee_basis_points,
                        creators: h.creators,
                        primary_sale_happened: t.primary_sale_happened,
                        is_mutable: t.is_mutable,
                        token_standard: t.token_standard,
                        collection: t.collection,
                        uses: t.uses,
                        collection_details: t.collection_details,
                        rule_set: t.rule_set,
                    },
                    e,
                ),
            ),
            None => None,
        },
        None => None,
    }
}

/// Encoding one more creator appends its 34 bytes.
proof fn lemma_creator_list_take(cs: Seq<Creator>, i: int)
    requires
        0 <= i < cs.len(),
    ensures
        encode_creator_list(cs.take(i + 1)) == encode_creator_list(cs.take(i)) + cs[i].encoded(),
{
    assert(cs.take(i + 1).drop_last() =~= cs.take(i));
}

fn write_creators(creators: &Option<Vec<Creator>>, buffer: &mut Vec<u8>)
    ensures
        final(buffer)@ == old(buffer)@ + encode_creators(
            match creators {
                Some(v) => Some(v@),
                None => None,
            },
        ),
{
    match creators {
        Some(cs) => {
            buffer.push(1u8);
            write_u32(buffer, #[verifier::truncate] (cs.len() as u32));
            let ghost start = buffer@;
            let mut i: usize = 0;
            while i < cs.len()
                invariant
                    0 <= i <= cs@.len(),
                    buffer@ == start + encode_creator_list(cs@.take(i as int)),
                decreases cs@.len() - i,
            {
                proof {
                    lemma_creator_list_take(cs@, i as int);
                }
                cs[i].serialize(buffer);
                assert(buffer@ =~= start + encode_creator_list(cs@.take(i + 1)));
                i += 1;
            }
            assert(cs@.take(cs@.len() as int) =~= cs@);
            assert(buffer@ =~= old(buffer)@ + encode_creators(Some(cs@)));
        },
        None => {
            buffer.push(0u8);
            assert(buffer@ =~= old(buffer)@ + seq![0u8]);
        },
    }
}

fn write_presence(buffer: &mut Vec<u8>, present: bool)
    ensures
        final(buffer)@ == old(buffer)@ + seq![bool_byte(present)],
{
    buffer.push(if present {
        1u8
    } else {
        0u8
    });
    assert(buffer@ =~= old(buffer)@ + seq![bool_byte(present)]);
}

/// Reads the optional creators that start at `pos`.
fn read_creators(data: &[u8], pos: usize) -> (r: Result<(Option<Vec<Creator>>, usize), DeserializeError>)
    ensures
        parse_creators(data@, pos as int) is Some <==> r is Ok,
        r is Err ==> r->Err_0 == DeserializeError::InvalidData,
        r is Ok ==> parse_creators(data@, pos as int)->Some_0 == (
            match r->Ok_0.0 {
                Some(v) => Some(v@),
                None => None,
            },
            r->Ok_0.1 as int,
        ),
{
    let (flag, start) = match read_u8(data, pos) {
        Ok(v) => v,
        Err(e) => return Err(e),
    };
    if flag != 1 {
        return Ok((None, start));
    }
    let (n, mut cursor) = match read_u32(data, start) {
        Ok(v) => v,
        Err(e) => return Err(e),
    };
    let ghost base = cursor as int;
    let ghost outcome = match parse_creator_list(data@, base, n as nat) {
        Some((cs, s)) => Some((Some(cs), s)),
        None => None,
    };
    assert(parse_creators(data@, pos as int) == outcome);
    let mut creators: Vec<Creator> = Vec::new();
    let mut i: u32 = 0;
    while i < n
        invariant
            0 <= i <= n,
            0 <= base,
            parse_creators(data@, pos as int) == outcome,
            outcome == match parse_creator_list(data@, base, n as nat) {
                Some((cs, s)) => Some((Some(cs), s)),
                None => None,
            },
            cursor as int == base + 34 * i,
            cursor <= data@.len(),
            creators@.len() == i,
            forall|j: int|
                0 <= j < i ==> creators@[j] == Creator::decoded(
                    #[trigger] data@.subrange(base + 34 * j, base + 34 * j + 34),
                ),
        decreases n - i,
    {
        if data.len() - cursor < 34 {
            assert(base + 34 * (n as int) > data@.len());
            return Err(DeserializeError::InvalidData);
        }
        let creator = match Creator::deserialize(slice_subrange(data, cursor, cursor + 34)) {
            Ok(c) => c,
            Err(_) => return Err(DeserializeError::InvalidData),
        };
        assert(data@.subrange(cursor as int, cursor + 34).subrange(0, 32) =~= data@.subrange(
            cursor as int,
            cursor + 32,
        ));
        creators.push(creator);
        cursor = cursor + 34;
        i = i + 1;
    }
    let ghost parsed = parse_creator_list(data@, base, n as nat);
    assert(parsed is Some);
    assert(parsed->Some_0.0 =~= creators@);
    Ok((Some(creators), cursor))
}

fn read_bool(data: &[u8], pos: usize) -> (r: Result<(bool, usize), DeserializeError>)
    ensures
        read_agrees(r, parse_bool(data@, pos as int)),
{
    let (b, next) = match read_u8(data, pos) {
        Ok(v) => v,
        Err(e) => return Err(e),
    };
    if b == 0 {
        Ok((false, next))
    } else if b == 1 {
        Ok((true, next))
    } else {
        Err(DeserializeError::InvalidData)
    }
}

fn read_token_standard(data: &[u8], pos: usize) -> (r: Result<(TokenStandard, usize), DeserializeError>)
    ensures
        read_agrees(r, parse_token_standard(data@, pos as int)),
{
    let (b, next) = match read_u8(data, pos) {
        Ok(v) => v,
        Err(e) => return Err(e),
    };
    match TokenStandard::from_byte(b) {
        Some(t) => Ok((t, next)),
        None => Err(DeserializeError::InvalidData),
    }
}

fn read_opt_collection(data: &[u8], pos: usize) -> (r: Result<(Option<Collection>, usize), DeserializeError>)
    ensures
        read_agrees(r, parse_opt_collection(data@, pos as int)),
{
    let (flag, next) = match read_u8(data, pos) {
        Ok(v) => v,
        Err(e) => return Err(e),
    };
    if flag != 1 {
        return Ok((None, next));
    }
    if data.len() - next < 33 {
        return Err(DeserializeError::InvalidData);
    }
    match Collection::deserialize(slice_subrange(data, next, next + 33)) {
        Ok(c) => Ok((Some(c), next + 33)),
        Err(_) => Err(DeserializeError::InvalidData),
    }
}

fn read_opt_uses(data: &[u8], pos: usize) -> (r: Result<(Option<Uses>, usize), DeserializeError>)
    ensures
        read_agrees(r, parse_opt_uses(data@, pos as int)),
{
    let (flag, next) = match read_u8(data, pos) {
        Ok(v) => v,
        Err(e) => return Err(e),
    };
    if flag != 1 {
        return Ok((None, next));
    }
    if data.len() - next < 17 {
        return Err(DeserializeError::InvalidData);
    }
    let bytes = slice_subrange(data, next, next + 17);
    match Uses::deserialize(bytes) {
        Ok(u) => {
            assert(bytes@.subrange(1, 9) == data@.subrange(next + 1, next + 9));
            Ok((Some(u), next + 17))
        },
        Err(_) => Err(DeserializeError::InvalidData),
    }
}

fn read_opt_details(data: &[u8], pos: usize) -> (r: Result<(Option<CollectionDetails>, usize), DeserializeError>)
    ensures
        read_agrees(r, parse_opt_details(data@, pos as int)),
{
    let (flag, next) = match read_u8(data, pos) {
        Ok(v) => v,
        Err(e) => return Err(e),
    };
    if flag != 1 {
        return Ok((None, next));
    }
    if data.len() - next < 8 {
        return Err(DeserializeError::InvalidData);
    }
    match CollectionDetails::deserialize(slice_subrange(data, next, next + 8)) {
        Ok(c) => Ok((Some(c), next + 8)),
        Err(_) => Err(DeserializeError::InvalidData),
    }
}

fn read_opt_address(data: &[u8], pos: usize) -> (r: Result<(Option<Pubkey>, usize), DeserializeError>)
    ensures
        read_agrees(r, parse_opt_address(data@, pos as int)),
{
    let (flag, next) = match read_u8(data, pos) {
        Ok(v) => v,
        Err(e) => return Err(e),
    };
    if flag != 1 {
        return Ok((None, next));
    }
    match read_address(data, next) {
        Ok((a, end)) => Ok((Some(a), end)),
        Err(e) => Err(e),
    }
}

/// The creator encodings take 34 bytes each.
pub proof fn lemma_creator_list_len(cs: Seq<Creator>)
    ensures
        encode_creator_list(cs).len() == 34 * cs.len(),
    decreases cs.len(),
{
    if cs.len() > 0 {
        lemma_creator_list_len(cs.drop_last());
        crate::creator::lemma_creator_round_trip(cs.last());
    }
}

/// The encoded length agrees with the field-by-field count.
pub proof fn lemma_encoded_len(v: AssetDataView)
    ensures
        v.encoded().len() == v.encoded_len(),
{
    crate::codec::lemma_encode_lengths(v.name, v.seller_fee_basis_points, 0, 0);
    crate::codec::lemma_encode_lengths(v.symbol, 0, 0, 0);
    crate::codec::lemma_encode_lengths(v.uri, 0, 0, 0);
    if let Some(cs) = v.creators {
        lemma_creator_list_len(cs);
        crate::codec::lemma_encode_lengths(v.name, 0, cs.len() as u32, 0);
    }
    if let Some(c) = v.collection {
        crate::collection::lemma_collection_round_trip(c);
    }
    if let Some(u) = v.uses {
        crate::uses::lemma_uses_round_trip(u);
    }
    if let Some(c) = v.collection_details {
        match c {
            CollectionDetails::V1 { size } => {
                crate::codec::lemma_encode_lengths(v.name, 0, 0, size);
            },
            CollectionDetails::V2 { padding } => {},
        }
    }
}

fn clone_creators(creators: &Option<Vec<Creator>>) -> (r: Option<Vec<Creator>>)
    ensures
        match r {
            Some(v) => Some(v@),
            None => None,
        } == match creators {
            Some(v) => Some(v@),
            None => None,
        },
{
    match creators {
        Some(cs) => {
            let mut out: Vec<Creator> = Vec::new();
            let mut i: usize = 0;
            while i < cs.len()
                invariant
                    0 <= i <= cs@.len(),
                    out@ == cs@.take(i as int),
                decreases cs@.len() - i,
            {
                out.push(cs[i]);
                assert(out@ =~= cs@.take(i + 1));
                i += 1;
            }
            assert(cs@.take(cs@.len() as int) =~= cs@);
            Some(out)
        },
        None => None,
    }
}

/// The editable data of an asset.
#[derive(Clone, Debug, PartialEq, Eq)]
pub struct Data {
    pub name: String,
    pub symbol: String,
    pub uri: String,
    pub seller_fee_basis_points: u16,
    pub creators: Option<Vec<Creator>>,
}

/// The editable data of an asset, with collection and uses.
#[derive(Clone, Debug, PartialEq, Eq)]
pub struct DataV2 {
    pub name: String,
    pub symbol: String,
    pub uri: String,
    pub seller_fee_basis_points: u16,
    pub creators: Option<Vec<Creator>>,
    pub collection: Option<Collection>,
    pub uses: Option<Uses>,
}

fn write_opt_collection(buffer: &mut Vec<u8>, o: &Option<Collection>)
    ensures
        final(buffer)@ == old(buffer)@ + encode_opt_collection(*o),
{
    match o {
        Some(c) => {
            buffer.push(1u8);
            c.serialize(buffer);
        },
        None => buffer.push(0u8),
    }
    assert(buffer@ =~= old(buffer)@ + encode_opt_collection(*o));
}

fn write_opt_uses(buffer: &mut Vec<u8>, o: &Option<Uses>)
    ensures
        final(buffer)@ == old(buffer)@ + encode_opt_uses(*o),
{
    match o {
        Some(u) => {
            buffer.push(1u8);
            u.serialize(buffer);
        },
        None => buffer.push(0u8),
    }
    assert(buffer@ =~= old(buffer)@ + encode_opt_uses(*o));
}

fn write_opt_details(buffer: &mut Vec<u8>, o: &Option<CollectionDetails>)
    ensures
        final(buffer)@ == old(buffer)@ + encode_opt_details(*o),
{
    match o {
        Some(c) => {
            buffer.push(1u8);
            c.serialize(buffer);
        },
        None => buffer.push(0u8),
    }
    assert(buffer@ =~= old(buffer)@ + encode_opt_details(*o));
}

fn write_opt_address(buffer: &mut Vec<u8>, o: &Option<Pubkey>)
    ensures
        final(buffer)@ == old(buffer)@ + encode_opt_address(*o),
{
    match o {
        Some(a) => {
            buffer.push(1u8);
            append_bytes(buffer, a.as_slice());
        },
        None => buffer.push(0u8),
    }
    assert(buffer@ =~= old(buffer)@ + encode_opt_address(*o));
}

impl AssetData {
    /// A mutable asset with the given standard and texts and no optional data.
    pub fn new(token_standard: TokenStandard, name: String, symbol: String, uri: String) -> (r: Self)
        ensures
            r@ == (AssetDataView {
                name: name@,
                symbol: symbol@,
                uri: uri@,
                seller_fee_basis_points: 0,
                creators: None,
                primary_sale_happened: false,
                is_mutable: true,
                token_standard,
                collection: None,
                uses: None,
                collection_details: None,
                rule_set: None,
            }),
    {
        AssetData {
            name,
            symbol,
            uri,
            seller_fee_basis_points: 0,
            creators: None,
            primary_sale_happened: false,
            is_mutable: true,
            token_standard,
            collection: None,
            uses: None,
            collection_details: None,
            rule_set: None,
        }
    }

    /// The editable data with collection and uses.
    pub fn as_data_v2(&self) -> (r: DataV2)
        ensures
            r.name@ == self.name@,
            r.symbol@ == self.symbol@,
            r.uri@ == self.uri@,
            r.seller_fee_basis_points == self.seller_fee_basis_points,
            match r.creators {
                Some(v) => Some(v@),
                None => None,
            } == self@.creators,
            r.collection == self.collection,
            r.uses == self.uses,
    {
        DataV2 {
            collection: self.collection,
            creators: clone_creators(&self.creators),
            name: self.name.clone(),
            seller_fee_basis_points: self.seller_fee_basis_points,
            symbol: self.symbol.clone(),
            uri: self.uri.clone(),
            uses: self.uses,
        }
    }

    /// The editable data.
    pub fn as_data(&self) -> (r: Data)
        ensures
            r.name@ == self.name@,
            r.symbol@ == self.symbol@,
            r.uri@ == self.uri@,
            r.seller_fee_basis_points == self.seller_fee_basis_points,
            match r.creators {
                Some(v) => Some(v@),
                None => None,
            } == self@.creators,
    {
        Data {
            name: self.name.clone(),
            symbol: self.symbol.clone(),
            uri: self.uri.clone(),
            seller_fee_basis_points: self.seller_fee_basis_points,
            creators: clone_creators(&self.creators),
        }
    }

    /// The exact number of bytes that `serialize` produces.
    pub fn calculate_serialized_length(&self) -> (r: usize)
        requires
            self@.encoded_len() <= usize::MAX,
        ensures
            r == self@.encoded_len(),
            r == self@.encoded().len(),
    {
        proof {
            lemma_encoded_len(self@);
        }
        let mut size: usize = 4 + self.name.as_str().len();
        size = size + 4 + self.symbol.as_str().len();
        size = size + 4 + self.uri.as_str().len();
        size = size + 2 + 1;
        if let Some(creators) = &self.creators {
            size = size + 4 + creators.len() * Creator::LEN;
        }
        size = size + 3 + 1;
        if self.collection.is_some() {
            size = size + Collection::LEN;
        }
        size = size + 1;
        if self.uses.is_some() {
            size = size + Uses::LEN;
        }
        size = size + 1;
        if self.collection_details.is_some() {
            size = size + CollectionDetails::LEN;
        }
        size = size + 1;
        if self.rule_set.is_some() {
            size = size + 32;
        }
        size
    }

    /// Appends the record's encoding to `buffer`.
    #[verifier::rlimit(50)]
    pub fn write_to(&self, buffer: &mut Vec<u8>)
        ensures
            final(buffer)@ == old(buffer)@ + self@.encoded(),
    {
        let ghost v = self@;
        let ghost start = buffer@;
        write_text(buffer, self.name.as_str());
        write_text(buffer, self.symbol.as_str());
        assert(buffer@ =~= start + (encode_text(v.name) + encode_text(v.symbol)));
        write_text(buffer, self.uri.as_str());
        let ghost p3 = encode_text(v.name) + encode_text(v.symbol) + encode_text(v.uri);
        assert(buffer@ =~= start + p3);
        write_u16(buffer, self.seller_fee_basis_points);
        let ghost p4 = p3 + spec_u16_to_le_bytes(v.seller_fee_basis_points);
        assert(buffer@ =~= start + p4);
        write_creators(&self.creators, buffer);
        let ghost p5 = p4 + encode_creators(v.creators);
        assert(buffer@ =~= start + p5);
        write_presence(buffer, self.primary_sale_happened);
        write_presence(buffer, self.is_mutable);
        buffer.push(self.token_standard as u8);
        let ghost p6 = p5 + seq![
            bool_byte(v.primary_sale_happened),
            bool_byte(v.is_mutable),
            v.token_standard as u8,
        ];
        assert(buffer@ =~= start + p6);
        write_opt_collection(buffer, &self.collection);
        let ghost p7 = p6 + encode_opt_collection(v.collection);
        assert(buffer@ =~= start + p7);
        write_opt_uses(buffer, &self.uses);
        let ghost p8 = p7 + encode_opt_uses(v.uses);
        assert(buffer@ =~= start + p8);
        write_opt_details(buffer, &self.collection_details);
        let ghost p9 = p8 + encode_opt_details(v.collection_details);
        assert(buffer@ =~= start + p9);
        write_opt_address(buffer, &self.rule_set);
        let ghost p10 = p9 + encode_opt_address(v.rule_set);
        assert(buffer@ =~= start + p10);
        assert(p10 == v.encoded());
    }

    /// The record's bytes, exactly `calculate_serialized_length` of them.
    pub fn serialize(&self) -> (r: Vec<u8>)
        ensures
            r@ == self@.encoded(),
            r@.len() == self@.encoded_len(),
    {
        proof {
            lemma_encoded_len(self@);
        }
        let mut buffer: Vec<u8> = Vec::new();
        self.write_to(&mut buffer);
        assert(buffer@ =~= self@.encoded());
        buffer
    }

    /// Reads the record that starts at `pos`; returns it with the position after it.
    /// Every step checks the remaining length first; a failure is `InvalidData`.
    #[verifier::rlimit(50)]
    pub fn decode_at(data: &[u8], pos: usize) -> (r: Result<(AssetData, usize), DeserializeError>)
        ensures
            parse_asset_data(data@, pos as int) is Some <==> r is Ok,
            r is Err ==> r->Err_0 == DeserializeError::InvalidData,
            r is Ok ==> parse_asset_data(data@, pos as int)->Some_0 == (
                r->Ok_0.0@,
                r->Ok_0.1 as int,
            ),
    {
        let (name, p1) = match read_text(data, pos) {
            Ok(v) => v,
            Err(e) => return Err(e),
        };
        let (symbol, p2) = match read_text(data, p1) {
            Ok(v) => v,
            Err(e) => return Err(e),
        };
        let (uri, p3) = match read_text(data, p2) {
            Ok(v) => v,
            Err(e) => return Err(e),
        };
        let (seller_fee_basis_points, p4) = match read_u16(data, p3) {
            Ok(v) => v,
            Err(e) => return Err(e),
        };
        let (creators, p5) = match read_creators(data, p4) {
            Ok(v) => v,
            Err(e) => return Err(e),
        };
        let (primary_sale_happened, p6) = match read_bool(data, p5) {
            Ok(v) => v,
            Err(e) => return Err(e),
        };
        let (is_mutable, p7) = match read_bool(data, p6) {
            Ok(v) => v,
            Err(e) => return Err(e),
        };
        let (token_standard, p8) = match read_token_standard(data, p7) {
            Ok(v) => v,
            Err(e) => return Err(e),
        };
        let (collection, p9) = match read_opt_collection(data, p8) {
            Ok(v) => v,
            Err(e) => return Err(e),
        };
        let (uses, p10) = match read_opt_uses(data, p9) {
            Ok(v) => v,
            Err(e) => return Err(e),
        };
        let (collection_details, p11) = match read_opt_details(data, p10) {
            Ok(v) => v,
            Err(e) => return Err(e),
        };
        let (rule_set, p12) = match read_opt_address(data, p11) {
            Ok(v) => v,
            Err(e) => return Err(e),
        };
        let asset = AssetData {
            name,
            symbol,
            uri,
            seller_fee_basis_points,
            creators,
            primary_sale_happened,
            is_mutable,
            token_standard,
            collection,
            uses,
            collection_details,
            rule_set,
        };
        Ok((asset, p12))
    }

    /// Reads a record from the start of `data`; bytes after it are ignored.
    pub fn deserialize(data: &[u8]) -> (r: Result<Self, DeserializeError>)
        ensures
            parse_asset_data(data@, 0) is Some <==> r is Ok,
            r is Err ==> r->Err_0 == DeserializeError::InvalidData,
            r is Ok ==> r->Ok_0@ == parse_asset_data(data@, 0)->Some_0.0,
    {
        match AssetData::decode_at(data, 0) {
            Ok((asset, _)) => Ok(asset),
            Err(e) => Err(e),
        }
    }
}

/// The `i`-th creator's encoding sits at `34 * i` in the list's encoding.
proof fn lemma_creator_list_at(cs: Seq<Creator>, i: int)
    requires
        0 <= i < cs.len(),
    ensures
        encode_creator_list(cs).subrange(34 * i, 34 * i + 34) == cs[i].encoded(),
    decreases cs.len(),
{
    let init = cs.drop_last();
    lemma_creator_list_len(init);
    crate::creator::lemma_creator_round_trip(cs.last());
    let e = encode_creator_list(cs);
    if i < cs.len() - 1 {
        lemma_creator_list_at(init, i);
        assert(e.subrange(34 * i, 34 * i + 34) =~= encode_creator_list(init).subrange(
            34 * i,
            34 * i + 34,
        ));
    } else {
        assert(e.subrange(34 * i, 34 * i + 34) =~= cs.last().encoded());
    }
}

proof fn lemma_parse_creators_of(d: Seq<u8>, p: int, o: Option<Seq<Creator>>)
    requires
        0 <= p,
        o matches Some(cs) ==> cs.len() <= u32::MAX,
        p + encode_creators(o).len() <= d.len(),
        d.subrange(p, p + encode_creators(o).len()) == encode_creators(o),
    ensures
        parse_creators(d, p) == Some((o, p + encode_creators(o).len())),
{
    let e = encode_creators(o);
    assert(d[p] == e[0]) by {
        assert(d.subrange(p, p + e.len())[0] == d[p]);
    }
    match o {
        Some(cs) => {
            let n = cs.len() as u32;
            let list = encode_creator_list(cs);
            crate::codec::lemma_encode_lengths(seq![], 0, n, 0);
            lemma_creator_list_len(cs);
            let head = seq![1u8] + spec_u32_to_le_bytes(n);
            assert(e =~= head + list);
            crate::codec::lemma_split_concat(d, p, head, list);
            crate::codec::lemma_split_concat(d, p, seq![1u8], spec_u32_to_le_bytes(n));
            crate::codec::lemma_parse_u32_of(d, p + 1, n);
            let base = p + 5;
            assert forall|i: int| 0 <= i < cs.len() implies Creator::decoded(
                d.subrange(base + 34 * i, base + 34 * i + 34),
            ) == cs[i] by {
                lemma_creator_list_at(cs, i);
                assert(d.subrange(base + 34 * i, base + 34 * i + 34) =~= list.subrange(
                    34 * i,
                    34 * i + 34,
                ));
                crate::creator::lemma_creator_round_trip(cs[i]);
            }
            let parsed = parse_creator_list(d, base, n as nat);
            assert(parsed->Some_0.0 =~= cs);
        },
        None => {},
    }
}

proof fn lemma_parse_bool_of(d: Seq<u8>, p: int, b: bool)
    requires
        0 <= p < d.len(),
        d[p] == bool_byte(b),
    ensures
        parse_bool(d, p) == Some((b, p + 1)),
{
}

proof fn lemma_parse_opt_collection_of(d: Seq<u8>, p: int, o: Option<Collection>)
    requires
        0 <= p,
        p + encode_opt_collection(o).len() <= d.len(),
        d.subrange(p, p + encode_opt_collection(o).len()) == encode_opt_collection(o),
    ensures
        parse_opt_collection(d, p) == Some((o, p + encode_opt_collection(o).len())),
{
    let e = encode_opt_collection(o);
    assert(d.subrange(p, p + e.len())[0] == d[p]);
    if let Some(c) = o {
        crate::collection::lemma_collection_round_trip(c);
        crate::codec::lemma_split_concat(d, p, seq![1u8], c.encoded());
    }
}

proof fn lemma_parse_opt_uses_of(d: Seq<u8>, p: int, o: Option<Uses>)
    requires
        0 <= p,
        p + encode_opt_uses(o).len() <= d.len(),
        d.subrange(p, p + encode_opt_uses(o).len()) == encode_opt_uses(o),
    ensures
        parse_opt_uses(d, p) == Some((o, p + encode_opt_uses(o).len())),
{
    let e = encode_opt_uses(o);
    assert(d.subrange(p, p + e.len())[0] == d[p]);
    if let Some(u) = o {
        crate::uses::lemma_uses_round_trip(u);
        crate::codec::lemma_split_concat(d, p, seq![1u8], u.encoded());
    }
}

proof fn lemma_parse_opt_details_of(d: Seq<u8>, p: int, o: Option<CollectionDetails>)
    requires
        0 <= p,
        o matches Some(c) ==> c.round_trips(),
        p + encode_opt_details(o).len() <= d.len(),
        d.subrange(p, p + encode_opt_details(o).len()) == encode_opt_details(o),
    ensures
        parse_opt_details(d, p) == Some((o, p + encode_opt_details(o).len())),
{
    let e = encode_opt_details(o);
    assert(d.subrange(p, p + e.len())[0] == d[p]);
    if let Some(c) = o {
        crate::collection::lemma_collection_details_round_trip(c);
        crate::codec::lemma_split_concat(d, p, seq![1u8], c.encoded());
    }
}

proof fn lemma_parse_opt_address_of(d: Seq<u8>, p: int, o: Option<Pubkey>)
    requires
        0 <= p,
        p + encode_opt_address(o).len() <= d.len(),
        d.subrange(p, p + encode_opt_address(o).len()) == encode_opt_address(o),
    ensures
        parse_opt_address(d, p) == Some((o, p + encode_opt_address(o).len())),
{
    let e = encode_opt_address(o);
    assert(d.subrange(p, p + e.len())[0] == d[p]);
    if let Some(a) = o {
        crate::codec::lemma_split_concat(d, p, seq![1u8], a@);
        crate::codec::lemma_parse_address_of(d, p + 1, a);
    }
}

pub open spec fn encode_head(v: AssetDataView) -> Seq<u8> {
    encode_text(v.name) + encode_text(v.symbol) + encode_text(v.uri) + spec_u16_to_le_bytes(
        v.seller_fee_basis_points,
    ) + encode_creators(v.creators)
}

pub open spec fn encode_tail(v: AssetDataView) -> Seq<u8> {
    seq![bool_byte(v.primary_sale_happened), bool_byte(v.is_mutable), v.token_standard as u8]
        + encode_opt_collection(v.collection) + encode_opt_uses(v.uses) + encode_opt_details(
        v.collection_details,
    ) + encode_opt_address(v.rule_set)
}

proof fn lemma_asset_parts(v: AssetDataView)
    ensures
        v.encoded() == encode_head(v) + encode_tail(v),
{
    let h = encode_head(v);
    let fl = seq![bool_byte(v.primary_sale_happened), bool_byte(v.is_mutable), v.token_standard as u8];
    let co = encode_opt_collection(v.collection);
    let us = encode_opt_uses(v.uses);
    let de = encode_opt_details(v.collection_details);
    let ad = encode_opt_address(v.rule_set);
    vstd::seq_lib::lemma_concat_associative(h, fl, co);
    vstd::seq_lib::lemma_concat_associative(h, fl + co, us);
    vstd::seq_lib::lemma_concat_associative(h, fl + co + us, de);
    vstd::seq_lib::lemma_concat_associative(h, fl + co + us + de, ad);
}

proof fn lemma_parse_asset_head_of(d: Seq<u8>, p: int, v: AssetDataView)
    requires
        v.within_bounds(),
        0 <= p,
        p + encode_head(v).len() <= d.len(),
        d.subrange(p, p + encode_head(v).len()) == encode_head(v),
    ensures
        parse_asset_head(d, p) == Some(
            (
                AssetHead {
                    name: v.name,
                    symbol: v.symbol,
                    uri: v.uri,
                    seller_fee_basis_points: v.seller_fee_basis_points,
                    creators: v.creators,
                },
                p + encode_head(v).len(),
            ),
        ),
{
    let t1 = encode_text(v.name);
    let t2 = encode_text(v.symbol);
    let t3 = encode_text(v.uri);
    let f = spec_u16_to_le_bytes(v.seller_fee_basis_points);
    let cr = encode_creators(v.creators);
    let x2 = t1 + t2;
    let x3 = x2 + t3;
    let x4 = x3 + f;
    crate::codec::lemma_encode_lengths(v.name, v.seller_fee_basis_points, 0, 0);
    crate::codec::lemma_split_concat(d, p, x4, cr);
    crate::codec::lemma_split_concat(d, p, x3, f);
    crate::codec::lemma_split_concat(d, p, x2, t3);
    crate::codec::lemma_split_concat(d, p, t1, t2);
    crate::codec::lemma_parse_text_of(d, p, v.name);
    crate::codec::lemma_parse_text_of(d, p + t1.len(), v.symbol);
    crate::codec::lemma_parse_text_of(d, p + x2.len(), v.uri);
    crate::codec::lemma_parse_u16_of(d, p + x3.len(), v.seller_fee_basis_points);
    lemma_parse_creators_of(d, p + x4.len(), v.creators);
}

proof fn lemma_parse_asset_tail_of(d: Seq<u8>, p: int, v: AssetDataView)
    requires
        v.within_bounds(),
        0 <= p,
        p + encode_tail(v).len() <= d.len(),
        d.subrange(p, p + encode_tail(v).len()) == encode_tail(v),
    ensures
        parse_asset_tail(d, p) == Some(
            (
                AssetTail {
                    primary_sale_happened: v.primary_sale_happened,
                    is_mutable: v.is_mutable,
                    token_standard: v.token_standard,
                    collection: v.collection,
                    uses: v.uses,
                    collection_details: v.collection_details,
                    rule_set: v.rule_set,
                },
                p + encode_tail(v).len(),
            ),
        ),
{
    let fl = seq![bool_byte(v.primary_sale_happened), bool_byte(v.is_mutable), v.token_standard as u8];
    let co = encode_opt_collection(v.collection);
    let us = encode_opt_uses(v.uses);
    let de = encode_opt_details(v.collection_details);
    let ad = encode_opt_address(v.rule_set);
    let x7 = fl + co;
    let x8 = x7 + us;
    let x9 = x8 + de;
    crate::codec::lemma_split_concat(d, p, x9, ad);
    crate::codec::lemma_split_concat(d, p, x8, de);
    crate::codec::lemma_split_concat(d, p, x7, us);
    crate::codec::lemma_split_concat(d, p, fl, co);
    assert(d[p] == fl[0] && d[p + 1] == fl[1] && d[p + 2] == fl[2]) by {
        assert(d.subrange(p, p + 3)[0] == d[p]);
        assert(d.subrange(p, p + 3)[1] == d[p + 1]);
        assert(d.subrange(p, p + 3)[2] == d[p + 2]);
    }
    lemma_parse_bool_of(d, p, v.primary_sale_happened);
    lemma_parse_bool_of(d, p + 1, v.is_mutable);
    crate::token_standard::lemma_token_standard_of_byte_round_trip(v.token_standard);
    lemma_parse_opt_collection_of(d, p + 3, v.collection);
    lemma_parse_opt_uses_of(d, p + x7.len(), v.uses);
    lemma_parse_opt_details_of(d, p + x8.len(), v.collection_details);
    lemma_parse_opt_address_of(d, p + x9.len(), v.rule_set);
}

/// A record within the bounds of the format, found at `p`, reads back as itself and ends
/// where its encoding ends.
pub proof fn lemma_parse_asset_data_of(d: Seq<u8>, p: int, v: AssetDataView)
    requires
        v.within_bounds(),
        0 <= p,
        p + v.encoded().len() <= d.len(),
        d.subrange(p, p + v.encoded().len()) == v.encoded(),
    ensures
        parse_asset_data(d, p) == Some((v, p + v.encoded().len())),
{
    lemma_asset_parts(v);
    crate::codec::lemma_split_concat(d, p, encode_head(v), encode_tail(v));
    lemma_parse_asset_head_of(d, p, v);
    lemma_parse_asset_tail_of(d, p + encode_head(v).len(), v);
}

/// Reading back the bytes of a record within the bounds of the format gives the record,
/// and the bytes are exactly as many as the computed length.
pub proof fn lemma_asset_data_round_trip(v: AssetDataView)
    requires
        v.within_bounds(),
    ensures
        parse_asset_data(v.encoded(), 0) == Some((v, v.encoded().len() as int)),
        v.encoded().len() == v.encoded_len(),
{
    let e = v.encoded();
    assert(e.subrange(0, e.len() as int) =~= e);
    lemma_parse_asset_data_of(e, 0, v);
    lemma_encoded_len(v);
}

/// A presence byte of 0 reads as an absent field whatever follows; a presence byte of 1
/// with fewer payload bytes left than the field needs is a read failure.
pub proof fn lemma_presence_byte(d: Seq<u8>, p: int)
    requires
        0 <= p < d.len(),
    ensures
        d[p] == 0 ==> parse_creators(d, p) == Some((None::<Seq<Creator>>, p + 1)),
        d[p] == 0 ==> parse_opt_collection(d, p) == Some((None::<Collection>, p + 1)),
        d[p] == 0 ==> parse_opt_uses(d, p) == Some((None::<Uses>, p + 1)),
        d[p] == 0 ==> parse_opt_details(d, p) == Some((None::<CollectionDetails>, p + 1)),
        d[p] == 0 ==> parse_opt_address(d, p) == Some((None::<Pubkey>, p + 1)),
        d[p] == 1 && p + 1 + 4 > d.len() ==> parse_creators(d, p) is None,
        d[p] == 1 && p + 1 + 33 > d.len() ==> parse_opt_collection(d, p) is None,
        d[p] == 1 && p + 1 + 17 > d.len() ==> parse_opt_uses(d, p) is None,
        d[p] == 1 && p + 1 + 8 > d.len() ==> parse_opt_details(d, p) is None,
        d[p] == 1 && p + 1 + 32 > d.len() ==> parse_opt_address(d, p) is None,
{
}

/// `a` is the start of `b`.
pub open spec fn is_prefix(a: Seq<u8>, b: Seq<u8>) -> bool {
    a.len() <= b.len() && a == b.take(a.len() as int)
}

proof fn lemma_prefix_sub(a: Seq<u8>, b: Seq<u8>, i: int, j: int)
    requires
        is_prefix(a, b),
        0 <= i <= j <= a.len(),
    ensures
        a.subrange(i, j) == b.subrange(i, j),
{
    assert(a.subrange(i, j) =~= b.subrange(i, j));
}

proof fn lemma_prefix_text(a: Seq<u8>, b: Seq<u8>, p: int)
    requires
        is_prefix(a, b),
        parse_text(a, p) is Some,
    ensures
        parse_text(b, p) == parse_text(a, p),
{
    lemma_prefix_sub(a, b, p, p + 4);
    let n = parse_u32(a, p)->Some_0.0;
    lemma_prefix_sub(a, b, p + 4, p + 4 + n);
}

proof fn lemma_prefix_creators(a: Seq<u8>, b: Seq<u8>, p: int)
    requires
        is_prefix(a, b),
        parse_creators(a, p) is Some,
    ensures
        parse_creators(b, p) == parse_creators(a, p),
{
    if a[p] == 1 {
        lemma_prefix_sub(a, b, p + 1, p + 5);
        let n = parse_u32(a, p + 1)->Some_0.0 as nat;
        let base = p + 5;
        assert forall|i: int| 0 <= i < n implies #[trigger] a.subrange(base + 34 * i, base + 34 * i + 34)
            == b.subrange(base + 34 * i, base + 34 * i + 34) by {
            lemma_prefix_sub(a, b, base + 34 * i, base + 34 * i + 34);
        }
        assert(parse_creator_list(a, base, n)->Some_0.0 =~= parse_creator_list(b, base, n)->Some_0.0);
    }
}

proof fn lemma_prefix_tail(a: Seq<u8>, b: Seq<u8>, p: int)
    requires
        is_prefix(a, b),
        parse_asset_tail(a, p) is Some,
    ensures
        parse_asset_tail(b, p) == parse_asset_tail(a, p),
{
    let q = p + 3;
    let (t, e) = parse_asset_tail(a, p)->Some_0;
    let q1 = parse_opt_collection(a, q)->Some_0.1;
    let q2 = parse_opt_uses(a, q1)->Some_0.1;
    let q3 = parse_opt_details(a, q2)->Some_0.1;
    if a[q] == 1 {
        lemma_prefix_sub(a, b, q + 1, q + 34);
    }
    if a[q1] == 1 {
        lemma_prefix_sub(a, b, q1 + 1, q1 + 18);
    }
    if a[q2] == 1 {
        lemma_prefix_sub(a, b, q2 + 1, q2 + 9);
    }
    if a[q3] == 1 {
        lemma_prefix_sub(a, b, q3 + 1, q3 + 33);
    }
}

/// Reading is unaffected by bytes after the record: a record read from the start of some
/// bytes is read the same from any longer bytes that begin with them.
pub proof fn lemma_parse_asset_data_prefix(a: Seq<u8>, b: Seq<u8>, p: int)
    requires
        is_prefix(a, b),
        parse_asset_data(a, p) is Some,
    ensures
        parse_asset_data(b, p) == parse_asset_data(a, p),
{
    let p1 = parse_text(a, p)->Some_0.1;
    let p2 = parse_text(a, p1)->Some_0.1;
    let p3 = parse_text(a, p2)->Some_0.1;
    lemma_prefix_text(a, b, p);
    lemma_prefix_text(a, b, p1);
    lemma_prefix_text(a, b, p2);
    lemma_prefix_sub(a, b, p3, p3 + 2);
    lemma_prefix_creators(a, b, p3 + 2);
    let q = parse_asset_head(a, p)->Some_0.1;
    lemma_prefix_tail(a, b, q);
}

/// No strict prefix of a record's encoding reads as a record: cutting the bytes anywhere
/// inside the record, in particular inside the payload of a present optional field, makes
/// the read fail, so `deserialize` returns `InvalidData`.
pub proof fn lemma_truncated_asset_data_fails(v: AssetDataView, m: int)
    requires
        v.within_bounds(),
        0 <= m < v.encoded().len(),
    ensures
        parse_asset_data(v.encoded().take(m), 0) is None,
{
    let e = v.encoded();
    let a = e.take(m);
    lemma_asset_data_round_trip(v);
    if parse_asset_data(a, 0) is Some {
        assert(is_prefix(a, e));
        lemma_parse_asset_data_prefix(a, e, 0);
        let q = parse_asset_data(a, 0)->Some_0.1;
        assert(q <= a.len()) by {
            lemma_parse_asset_data_end(a, 0);
        }
    }
}

proof fn lemma_parse_asset_data_end(d: Seq<u8>, p: int)
    requires
        0 <= p,
        parse_asset_data(d, p) is Some,
    ensures
        parse_asset_data(d, p)->Some_0.1 <= d.len(),
{
    let q = parse_asset_head(d, p)->Some_0.1;
    let q1 = parse_opt_collection(d, q + 3)->Some_0.1;
    let q2 = parse_opt_uses(d, q1)->Some_0.1;
    let q3 = parse_opt_details(d, q2)->Some_0.1;
    assert(q3 <= d.len());
}

} // verus!
