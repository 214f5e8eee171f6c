//! Primitive field encodings: little-endian integers, length-prefixed UTF-8 text,
//! raw addresses and one-byte booleans, each with a bounds-checked reader.

use vstd::prelude::*;
use vstd::bytes::*;
use vstd::slice::slice_subrange;
use vstd::utf8::*;
use crate::error::DeserializeError;
use crate::pubkey::{Pubkey, copy_pubkey, pubkey_of};

verus! {

broadcast use {encode_utf8_valid_utf8, encode_utf8_decode_utf8};

/// The byte that stands for a boolean.
pub open spec fn bool_byte(b: bool) -> u8 {
    if b {
        1
    } else {
        0
    }
}

/// A length-prefixed string: its UTF-8 byte count as a little-endian `u32`, then the bytes.
pub open spec fn encode_text(s: Seq<char>) -> Seq<u8> {
    spec_u32_to_le_bytes(encode_utf8(s).len() as u32) + encode_utf8(s)
}

/// Byte at `p`, and the position after it.
pub open spec fn parse_u8(d: Seq<u8>, p: int) -> Option<(u8, int)> {
    if 0 <= p < d.len() {
        Some((d[p], p + 1))
    } else {
        None
    }
}

/// Little-endian `u16` at `p`, and the position after it.
pub open spec fn parse_u16(d: Seq<u8>, p: int) -> Option<(u16, int)> {
    if 0 <= p && p + 2 <= d.len() {
        Some((spec_u16_from_le_bytes(d.subrange(p, p + 2)), p + 2))
    } else {
        None
    }
}

/// Little-endian `u32` at `p`, and the position after it.
pub open spec fn parse_u32(d: Seq<u8>, p: int) -> Option<(u32, int)> {
    if 0 <= p && p + 4 <= d.len() {
        Some((spec_u32_from_le_bytes(d.subrange(p, p + 4)), p + 4))
    } else {
        None
    }
}

/// Little-endian `u64` at `p`, and the position after it.
pub open spec fn parse_u64(d: Seq<u8>, p: int) -> Option<(u64, int)> {
    if 0 <= p && p + 8 <= d.len() {
        Some((spec_u64_from_le_bytes(d.subrange(p, p + 8)), p + 8))
    } else {
        None
    }
}

/// Raw 32-byte address at `p`, and the position after it.
pub open spec fn parse_address(d: Seq<u8>, p: int) -> Option<(Pubkey, int)> {
    if 0 <= p && p + 32 <= d.len() {
        Some((pubkey_of(d.subrange(p, p + 32)), p + 32))
    } else {
        None
    }
}

/// Length-prefixed string at `p`: fails when the prefix claims more bytes than remain or
/// when those bytes are not valid UTF-8.
pub open spec fn parse_text(d: Seq<u8>, p: int) -> Option<(Seq<char>, int)> {
    match parse_u32(d, p) {
        Some((n, q)) => {
            if q + n <= d.len() && valid_utf8(d.subrange(q, q + n)) {
                Some((decode_utf8(d.subrange(q, q + n)), q + n))
            } else {
                None
            }
        },
        None => None,
    }
}

/// The exec reader `r` returned what the spec reader `s` describes, with `InvalidData`
/// where `s` fails.
pub open spec fn read_agrees<T>(r: Result<(T, usize), DeserializeError>, s: Option<(T, int)>) -> bool {
    match s {
        Some((v, q)) => r matches Ok((w, e)) && w == v && e as int == q,
        None => r == Err::<(T, usize), DeserializeError>(DeserializeError::InvalidData),
    }
}

/// Relies on `core::str::from_utf8`: it succeeds exactly on valid UTF-8, and the text it
/// returns is made of the same bytes.
#[verifier::external_body]
fn utf8_text(bytes: &[u8]) -> (r: Option<&str>)
    ensures
        r is Some <==> valid_utf8(bytes@),
        r is Some ==> encode_utf8(r->Some_0@) == bytes@,
{
    core::str::from_utf8(bytes).ok()
}

/// The text held by `bytes`, or `None` when they are not valid UTF-8.
pub fn text_of_bytes(bytes: &[u8]) -> (r: Option<&str>)
    ensures
        r is Some <==> valid_utf8(bytes@),
        r is Some ==> r->Some_0@ == decode_utf8(bytes@),
        r is Some ==> encode_utf8(r->Some_0@) == bytes@,
{
    let r = utf8_text(bytes);
    proof {
        if r is Some {
            assert(decode_utf8(encode_utf8(r->Some_0@)) == r->Some_0@);
        }
    }
    r
}

/// Reads the byte at `pos`.
pub fn read_u8(data: &[u8], pos: usize) -> (r: Result<(u8, usize), DeserializeError>)
    ensures
        read_agrees(r, parse_u8(data@, pos as int)),
{
    if pos >= data.len() {
        return Err(DeserializeError::InvalidData);
    }
    Ok((data[pos], pos + 1))
}

/// Reads a little-endian `u16` at `pos`.
pub fn read_u16(data: &[u8], pos: usize) -> (r: Result<(u16, usize), DeserializeError>)
    ensures
        read_agrees(r, parse_u16(data@, pos as int)),
{
    if pos > data.len() || data.len() - pos < 2 {
        return Err(DeserializeError::InvalidData);
    }
    let x = u16_from_le_bytes(slice_subrange(data, pos, pos + 2));
    Ok((x, pos + 2))
}

/// Reads a little-endian `u32` at `pos`.
pub fn read_u32(data: &[u8], pos: usize) -> (r: Result<(u32, usize), DeserializeError>)
    ensures
        read_agrees(r, parse_u32(data@, pos as int)),
{
    if pos > data.len() || data.len() - pos < 4 {
        return Err(DeserializeError::InvalidData);
    }
    let x = u32_from_le_bytes(slice_subrange(data, pos, pos + 4));
    Ok((x, pos + 4))
}

/// Reads a little-endian `u64` at `pos`.
pub fn read_u64(data: &[u8], pos: usize) -> (r: Result<(u64, usize), DeserializeError>)
    ensures
        read_agrees(r, parse_u64(data@, pos as int)),
{
    if pos > data.len() || data.len() - pos < 8 {
        return Err(DeserializeError::InvalidData);
    }
    let x = u64_from_le_bytes(slice_subrange(data, pos, pos + 8));
    Ok((x, pos + 8))
}

/// Reads a raw 32-byte address at `pos`.
pub fn read_address(data: &[u8], pos: usize) -> (r: Result<(Pubkey, usize), DeserializeError>)
    ensures
        read_agrees(r, parse_address(data@, pos as int)),
{
    if pos > data.len() || data.len() - pos < 32 {
        return Err(DeserializeError::InvalidData);
    }
    let a = copy_pubkey(slice_subrange(data, pos, pos + 32));
    Ok((a, pos + 32))
}

/// Reads a length-prefixed UTF-8 string at `pos`.
pub fn read_text(data: &[u8], pos: usize) -> (r: Result<(String, usize), DeserializeError>)
    ensures
        parse_text(data@, pos as int) is Some <==> r is Ok,
        r is Err ==> r == Err::<(String, usize), DeserializeError>(DeserializeError::InvalidData),
        r is Ok ==> r->Ok_0.0@ == parse_text(data@, pos as int)->Some_0.0
            && r->Ok_0.1 as int == parse_text(data@, pos as int)->Some_0.1,
{
    let (n, start) = match read_u32(data, pos) {
        Ok(v) => v,
        Err(e) => return Err(e),
    };
    if n as usize > data.len() - start {
        return Err(DeserializeError::InvalidData);
    }
    let end = start + n as usize;
    match text_of_bytes(slice_subrange(data, start, end)) {
        Some(s) => Ok((s.to_owned(), end)),
        None => Err(DeserializeError::InvalidData),
    }
}

/// Appends `x` in little-endian order.
pub fn write_u16(buffer: &mut Vec<u8>, x: u16)
    ensures
        final(buffer)@ == old(buffer)@ + spec_u16_to_le_bytes(x),
{
    let b = u16_to_le_bytes(x);
    crate::pubkey::append_bytes(buffer, b.as_slice());
}

/// Appends `x` in little-endian order.
pub fn write_u32(buffer: &mut Vec<u8>, x: u32)
    ensures
        final(buffer)@ == old(buffer)@ + spec_u32_to_le_bytes(x),
{
    let b = u32_to_le_bytes(x);
    crate::pubkey::append_bytes(buffer, b.as_slice());
}

/// Appends `x` in little-endian order.
pub fn write_u64(buffer: &mut Vec<u8>, x: u64)
    ensures
        final(buffer)@ == old(buffer)@ + spec_u64_to_le_bytes(x),
{
    let b = u64_to_le_bytes(x);
    crate::pubkey::append_bytes(buffer, b.as_slice());
}

/// Appends `s` as a length-prefixed string (the prefix is the byte count cut to 32 bits).
pub fn write_text(buffer: &mut Vec<u8>, s: &str)
    ensures
        final(buffer)@ == old(buffer)@ + encode_text(s@),
{
    let bytes = s.as_bytes();
    write_u32(buffer, #[verifier::truncate] (bytes.len() as u32));
    crate::pubkey::append_bytes(buffer, bytes);
    assert(buffer@ =~= old(buffer)@ + encode_text(s@));
}

/// `a + b` read from `p` on: its first part lies at `p`, its second right after.
pub proof fn lemma_split_concat(d: Seq<u8>, p: int, a: Seq<u8>, b: Seq<u8>)
    requires
        0 <= p,
        p + a.len() + b.len() <= d.len(),
        d.subrange(p, p + a.len() + b.len()) == a + b,
    ensures
        d.subrange(p, p + a.len()) == a,
        d.subrange(p + a.len(), p + a.len() + b.len()) == b,
{
    assert(d.subrange(p, p + a.len()) =~= (a + b).subrange(0, a.len() as int));
    assert(d.subrange(p + a.len(), p + a.len() + b.len()) =~= (a + b).subrange(
        a.len() as int,
        (a.len() + b.len()) as int,
    ));
    assert((a + b).subrange(0, a.len() as int) =~= a);
    assert((a + b).subrange(a.len() as int, (a.len() + b.len()) as int) =~= b);
}

/// The little-endian bytes of `x` read back as `x`.
pub proof fn lemma_parse_u16_of(d: Seq<u8>, p: int, x: u16)
    requires
        0 <= p,
        p + 2 <= d.len(),
        d.subrange(p, p + 2) == spec_u16_to_le_bytes(x),
    ensures
        parse_u16(d, p) == Some((x, p + 2)),
{
    lemma_auto_spec_u16_to_from_le_bytes();
    assert(spec_u16_to_le_bytes(x).len() == 2);
}

/// The little-endian bytes of `x` read back as `x`.
pub proof fn lemma_parse_u32_of(d: Seq<u8>, p: int, x: u32)
    requires
        0 <= p,
        p + 4 <= d.len(),
        d.subrange(p, p + 4) == spec_u32_to_le_bytes(x),
    ensures
        parse_u32(d, p) == Some((x, p + 4)),
{
    lemma_auto_spec_u32_to_from_le_bytes();
    assert(spec_u32_to_le_bytes(x).len() == 4);
}

/// The bytes of an address read back as the address.
pub proof fn lemma_parse_address_of(d: Seq<u8>, p: int, a: Pubkey)
    requires
        0 <= p,
        p + 32 <= d.len(),
        d.subrange(p, p + 32) == a@,
    ensures
        parse_address(d, p) == Some((a, p + 32)),
{
    crate::pubkey::lemma_pubkey_of_view(a);
}

/// Length facts of the encodings.
pub proof fn lemma_encode_lengths(s: Seq<char>, a: u16, b: u32, c: u64)
    ensures
        encode_text(s).len() == 4 + encode_utf8(s).len(),
        spec_u16_to_le_bytes(a).len() == 2,
        spec_u32_to_le_bytes(b).len() == 4,
        spec_u64_to_le_bytes(c).len() == 8,
{
    lemma_auto_spec_u16_to_from_le_bytes();
    lemma_auto_spec_u32_to_from_le_bytes();
    lemma_auto_spec_u64_to_from_le_bytes();
}

/// A string whose UTF-8 form fits the 32-bit prefix reads back as itself.
pub proof fn lemma_parse_text_of(d: Seq<u8>, p: int, s: Seq<char>)
    requires
        0 <= p,
        encode_utf8(s).len() <= u32::MAX,
        p + encode_text(s).len() <= d.len(),
        d.subrange(p, p + encode_text(s).len()) == encode_text(s),
    ensures
        parse_text(d, p) == Some((s, p + encode_text(s).len())),
{
    let n = encode_utf8(s).len() as u32;
    lemma_encode_lengths(s, 0, n, 0);
    lemma_split_concat(d, p, spec_u32_to_le_bytes(n), encode_utf8(s));
    lemma_parse_u32_of(d, p, n);
}

} // verus!
