//! The fixed-layout token-metadata record: a typed view over a byte buffer whose layout is
//! the wire layout. Strings live in fixed-capacity, null-terminated, zero-padded fields,
//! and extra data in a fixed table of key/value slots.

use vstd::prelude::*;
use vstd::slice::slice_subrange;
use vstd::utf8::*;
use crate::codec::text_of_bytes;
use crate::discriminator::{ArrayDiscriminator, SplDiscriminate};
use crate::error::ProgramError;
use crate::pubkey::{Pubkey, copy_pubkey};

verus! {

/// Capacity of the name field.
pub const NAME_LEN: usize = 32;
/// Capacity of the symbol field.
pub const SYMBOL_LEN: usize = 32;
/// Capacity of the URI field.
pub const URI_LEN: usize = 200;
/// Number of key/value slots.
pub const MAX_KV_PAIRS: usize = 32;
/// Capacity of a key.
pub const KV_KEY_LEN: usize = 32;
/// Capacity of a value.
pub const KV_VALUE_LEN: usize = 32;

/// Offset of the update authority.
pub const UPDATE_AUTHORITY_OFFSET: usize = 0;
/// Offset of the mint.
pub const MINT_OFFSET: usize = 32;
/// Offset of the name field.
pub const NAME_OFFSET: usize = 64;
/// Offset of the symbol field.
pub const SYMBOL_OFFSET: usize = 96;
/// Offset of the URI field.
pub const URI_OFFSET: usize = 128;
/// Offset of the first key/value slot.
pub const KV_OFFSET: usize = 328;
/// Size of one key/value slot.
pub const KV_SLOT_LEN: usize = 64;

/// `n` zero bytes.
pub open spec fn zero_bytes(n: int) -> Seq<u8> {
    Seq::new(n as nat, |i: int| 0u8)
}

/// `k` is where the text of field `s` ends: the first zero byte, or the end of the field.
pub open spec fn is_text_end(s: Seq<u8>, k: int) -> bool {
    &&& 0 <= k <= s.len()
    &&& forall|j: int| 0 <= j < k ==> s[j] != 0
    &&& k < s.len() ==> s[k] == 0
}

/// Where the text of field `s` ends.
pub open spec fn text_end(s: Seq<u8>) -> int {
    choose|k: int| is_text_end(s, k)
}

/// The bytes of field `s` before its terminator.
pub open spec fn stored_text(s: Seq<u8>) -> Seq<u8> {
    s.take(text_end(s))
}

/// The string that field `s` holds: its bytes before the terminator when they are valid
/// UTF-8, and the empty string otherwise.
pub open spec fn field_str(s: Seq<u8>) -> Seq<char> {
    if valid_utf8(stored_text(s)) {
        decode_utf8(stored_text(s))
    } else {
        seq![]
    }
}

/// A field of capacity `cap` after writing `b`: at most `cap - 1` bytes of `b`, then zeros.
pub open spec fn padded(b: Seq<u8>, cap: int) -> Seq<u8> {
    let n = if b.len() < cap - 1 {
        b.len() as int
    } else {
        cap - 1
    };
    b.take(n) + zero_bytes(cap - n)
}

/// `d` with `f` written from `off` on.
pub open spec fn splice(d: Seq<u8>, off: int, f: Seq<u8>) -> Seq<u8> {
    d.take(off) + f + d.skip(off + f.len())
}

/// The text end is unique.
pub proof fn lemma_text_end(s: Seq<u8>, k: int)
    requires
        is_text_end(s, k),
    ensures
        text_end(s) == k,
        stored_text(s) == s.take(k),
{
    let c = text_end(s);
    assert(is_text_end(s, c));
    if c < k {
        assert(s[c] != 0);
    } else if k < c {
        assert(s[k] != 0);
    }
}

/// Reads the string in a null-terminated field; invalid UTF-8 reads as the empty string.
pub fn read_str_from_bytes(bytes: &[u8]) -> (r: &str)
    ensures
        r@ == field_str(bytes@),
{
    let mut end: usize = 0;
    while end < bytes.len() && bytes[end] != 0
        invariant
            0 <= end <= bytes@.len(),
            forall|j: int| 0 <= j < end ==> bytes@[j] != 0,
        decreases bytes@.len() - end,
    {
        end += 1;
    }
    proof {
        lemma_text_end(bytes@, end as int);
    }
    let text = slice_subrange(bytes, 0, end);
    assert(text@ =~= stored_text(bytes@));
    match text_of_bytes(text) {
        Some(s) => s,
        None => {
            proof {
                reveal_strlit("");
            }
            ""
        },
    }
}

/// Whether two strings are equal, compared byte by byte.
pub fn str_eq(a: &str, b: &str) -> (r: bool)
    ensures
        r == (a@ == b@),
{
    broadcast use {encode_utf8_decode_utf8, encode_utf8_valid_utf8};

    let x = a.as_bytes();
    let y = b.as_bytes();
    if x.len() != y.len() {
        proof {
            if a@ == b@ {
                assert(x@ == y@);
            }
        }
        return false;
    }
    let mut i: usize = 0;
    while i < x.len()
        invariant
            0 <= i <= x@.len(),
            x@.len() == y@.len(),
            x@ == encode_utf8(a@),
            y@ == encode_utf8(b@),
            forall|j: int| 0 <= j < i ==> x@[j] == y@[j],
        decreases x@.len() - i,
    {
        if x[i] != y[i] {
            proof {
                if a@ == b@ {
                    assert(x@ == y@);
                }
            }
            return false;
        }
        i += 1;
    }
    assert(x@ =~= y@);
    assert(decode_utf8(encode_utf8(a@)) == a@);
    assert(decode_utf8(encode_utf8(b@)) == b@);
    true
}

/// Offset of the key of slot `i`.
pub open spec fn key_off(i: int) -> int {
    KV_OFFSET + KV_SLOT_LEN * i
}

/// Offset of the value of slot `i`.
pub open spec fn value_off(i: int) -> int {
    KV_OFFSET + KV_SLOT_LEN * i + KV_KEY_LEN
}

/// The key field of slot `i` in record bytes `d`.
pub open spec fn slot_key(d: Seq<u8>, i: int) -> Seq<u8> {
    d.subrange(key_off(i), key_off(i) + KV_KEY_LEN)
}

/// The value field of slot `i` in record bytes `d`.
pub open spec fn slot_value(d: Seq<u8>, i: int) -> Seq<u8> {
    d.subrange(value_off(i), value_off(i) + KV_VALUE_LEN)
}

/// Whether slot `i` holds key `k`.
pub open spec fn key_matches(d: Seq<u8>, i: int, k: Seq<char>) -> bool {
    field_str(slot_key(d, i)) == k
}

/// Slot `i` is the first that holds key `k`.
pub open spec fn is_first_match(d: Seq<u8>, k: Seq<char>, i: int) -> bool {
    &&& 0 <= i < MAX_KV_PAIRS
    &&& key_matches(d, i, k)
    &&& forall|j: int| 0 <= j < i ==> !#[trigger] key_matches(d, j, k)
}

/// The first slot that holds key `k`, if any.
pub open spec fn first_match(d: Seq<u8>, k: Seq<char>) -> Option<int> {
    if exists|i: int| is_first_match(d, k, i) {
        Some(choose|i: int| is_first_match(d, k, i))
    } else {
        None
    }
}

/// Slot `i` is empty: the first byte of its key is zero.
pub open spec fn slot_empty(d: Seq<u8>, i: int) -> bool {
    d[key_off(i)] == 0
}

/// Slot `i` is the first empty one.
pub open spec fn is_first_empty(d: Seq<u8>, i: int) -> bool {
    &&& 0 <= i < MAX_KV_PAIRS
    &&& slot_empty(d, i)
    &&& forall|j: int| 0 <= j < i ==> !#[trigger] slot_empty(d, j)
}

/// The first empty slot, if any.
pub open spec fn first_empty(d: Seq<u8>) -> Option<int> {
    if exists|i: int| is_first_empty(d, i) {
        Some(choose|i: int| is_first_empty(d, i))
    } else {
        None
    }
}

/// A string of at most `capacity - 1` bytes with no zero byte, written into a field, reads
/// back whole.
pub proof fn lemma_fitting_string_round_trip(d: Seq<u8>, off: int, cap: int, s: Seq<char>)
    requires
        cap >= 1,
        0 <= off,
        off + cap <= d.len(),
        encode_utf8(s).len() <= cap - 1,
        forall|j: int| 0 <= j < encode_utf8(s).len() ==> encode_utf8(s)[j] != 0,
    ensures
        field_str(splice(d, off, padded(encode_utf8(s), cap)).subrange(off, off + cap)) == s,
{
    lemma_short_text(s, cap);
    lemma_splice_ranges(d, off, padded(encode_utf8(s), cap), 0, 0);
}

/// A text that fits a key or value field: at most 31 bytes of UTF-8, none of them zero.
/// Such a text reads back whole after a write.
pub open spec fn fits_field(s: Seq<char>) -> bool {
    &&& encode_utf8(s).len() <= KV_KEY_LEN - 1
    &&& forall|j: int| 0 <= j < encode_utf8(s).len() ==> encode_utf8(s)[j] != 0
}

/// A key that a lookup can compare: at most `KV_KEY_LEN` (32) bytes of UTF-8, the most
/// that a key field can read as. Longer keys are refused.
pub open spec fn key_in_capacity(k: Seq<char>) -> bool {
    encode_utf8(k).len() <= KV_KEY_LEN
}

/// The slot that the table operations use for key `k`: the first slot whose key reads as
/// `k`. A key longer than a key field is refused and has no slot.
pub open spec fn find_slot(d: Seq<u8>, k: Seq<char>) -> Option<int> {
    if key_in_capacity(k) {
        first_match(d, k)
    } else {
        None
    }
}

/// The value stored under key `k`: that of the slot found for `k`.
pub open spec fn lookup(d: Seq<u8>, k: Seq<char>) -> Option<Seq<char>> {
    match find_slot(d, k) {
        Some(i) => Some(field_str(slot_value(d, i))),
        None => None,
    }
}

/// The record bytes after storing `v` under `k`. A key longer than a key field (over 32
/// bytes) is refused with `InvalidArgument`. Otherwise the value of the first slot whose
/// key reads as `k` is overwritten; else key and value go to the first empty slot; with
/// neither, the table is full (`AccountDataTooSmall`). Key and value are written cut to
/// the field capacity less one byte.
pub open spec fn after_set(d: Seq<u8>, k: Seq<char>, v: Seq<char>) -> Result<Seq<u8>, ProgramError> {
    if !key_in_capacity(k) {
        Err(ProgramError::InvalidArgument)
    } else {
        match first_match(d, k) {
            Some(i) => Ok(splice(d, value_off(i), padded(encode_utf8(v), KV_VALUE_LEN as int))),
            None => match first_empty(d) {
                Some(i) => Ok(
                    splice(
                        splice(d, key_off(i), padded(encode_utf8(k), KV_KEY_LEN as int)),
                        value_off(i),
                        padded(encode_utf8(v), KV_VALUE_LEN as int),
                    ),
                ),
                None => Err(ProgramError::AccountDataTooSmall),
            },
        }
    }
}

/// The record bytes after removing key `k`: both fields of the slot found for `k` are
/// zeroed; without such a slot nothing changes.
pub open spec fn after_remove(d: Seq<u8>, k: Seq<char>) -> Seq<u8> {
    match find_slot(d, k) {
        Some(i) => splice(
            splice(d, key_off(i), zero_bytes(KV_KEY_LEN as int)),
            value_off(i),
            zero_bytes(KV_VALUE_LEN as int),
        ),
        None => d,
    }
}

pub proof fn lemma_first_match_is(d: Seq<u8>, k: Seq<char>, i: int)
    requires
        is_first_match(d, k, i),
    ensures
        first_match(d, k) == Some(i),
{
    let c = choose|c: int| is_first_match(d, k, c);
    assert(is_first_match(d, k, c));
    if c < i {
        assert(!key_matches(d, c, k));
    } else if i < c {
        assert(!key_matches(d, i, k));
    }
}

pub proof fn lemma_first_empty_is(d: Seq<u8>, i: int)
    requires
        is_first_empty(d, i),
    ensures
        first_empty(d) == Some(i),
{
    let c = choose|c: int| is_first_empty(d, c);
    assert(is_first_empty(d, c));
    if c < i {
        assert(!slot_empty(d, c));
    } else if i < c {
        assert(!slot_empty(d, i));
    }
}

/// Whether `key` is at most `KV_KEY_LEN` (32) bytes long.
pub fn key_within_capacity(key: &str) -> (r: bool)
    ensures
        r == key_in_capacity(key@),
{
    key.as_bytes().len() <= KV_KEY_LEN
}

/// Size in bytes of a token-metadata record.
pub const TOKEN_METADATA_LEN: usize = 2376;

/// The token-metadata account data in its fixed layout: update authority, mint, name,
/// symbol, URI, then 32 key/value slots. A slot whose key starts with a zero byte is empty.
pub struct TokenMetadata {
    data: Vec<u8>,
}

impl TokenMetadata {
    pub const LEN: usize = 2376;

    /// The record's bytes.
    pub closed spec fn bytes(&self) -> Seq<u8> {
        self.data@
    }

    /// The buffer has the record's size.
    pub closed spec fn wf(&self) -> bool {
        self.data@.len() == TOKEN_METADATA_LEN
    }

    /// A well-formed record holds exactly `TOKEN_METADATA_LEN` bytes.
    pub proof fn lemma_wf_len(&self)
        requires
            self.wf(),
        ensures
            self.bytes().len() == TOKEN_METADATA_LEN,
    {
    }

    /// The record held by `bytes`, which must be exactly `LEN` bytes long.
    pub fn from_bytes(bytes: &[u8]) -> (r: Result<TokenMetadata, ProgramError>)
        ensures
            r is Ok <==> bytes@.len() == TOKEN_METADATA_LEN,
            r is Ok ==> r->Ok_0.wf() && r->Ok_0.bytes() == bytes@,
            r is Err ==> r->Err_0 == ProgramError::InvalidAccountData,
    {
        if bytes.len() != TOKEN_METADATA_LEN {
            return Err(ProgramError::InvalidAccountData);
        }
        let data = vstd::slice::slice_to_vec(bytes);
        Ok(TokenMetadata { data })
    }

    /// The record held by an account: its data must have the record's size, and `program_id`
    /// must own it.
    pub fn from_account_info(data: &[u8], owner: &Pubkey, program_id: &Pubkey) -> (r: Result<TokenMetadata, ProgramError>)
        ensures
            data@.len() != TOKEN_METADATA_LEN ==> r == Err::<TokenMetadata, ProgramError>(ProgramError::InvalidAccountData),
            data@.len() == TOKEN_METADATA_LEN && owner@ != program_id@ ==> r == Err::<TokenMetadata, ProgramError>(ProgramError::InvalidAccountOwner),
            data@.len() == TOKEN_METADATA_LEN && owner@ == program_id@ ==> r is Ok && r->Ok_0.wf() && r->Ok_0.bytes() == data@,
    {
        if data.len() != TOKEN_METADATA_LEN {
            return Err(ProgramError::InvalidAccountData);
        }
        if crate::account::assert_owned_by(owner, program_id).is_err() {
            return Err(ProgramError::InvalidAccountOwner);
        }
        Self::from_bytes(data)
    }

    /// The record's bytes, to be written back to the account.
    pub fn as_bytes(&self) -> (r: &[u8])
        ensures
            r@ == self.bytes(),
    {
        self.data.as_slice()
    }

    fn address_at(&self, off: usize) -> (r: Pubkey)
        requires
            self.wf(),
            off + 32 <= TOKEN_METADATA_LEN,
        ensures
            r@ == self.bytes().subrange(off as int, off + 32),
    {
        copy_pubkey(slice_subrange(self.data.as_slice(), off, off + 32))
    }

    /// Whether an update authority is set (it is not all zeros).
    pub fn has_update_authority(&self) -> (r: bool)
        requires
            self.wf(),
        ensures
            r == (self.bytes().subrange(0, 32) != zero_bytes(32)),
    {
        let mut i: usize = 0;
        while i < 32
            invariant
                0 <= i <= 32,
                self.wf(),
                forall|j: int| 0 <= j < i ==> self.bytes()[j] == 0,
            decreases 32 - i,
        {
            if self.data[i] != 0 {
                assert(self.bytes().subrange(0, 32)[i as int] != 0);
                return true;
            }
            i += 1;
        }
        assert(self.bytes().subrange(0, 32) =~= zero_bytes(32));
        false
    }

    /// The update authority.
    pub fn update_authority(&self) -> (r: Pubkey)
        requires
            self.wf(),
        ensures
            r@ == self.bytes().subrange(0, 32),
    {
        self.address_at(UPDATE_AUTHORITY_OFFSET)
    }

    /// The mint.
    pub fn mint(&self) -> (r: Pubkey)
        requires
            self.wf(),
        ensures
            r@ == self.bytes().subrange(32, 64),
    {
        self.address_at(MINT_OFFSET)
    }

    fn str_at(&self, off: usize, cap: usize) -> (r: &str)
        requires
            self.wf(),
            off + cap <= TOKEN_METADATA_LEN,
        ensures
            r@ == field_str(self.bytes().subrange(off as int, off + cap)),
    {
        read_str_from_bytes(slice_subrange(self.data.as_slice(), off, off + cap))
    }

    /// The name: the bytes before the first zero, or empty where they are not UTF-8.
    pub fn name(&self) -> (r: &str)
        requires
            self.wf(),
        ensures
            r@ == field_str(self.bytes().subrange(64, 96)),
    {
        self.str_at(NAME_OFFSET, NAME_LEN)
    }

    /// The symbol: the bytes before the first zero, or empty where they are not UTF-8.
    pub fn symbol(&self) -> (r: &str)
        requires
            self.wf(),
        ensures
            r@ == field_str(self.bytes().subrange(96, 128)),
    {
        self.str_at(SYMBOL_OFFSET, SYMBOL_LEN)
    }

    /// The URI: the bytes before the first zero, or empty where they are not UTF-8.
    pub fn uri(&self) -> (r: &str)
        requires
            self.wf(),
        ensures
            r@ == field_str(self.bytes().subrange(128, 328)),
    {
        self.str_at(URI_OFFSET, URI_LEN)
    }

    /// Zero-fills the field of capacity `cap` at `off`, then copies at most `cap - 1`
    /// bytes of `src` into it; the rest of `src` is dropped.
    fn write_str_to_bytes(&mut self, off: usize, cap: usize, src: &str)
        requires
            old(self).wf(),
            cap >= 1,
            off + cap <= TOKEN_METADATA_LEN,
        ensures
            final(self).wf(),
            final(self).bytes() == splice(old(self).bytes(), off as int, padded(encode_utf8(src@), cap as int)),
    {
        let bytes = src.as_bytes();
        let mut i: usize = 0;
        while i < cap
            invariant
                0 <= i <= cap,
                off + cap <= TOKEN_METADATA_LEN,
                self.data@.len() == TOKEN_METADATA_LEN,
                forall|j: int| 0 <= j < off || off + i <= j < TOKEN_METADATA_LEN ==> self.data@[j] == old(self).data@[j],
                forall|j: int| off <= j < off + i ==> self.data@[j] == 0,
            decreases cap - i,
        {
            self.data.set(off + i, 0u8);
            i += 1;
        }
        let n = if bytes.len() < cap - 1 {
            bytes.len()
        } else {
            cap - 1
        };
        let mut i: usize = 0;
        while i < n
            invariant
                0 <= i <= n,
                n <= bytes@.len(),
                n < cap,
                off + cap <= TOKEN_METADATA_LEN,
                self.data@.len() == TOKEN_METADATA_LEN,
                forall|j: int| 0 <= j < off || off + cap <= j < TOKEN_METADATA_LEN ==> self.data@[j] == old(self).data@[j],
                forall|j: int| off <= j < off + i ==> self.data@[j] == bytes@[j - off],
                forall|j: int| off + n <= j < off + cap ==> self.data@[j] == 0,
            decreases n - i,
        {
            self.data.set(off + i, bytes[i]);
            i += 1;
        }
        assert(self.data@ =~= splice(old(self).data@, off as int, padded(bytes@, cap as int)));
    }

    /// The first slot whose key reads as `key`; none for a key that does not fit a key field.
    fn find_key_index(&self, key: &str) -> (r: Option<usize>)
        requires
            self.wf(),
        ensures
            r matches Some(i) ==> find_slot(self.bytes(), key@) == Some(i as int),
            r is None ==> find_slot(self.bytes(), key@) is None,
    {
        if !key_within_capacity(key) {
            return None;
        }
        let mut i: usize = 0;
        while i < MAX_KV_PAIRS
            invariant
                0 <= i <= MAX_KV_PAIRS,
                self.wf(),
                key_in_capacity(key@),
                forall|j: int| 0 <= j < i ==> !#[trigger] key_matches(self.bytes(), j, key@),
            decreases MAX_KV_PAIRS - i,
        {
            let off = KV_OFFSET + KV_SLOT_LEN * i;
            let k = self.str_at(off, KV_KEY_LEN);
            if str_eq(k, key) {
                proof {
                    lemma_first_match_is(self.bytes(), key@, i as int);
                }
                return Some(i);
            }
            i += 1;
        }
        assert(!exists|c: int| is_first_match(self.bytes(), key@, c));
        None
    }

    /// The first empty slot.
    fn find_empty_slot(&self) -> (r: Option<usize>)
        requires
            self.wf(),
        ensures
            r matches Some(i) ==> first_empty(self.bytes()) == Some(i as int),
            r is None ==> first_empty(self.bytes()) is None,
    {
        let mut i: usize = 0;
        while i < MAX_KV_PAIRS
            invariant
                0 <= i <= MAX_KV_PAIRS,
                self.wf(),
                forall|j: int| 0 <= j < i ==> !#[trigger] slot_empty(self.bytes(), j),
            decreases MAX_KV_PAIRS - i,
        {
            if self.data[KV_OFFSET + KV_SLOT_LEN * i] == 0 {
                proof {
                    lemma_first_empty_is(self.bytes(), i as int);
                }
                return Some(i);
            }
            i += 1;
        }
        assert(!exists|c: int| is_first_empty(self.bytes(), c));
        None
    }

    /// Stores `value` under `key`: refuses with `InvalidArgument` a key of more than 32
    /// bytes; else overwrites the value of the first slot whose key reads as `key`, or fills
    /// the first empty slot; fails with `AccountDataTooSmall` when the table is full. Key
    /// and value are written cut to 31 bytes. A failure leaves the record unchanged.
    pub fn set_key_value(&mut self, key: &str, value: &str) -> (r: Result<(), ProgramError>)
        requires
            old(self).wf(),
        ensures
            final(self).wf(),
            match after_set(old(self).bytes(), key@, value@) {
                Ok(d) => r is Ok && final(self).bytes() == d,
                Err(e) => r == Err::<(), ProgramError>(e) && final(self).bytes() == old(self).bytes(),
            },
    {
        if !key_within_capacity(key) {
            return Err(ProgramError::InvalidArgument);
        }
        match self.find_key_index(key) {
            Some(i) => {
                let off = KV_OFFSET + KV_SLOT_LEN * i + KV_KEY_LEN;
                self.write_str_to_bytes(off, KV_VALUE_LEN, value);
                Ok(())
            },
            None => match self.find_empty_slot() {
                Some(i) => {
                    let off = KV_OFFSET + KV_SLOT_LEN * i;
                    self.write_str_to_bytes(off, KV_KEY_LEN, key);
                    self.write_str_to_bytes(off + KV_KEY_LEN, KV_VALUE_LEN, value);
                    Ok(())
                },
                None => Err(ProgramError::AccountDataTooSmall),
            },
        }
    }

    /// Zero-fills the key and value of the first slot holding `key`; returns whether
    /// there was one. A key of more than 32 bytes is never found.
    pub fn remove_key(&mut self, key: &str) -> (r: bool)
        requires
            old(self).wf(),
        ensures
            final(self).wf(),
            r == find_slot(old(self).bytes(), key@) is Some,
            final(self).bytes() == after_remove(old(self).bytes(), key@),
    {
        match self.find_key_index(key) {
            Some(i) => {
                let off = KV_OFFSET + KV_SLOT_LEN * i;
                self.fill_zero(off, KV_KEY_LEN);
                self.fill_zero(off + KV_KEY_LEN, KV_VALUE_LEN);
                true
            },
            None => false,
        }
    }

    fn fill_zero(&mut self, off: usize, cap: usize)
        requires
            old(self).wf(),
            off + cap <= TOKEN_METADATA_LEN,
        ensures
            final(self).wf(),
            final(self).bytes() == splice(old(self).bytes(), off as int, zero_bytes(cap as int)),
    {
        let mut i: usize = 0;
        while i < cap
            invariant
                0 <= i <= cap,
                off + cap <= TOKEN_METADATA_LEN,
                self.data@.len() == TOKEN_METADATA_LEN,
                forall|j: int| 0 <= j < off || off + i <= j < TOKEN_METADATA_LEN ==> self.data@[j] == old(self).data@[j],
                forall|j: int| off <= j < off + i ==> self.data@[j] == 0,
            decreases cap - i,
        {
            self.data.set(off + i, 0u8);
            i += 1;
        }
        assert(self.data@ =~= splice(old(self).data@, off as int, zero_bytes(cap as int)));
    }

    /// The value stored under `key` in the first slot holding it; none for a key that
    /// does not fit a key field.
    pub fn get_value(&self, key: &str) -> (r: Option<&str>)
        requires
            self.wf(),
        ensures
            match lookup(self.bytes(), key@) {
                Some(v) => r is Some && r->Some_0@ == v,
                None => r is None,
            },
    {
        match self.find_key_index(key) {
            Some(i) => Some(self.str_at(KV_OFFSET + KV_SLOT_LEN * i + KV_KEY_LEN, KV_VALUE_LEN)),
            None => None,
        }
    }

    /// Writes the name, cut to 31 bytes.
    pub fn set_name(&mut self, name: &str)
        requires
            old(self).wf(),
        ensures
            final(self).wf(),
            final(self).bytes() == splice(old(self).bytes(), 64, padded(encode_utf8(name@), 32)),
    {
        self.write_str_to_bytes(NAME_OFFSET, NAME_LEN, name);
    }

    /// Writes the symbol, cut to 31 bytes.
    pub fn set_symbol(&mut self, symbol: &str)
        requires
            old(self).wf(),
        ensures
            final(self).wf(),
            final(self).bytes() == splice(old(self).bytes(), 96, padded(encode_utf8(symbol@), 32)),
    {
        self.write_str_to_bytes(SYMBOL_OFFSET, SYMBOL_LEN, symbol);
    }

    /// Writes the URI, cut to 199 bytes.
    pub fn set_uri(&mut self, uri: &str)
        requires
            old(self).wf(),
        ensures
            final(self).wf(),
            final(self).bytes() == splice(old(self).bytes(), 128, padded(encode_utf8(uri@), 200)),
    {
        self.write_str_to_bytes(URI_OFFSET, URI_LEN, uri);
    }

    /// Applies one field update.
    pub fn update(&mut self, field: Field) -> (r: Result<(), ProgramError>)
        requires
            old(self).wf(),
        ensures
            final(self).wf(),
            match field {
                Field::Name(s) => r is Ok && final(self).bytes() == splice(old(self).bytes(), 64, padded(encode_utf8(s@), 32)),
                Field::Symbol(s) => r is Ok && final(self).bytes() == splice(old(self).bytes(), 96, padded(encode_utf8(s@), 32)),
                Field::Uri(s) => r is Ok && final(self).bytes() == splice(old(self).bytes(), 128, padded(encode_utf8(s@), 200)),
                Field::Key(k, v) => match after_set(old(self).bytes(), k@, v@) {
                    Ok(d) => r is Ok && final(self).bytes() == d,
                    Err(e) => r == Err::<(), ProgramError>(e) && final(self).bytes() == old(self).bytes(),
                },
            },
    {
        match field {
            Field::Name(name) => self.set_name(name),
            Field::Symbol(symbol) => self.set_symbol(symbol),
            Field::Uri(uri) => self.set_uri(uri),
            Field::Key(key, value) => {
                return self.set_key_value(key, value);
            },
        }
        Ok(())
    }
}

impl SplDiscriminate for TokenMetadata {
    fn spl_discriminator() -> (r: ArrayDiscriminator) {
        ArrayDiscriminator::new([112, 132, 90, 90, 11, 88, 157, 87])
    }
}

/// One field update of a token-metadata record.
pub enum Field<'a> {
    Name(&'a str),
    Symbol(&'a str),
    Uri(&'a str),
    Key(&'a str, &'a str),
}

/// The text that a write leaves in a field of capacity `cap`: the first
/// `min(len, cap - 1)` bytes of what was written.
pub open spec fn kept_prefix(b: Seq<u8>, cap: int) -> Seq<u8> {
    b.take(
        if b.len() < cap - 1 {
            b.len() as int
        } else {
            cap - 1
        },
    )
}

/// Writing `f` at `off` puts `f` there and leaves every range apart from it unchanged.
proof fn lemma_splice_ranges(d: Seq<u8>, off: int, f: Seq<u8>, a: int, l: int)
    requires
        0 <= off,
        off + f.len() <= d.len(),
        0 <= a,
        0 <= l,
        a + l <= d.len(),
        a + l <= off || off + f.len() <= a,
    ensures
        splice(d, off, f).len() == d.len(),
        splice(d, off, f).subrange(off, off + f.len()) == f,
        splice(d, off, f).subrange(a, a + l) == d.subrange(a, a + l),
{
    let e = splice(d, off, f);
    assert(e.subrange(off, off + f.len()) =~= f);
    assert(e.subrange(a, a + l) =~= d.subrange(a, a + l));
}

/// A field written with `b` holds the kept prefix of `b` as its text, provided that
/// prefix has no zero byte.
pub proof fn lemma_padded_text(b: Seq<u8>, cap: int)
    requires
        cap >= 1,
        forall|j: int| 0 <= j < kept_prefix(b, cap).len() ==> kept_prefix(b, cap)[j] != 0,
    ensures
        padded(b, cap).len() == cap,
        stored_text(padded(b, cap)) == kept_prefix(b, cap),
        field_str(padded(b, cap)) == if valid_utf8(kept_prefix(b, cap)) {
            decode_utf8(kept_prefix(b, cap))
        } else {
            seq![]
        },
{
    let p = padded(b, cap);
    let n = kept_prefix(b, cap).len() as int;
    assert(is_text_end(p, n));
    lemma_text_end(p, n);
    assert(p.take(n) =~= kept_prefix(b, cap));
}

/// Writing a string into a fixed-capacity field and reading the field back gives the
/// string cut to `capacity - 1` bytes, when those bytes hold no zero byte; the read gives
/// those bytes as text when they are valid UTF-8 and the empty string when a multi-byte
/// character was cut.
pub proof fn lemma_fixed_string_round_trip(d: Seq<u8>, off: int, cap: int, s: Seq<char>)
    requires
        cap >= 1,
        0 <= off,
        off + cap <= d.len(),
        forall|j: int|
            0 <= j < kept_prefix(encode_utf8(s), cap).len() ==> kept_prefix(encode_utf8(s), cap)[j]
                != 0,
    ensures
        stored_text(splice(d, off, padded(encode_utf8(s), cap)).subrange(off, off + cap))
            == kept_prefix(encode_utf8(s), cap),
        field_str(splice(d, off, padded(encode_utf8(s), cap)).subrange(off, off + cap)) == if valid_utf8(
            kept_prefix(encode_utf8(s), cap),
        ) {
            decode_utf8(kept_prefix(encode_utf8(s), cap))
        } else {
            seq![]
        },
{
    lemma_padded_text(encode_utf8(s), cap);
    lemma_splice_ranges(d, off, padded(encode_utf8(s), cap), 0, 0);
}

/// A string of at most `cap - 1` bytes with no zero byte reads back whole.
proof fn lemma_short_text(s: Seq<char>, cap: int)
    requires
        cap >= 1,
        encode_utf8(s).len() <= cap - 1,
        forall|j: int| 0 <= j < encode_utf8(s).len() ==> encode_utf8(s)[j] != 0,
    ensures
        padded(encode_utf8(s), cap).len() == cap,
        field_str(padded(encode_utf8(s), cap)) == s,
{
    broadcast use {encode_utf8_decode_utf8, encode_utf8_valid_utf8};

    assert(kept_prefix(encode_utf8(s), cap) =~= encode_utf8(s));
    lemma_padded_text(encode_utf8(s), cap);
}

/// After storing `v` under `k` in the table, looking `k` up gives `v`, for a key and a
/// value that fit their fields.
pub proof fn lemma_set_then_get(d: Seq<u8>, k: Seq<char>, v: Seq<char>)
    requires
        d.len() == TOKEN_METADATA_LEN,
        fits_field(k),
        fits_field(v),
        after_set(d, k, v) is Ok,
    ensures
        lookup(after_set(d, k, v)->Ok_0, k) == Some(v),
{
    let pk = padded(encode_utf8(k), 32);
    let pv = padded(encode_utf8(v), 32);
    lemma_short_text(k, 32);
    lemma_short_text(v, 32);
    match first_match(d, k) {
        Some(i) => {
            assert(is_first_match(d, k, i));
            let e = splice(d, value_off(i), pv);
            assert forall|j: int| 0 <= j < MAX_KV_PAIRS implies slot_key(e, j) == slot_key(d, j) by {
                lemma_splice_ranges(d, value_off(i), pv, key_off(j), 32);
            }
            lemma_splice_ranges(d, value_off(i), pv, 0, 0);
            assert forall|j: int| 0 <= j < i implies !#[trigger] key_matches(e, j, k) by {
                assert(!key_matches(d, j, k));
            }
            assert(key_matches(e, i, k));
            lemma_first_match_is(e, k, i);
        },
        None => {
            let i = first_empty(d)->Some_0;
            assert(is_first_empty(d, i));
            let d1 = splice(d, key_off(i), pk);
            let e = splice(d1, value_off(i), pv);
            lemma_splice_ranges(d, key_off(i), pk, 0, 0);
            lemma_splice_ranges(d1, value_off(i), pv, key_off(i), 32);
            assert forall|j: int| 0 <= j < i implies !#[trigger] key_matches(e, j, k) by {
                lemma_splice_ranges(d, key_off(i), pk, key_off(j), 32);
                lemma_splice_ranges(d1, value_off(i), pv, key_off(j), 32);
                if key_matches(d, j, k) {
                    lemma_least_match(d, k, j);
                }
            }
            assert(slot_key(e, i) == pk);
            assert(key_matches(e, i, k));
            lemma_first_match_is(e, k, i);
        },
    }
}

/// If some slot below `bound` holds `k`, there is a first such slot.
proof fn lemma_least_match(d: Seq<u8>, k: Seq<char>, bound: int)
    requires
        0 <= bound < MAX_KV_PAIRS,
        key_matches(d, bound, k),
    ensures
        exists|c: int| is_first_match(d, k, c),
    decreases bound,
{
    if forall|j: int| 0 <= j < bound ==> !#[trigger] key_matches(d, j, k) {
        assert(is_first_match(d, k, bound));
    } else {
        let j = choose|j: int| 0 <= j < bound && key_matches(d, j, k);
        lemma_least_match(d, k, j);
    }
}

/// After removing a nonempty key held by one slot only, looking it up gives nothing.
pub proof fn lemma_remove_then_get(d: Seq<u8>, k: Seq<char>)
    requires
        d.len() == TOKEN_METADATA_LEN,
        k.len() > 0,
        forall|i: int, j: int|
            0 <= i < j < MAX_KV_PAIRS && key_matches(d, i, k) ==> !key_matches(d, j, k),
    ensures
        lookup(after_remove(d, k), k) is None,
{
    match first_match(d, k) {
        Some(i) => {
            assert(is_first_match(d, k, i));
            let z = zero_bytes(32);
            let d1 = splice(d, key_off(i), z);
            let e = splice(d1, value_off(i), z);
            lemma_splice_ranges(d, key_off(i), z, 0, 0);
            lemma_splice_ranges(d1, value_off(i), z, key_off(i), 32);
            assert(is_text_end(z, 0));
            lemma_text_end(z, 0);
            assert(stored_text(z) =~= seq![]);
            assert(!key_matches(e, i, k));
            assert forall|j: int| 0 <= j < MAX_KV_PAIRS implies !#[trigger] key_matches(e, j, k) by {
                if j != i {
                    lemma_splice_ranges(d, key_off(i), z, key_off(j), 32);
                    lemma_splice_ranges(d1, value_off(i), z, key_off(j), 32);
                    assert(!key_matches(d, j, k));
                }
            }
            assert(!exists|c: int| is_first_match(e, k, c));
        },
        None => {
            assert(!exists|c: int| is_first_match(d, k, c));
        },
    }
}

/// Keys longer than a key field (over 32 bytes) are refused alike by every table
/// operation: storing fails with `InvalidArgument` and changes nothing, lookup finds
/// nothing and removal changes nothing.
pub proof fn lemma_long_key_refused(d: Seq<u8>, k: Seq<char>, v: Seq<char>)
    requires
        encode_utf8(k).len() > KV_KEY_LEN,
    ensures
        after_set(d, k, v) == Err::<Seq<u8>, ProgramError>(ProgramError::InvalidArgument),
        lookup(d, k) is None,
        after_remove(d, k) == d,
{
}

/// A stored key never reads as a text of more than 32 bytes, so no slot holds such a key:
/// refusing those keys changes no lookup.
pub proof fn lemma_long_key_unmatched(d: Seq<u8>, k: Seq<char>)
    requires
        d.len() == TOKEN_METADATA_LEN,
        encode_utf8(k).len() > KV_KEY_LEN,
    ensures
        first_match(d, k) is None,
{
    assert forall|j: int| 0 <= j < MAX_KV_PAIRS implies !#[trigger] key_matches(d, j, k) by {
        let f = slot_key(d, j);
        let st = stored_text(f);
        lemma_text_end_exists(f);
        assert(is_text_end(f, text_end(f)));
        if valid_utf8(st) {
            decode_utf8_encode_utf8(st);
        } else {
            assert(encode_utf8(seq![]) =~= seq![]);
        }
    }
    assert(!exists|c: int| is_first_match(d, k, c));
}

/// The record bytes after storing `vs[i]` under `ks[i]` for each `i` in turn, or the first
/// error.
pub open spec fn set_all(d: Seq<u8>, ks: Seq<Seq<char>>, vs: Seq<Seq<char>>) -> Result<Seq<u8>, ProgramError>
    decreases ks.len(),
{
    if ks.len() == 0 {
        Ok(d)
    } else {
        match set_all(d, ks.drop_last(), vs.drop_last()) {
            Ok(e) => after_set(e, ks.last(), vs.last()),
            Err(x) => Err(x),
        }
    }
}

/// Keys fit for the table and pairwise distinct, none of them empty.
pub open spec fn distinct_fitting_keys(ks: Seq<Seq<char>>) -> bool {
    &&& forall|i: int| 0 <= i < ks.len() ==> fits_field(#[trigger] ks[i]) && encode_utf8(ks[i]).len() > 0
    &&& forall|i: int, j: int| 0 <= i < j < ks.len() ==> ks[i] != ks[j]
}

/// An empty slot reads as the empty key.
proof fn lemma_empty_slot_key(d: Seq<u8>, j: int, k: Seq<char>)
    requires
        d.len() == TOKEN_METADATA_LEN,
        0 <= j < MAX_KV_PAIRS,
        slot_empty(d, j),
        encode_utf8(k).len() > 0,
    ensures
        !key_matches(d, j, k),
{
    let f = slot_key(d, j);
    assert(f[0] == 0);
    assert(is_text_end(f, 0));
    lemma_text_end(f, 0);
    assert(stored_text(f) =~= seq![]);
    assert(encode_utf8(Seq::<char>::empty()) =~= Seq::<u8>::empty());
}

/// After `n <= 32` distinct keys went into an empty table, the first `n` slots hold them in
/// order and the others are still empty.
proof fn lemma_fill_prefix(d: Seq<u8>, ks: Seq<Seq<char>>, vs: Seq<Seq<char>>, n: int)
    requires
        d.len() == TOKEN_METADATA_LEN,
        forall|j: int| 0 <= j < MAX_KV_PAIRS ==> #[trigger] slot_empty(d, j),
        distinct_fitting_keys(ks),
        0 <= n <= MAX_KV_PAIRS,
        n <= ks.len(),
        ks.len() == vs.len(),
    ensures
        set_all(d, ks.take(n), vs.take(n)) is Ok,
        set_all(d, ks.take(n), vs.take(n))->Ok_0.len() == TOKEN_METADATA_LEN,
        forall|j: int|
            #![trigger ks[j]]
            0 <= j < n ==> key_matches(set_all(d, ks.take(n), vs.take(n))->Ok_0, j, ks[j]) && !slot_empty(
                set_all(d, ks.take(n), vs.take(n))->Ok_0,
                j,
            ),
        forall|j: int| n <= j < MAX_KV_PAIRS ==> #[trigger] slot_empty(set_all(d, ks.take(n), vs.take(n))->Ok_0, j),
    decreases n,
{
    if n == 0 {
        assert(ks.take(0) =~= Seq::<Seq<char>>::empty());
    } else {
        let m = n - 1;
        lemma_fill_prefix(d, ks, vs, m);
        assert(ks.take(n).drop_last() =~= ks.take(m));
        assert(vs.take(n).drop_last() =~= vs.take(m));
        let e = set_all(d, ks.take(m), vs.take(m))->Ok_0;
        let k = ks[m];
        assert(fits_field(k) && encode_utf8(k).len() > 0);
        assert forall|j: int| 0 <= j < MAX_KV_PAIRS implies !#[trigger] key_matches(e, j, k) by {
            if j < m {
                assert(key_matches(e, j, ks[j]));
                assert(ks[j] != k);
            } else {
                lemma_empty_slot_key(e, j, k);
            }
        }
        assert(!exists|c: int| is_first_match(e, k, c));
        assert forall|j: int| 0 <= j < m implies !#[trigger] slot_empty(e, j) by {
            assert(key_matches(e, j, ks[j]));
            assert(!slot_empty(e, j));
        }
        assert(slot_empty(e, m));
        assert(is_first_empty(e, m));
        lemma_first_empty_is(e, m);
        let pk = padded(encode_utf8(k), 32);
        let pv = padded(encode_utf8(vs[m]), 32);
        lemma_short_text(k, 32);
        let e1 = splice(e, key_off(m), pk);
        let e2 = splice(e1, value_off(m), pv);
        assert(set_all(d, ks.take(n), vs.take(n)) == Ok::<Seq<u8>, ProgramError>(e2));
        lemma_splice_ranges(e, key_off(m), pk, 0, 0);
        lemma_splice_ranges(e1, value_off(m), padded(encode_utf8(vs[m]), 32), key_off(m), 32);
        assert(slot_key(e2, m) == pk);
        assert(encode_utf8(k)[0] != 0);
        assert(pk[0] == encode_utf8(k)[0]);
        assert(e2[key_off(m)] == slot_key(e2, m)[0]);
        assert(key_matches(e2, m, k));
        assert(!slot_empty(e2, m));
        assert forall|j: int| 0 <= j < MAX_KV_PAIRS && j != m implies slot_key(e2, j) == slot_key(e, j)
            && e2[key_off(j)] == e[key_off(j)] by {
            lemma_splice_ranges(e, key_off(m), pk, key_off(j), 32);
            lemma_splice_ranges(e1, value_off(m), pv, key_off(j), 32);
            assert(e2[key_off(j)] == slot_key(e2, j)[0]);
            assert(e[key_off(j)] == slot_key(e, j)[0]);
        }
        assert forall|j: int| 0 <= j < n implies key_matches(e2, j, ks[j]) && !slot_empty(e2, j) by {
            if j < m {
                assert(key_matches(e, j, ks[j]) && !slot_empty(e, j));
                assert(slot_key(e2, j) == slot_key(e, j));
            }
        }
        assert forall|j: int| n <= j < MAX_KV_PAIRS implies #[trigger] slot_empty(e2, j) by {
            assert(slot_empty(e, j));
        }
    }
}

/// Storing 33 distinct keys, each with any value, one after another, in a table whose 32
/// slots start empty: the first 32 succeed and the 33rd fails with `AccountDataTooSmall`.
pub proof fn lemma_table_capacity(d: Seq<u8>, ks: Seq<Seq<char>>, vs: Seq<Seq<char>>)
    requires
        d.len() == TOKEN_METADATA_LEN,
        forall|j: int| 0 <= j < MAX_KV_PAIRS ==> #[trigger] slot_empty(d, j),
        ks.len() == MAX_KV_PAIRS + 1,
        vs.len() == ks.len(),
        distinct_fitting_keys(ks),
    ensures
        forall|n: int| 0 <= n <= MAX_KV_PAIRS ==> #[trigger] set_all(d, ks.take(n), vs.take(n)) is Ok,
        set_all(d, ks, vs) == Err::<Seq<u8>, ProgramError>(ProgramError::AccountDataTooSmall),
{
    assert forall|n: int| 0 <= n <= MAX_KV_PAIRS implies #[trigger] set_all(d, ks.take(n), vs.take(n)) is Ok by {
        lemma_fill_prefix(d, ks, vs, n);
    }
    lemma_fill_prefix(d, ks, vs, MAX_KV_PAIRS as int);
    let e = set_all(d, ks.take(32), vs.take(32))->Ok_0;
    let k = ks[32];
    assert(ks.drop_last() =~= ks.take(32));
    assert(vs.drop_last() =~= vs.take(32));
    assert(fits_field(k) && encode_utf8(k).len() > 0);
    assert forall|j: int| 0 <= j < MAX_KV_PAIRS implies !#[trigger] key_matches(e, j, k) by {
        assert(key_matches(e, j, ks[j]));
        assert(ks[j] != k);
    }
    assert(!exists|c: int| is_first_match(e, k, c));
    assert forall|j: int| 0 <= j < MAX_KV_PAIRS implies !#[trigger] slot_empty(e, j) by {
        assert(key_matches(e, j, ks[j]));
    }
    assert(!exists|c: int| is_first_empty(e, c));
}

/// Every field has a text end.
proof fn lemma_text_end_exists(s: Seq<u8>)
    ensures
        exists|k: int| is_text_end(s, k),
{
    if forall|j: int| 0 <= j < s.len() ==> s[j] != 0 {
        assert(is_text_end(s, s.len() as int));
    } else {
        let j = choose|j: int| 0 <= j < s.len() && s[j] == 0;
        lemma_first_zero(s, j);
    }
}

proof fn lemma_first_zero(s: Seq<u8>, bound: int)
    requires
        0 <= bound < s.len(),
        s[bound] == 0,
    ensures
        exists|k: int| is_text_end(s, k),
    decreases bound,
{
    if forall|j: int| 0 <= j < bound ==> s[j] != 0 {
        assert(is_text_end(s, bound));
    } else {
        let j = choose|j: int| 0 <= j < bound && s[j] == 0;
        lemma_first_zero(s, j);
    }
}

} // verus!
