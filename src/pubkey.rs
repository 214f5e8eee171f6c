//! 32-byte account addresses and their raw encoding.

use vstd::prelude::*;

verus! {

/// Length in bytes of an address.
pub const PUBKEY_BYTES: usize = 32;

/// The address of an account: 32 opaque bytes.
pub type Pubkey = [u8; 32];

/// The array whose elements are `s` (meaningful when `s` has `N` bytes).
pub open spec fn array_of<const N: usize>(s: Seq<u8>) -> [u8; N] {
    choose|a: [u8; N]| a@ == s
}

/// The address whose bytes are `s` (meaningful when `s` has 32 bytes).
pub open spec fn pubkey_of(s: Seq<u8>) -> Pubkey {
    array_of::<32>(s)
}

/// An array is determined by its elements.
pub proof fn lemma_array_of_view<const N: usize>(a: [u8; N])
    ensures
        array_of::<N>(a@) == a,
{
    let b = array_of::<N>(a@);
    assert(b@ == a@);
    assert(b == a);
}

/// An address is determined by its bytes.
pub proof fn lemma_pubkey_of_view(a: Pubkey)
    ensures
        pubkey_of(a@) == a,
{
    lemma_array_of_view::<32>(a);
}

/// Copies `N` bytes into an array.
pub fn copy_array<const N: usize>(bytes: &[u8]) -> (r: [u8; N])
    requires
        bytes@.len() == N,
    ensures
        r@ == bytes@,
        r == array_of::<N>(bytes@),
{
    let mut array: [u8; N] = [0u8; N];
    let mut i: usize = 0;
    while i < N
        invariant
            0 <= i <= N,
            bytes@.len() == N,
            array@.len() == N,
            forall|j: int| 0 <= j < i ==> array@[j] == bytes@[j],
        decreases N - i,
    {
        array[i] = bytes[i];
        i += 1;
    }
    assert(array@ =~= bytes@);
    proof {
        lemma_array_of_view::<N>(array);
    }
    array
}

/// Copies 32 bytes into an address.
pub fn copy_pubkey(bytes: &[u8]) -> (r: Pubkey)
    requires
        bytes@.len() == 32,
    ensures
        r@ == bytes@,
        r == pubkey_of(bytes@),
{
    copy_array::<32>(bytes)
}

/// The address held by `bytes`, or `None` when `bytes` is not 32 bytes long.
pub fn bytes_to_pubkey(bytes: &[u8]) -> (r: Option<Pubkey>)
    ensures
        r is Some <==> bytes@.len() == 32,
        r is Some ==> r->Some_0@ == bytes@,
{
    if bytes.len() != 32 {
        return None;
    }
    Some(copy_pubkey(bytes))
}

/// The raw bytes of an address.
pub fn pubkey_to_bytes(pubkey: &Pubkey) -> (r: [u8; 32])
    ensures
        r@ == pubkey@,
{
    *pubkey
}

/// Appends `bytes` to `buffer`.
pub fn append_bytes(buffer: &mut Vec<u8>, bytes: &[u8])
    ensures
        final(buffer)@ == old(buffer)@ + bytes@,
{
    let mut i: usize = 0;
    while i < bytes.len()
        invariant
            0 <= i <= bytes@.len(),
            buffer@ == old(buffer)@ + bytes@.subrange(0, i as int),
        decreases bytes@.len() - i,
    {
        buffer.push(bytes[i]);
        assert(bytes@.subrange(0, i + 1) =~= bytes@.subrange(0, i as int).push(bytes@[i as int]));
        i += 1;
    }
    assert(bytes@.subrange(0, bytes@.len() as int) =~= bytes@);
}

/// Appends the 32 bytes of an address to `buffer`.
pub fn serialize_pubkey(pubkey: &Pubkey, buffer: &mut Vec<u8>)
    ensures
        final(buffer)@ == old(buffer)@ + pubkey@,
{
    append_bytes(buffer, pubkey.as_slice());
}

/// Reads an address from a slice of exactly 32 bytes.
pub fn deserialize_pubkey(data: &[u8]) -> (r: Result<Pubkey, &'static str>)
    ensures
        r is Ok <==> data@.len() == 32,
        r is Ok ==> r->Ok_0@ == data@,
{
    if data.len() != 32 {
        return Err("Invalid Pubkey length");
    }
    Ok(copy_pubkey(data))
}

} // verus!
