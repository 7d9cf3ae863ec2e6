//! Derivation of the 32-byte storage key of a (tracking id, lot id) pair.
use vstd::prelude::*;

verus! {

/// The bytes that open every key input: the ASCII word `ledger`,
/// which keeps this key space apart from any other hashed with the same function.
pub open spec fn key_tag() -> Seq<u8> {
    seq![108u8, 101u8, 100u8, 103u8, 101u8, 114u8]
}

/// The UTF-8 bytes of a text.
pub open spec fn text_bytes(s: Seq<char>) -> Seq<u8> {
    vstd::utf8::encode_utf8(s)
}

/// What is hashed for a pair: the tag, then the bytes of both ids.
pub open spec fn key_input(tracking_id: Seq<char>, lot_id: Seq<char>) -> Seq<u8> {
    key_tag() + text_bytes(tracking_id) + text_bytes(lot_id)
}

/// The BLAKE2b digest with 256-bit output of a byte sequence.
pub uninterp spec fn blake2x256_of(input: Seq<u8>) -> Seq<u8>;

/// The key under which the record of a pair is filed.
pub open spec fn derive_key(tracking_id: Seq<char>, lot_id: Seq<char>) -> Seq<u8> {
    blake2x256_of(key_input(tracking_id, lot_id))
}

/// Relies on `ink::env::hash_bytes::<Blake2x256>`: it writes the BLAKE2b-256
/// digest of the input into the 32-byte output, and depends on the input alone.
#[verifier::external_body]
fn blake2x256(input: &[u8]) -> (r: [u8; 32])
    ensures
        r@ == blake2x256_of(input@),
{
    let mut output = [0u8; 32];
    ink::env::hash_bytes::<ink::env::hash::Blake2x256>(input, &mut output);
    output
}

/// Derives the storage key of a pair.
pub fn make_key(tracking_id: &str, lot_id: &str) -> (r: [u8; 32])
    ensures
        r@ == derive_key(tracking_id@, lot_id@),
{
    let mut input: Vec<u8> = vec![108u8, 101u8, 100u8, 103u8, 101u8, 114u8];
    input.extend_from_slice(tracking_id.as_bytes());
    input.extend_from_slice(lot_id.as_bytes());
    assert(input@ =~= key_input(tracking_id@, lot_id@));
    blake2x256(input.as_slice())
}

/// Whether two keys hold the same bytes.
pub fn same_key(a: &[u8; 32], b: &[u8; 32]) -> (r: bool)
    ensures
        r == (a@ == b@),
{
    let mut i: usize = 0;
    while i < 32
        invariant
            i <= 32,
            a@.len() == 32,
            b@.len() == 32,
            forall|j: int| 0 <= j < i ==> a@[j] == b@[j],
        decreases 32 - i,
    {
        if a[i] != b[i] {
            return false;
        }
        i = i + 1;
    }
    assert(a@ =~= b@);
    true
}

} // verus!
