//! Content digests and the storage keys derived from them.

use sha2::Digest;
use vstd::prelude::*;

verus! {

/// Number of bytes in a content digest.
pub const DIGEST_LEN: usize = 32;

/// The SHA-256 digest of `data`, as computed by the `sha2` crate.
pub uninterp spec fn sha256_digest(data: Seq<u8>) -> Seq<u8>;

/// The upper-case hexadecimal digit that stands for `n`, for `0 <= n < 16`.
pub open spec fn upper_hex_digit(n: int) -> char {
    seq!['0', '1', '2', '3', '4', '5', '6', '7', '8', '9', 'A', 'B', 'C', 'D', 'E', 'F'][n]
}

/// The upper-case hexadecimal rendering of `data`: two digits per byte, the
/// high half of each byte first.
pub open spec fn hex_upper(data: Seq<u8>) -> Seq<char> {
    Seq::new(
        2 * data.len(),
        |i: int|
            if i % 2 == 0 {
                upper_hex_digit(data[i / 2] as int / 16)
            } else {
                upper_hex_digit(data[i / 2] as int % 16)
            },
    )
}

/// The key under which the blob `bytes` is stored.
pub open spec fn key_of(bytes: Seq<u8>) -> Seq<char> {
    hex_upper(sha256_digest(bytes))
}

/// Runs `sha2::Sha256` (`new`, `update`, `finalize`) over `data`.
///
/// Trusted: the result is the SHA-256 digest of exactly these bytes, a
/// function of the bytes alone, and it is 32 bytes long (the hasher's fixed
/// output size).
#[verifier::external_body]
fn sha256_raw(data: &[u8]) -> (digest: Vec<u8>)
    ensures
        digest@ == sha256_digest(data@),
        digest@.len() == DIGEST_LEN,
{
    let mut sha = sha2::Sha256::new();
    sha.update(data);
    sha.finalize().to_vec()
}

/// Calls `hex::encode_upper` on `data`.
///
/// Trusted: every byte becomes two characters out of `0123456789ABCDEF`,
/// first the one for its high four bits, then the one for its low four bits,
/// in the order of the bytes.
#[verifier::external_body]
fn hex_encode_upper(data: &[u8]) -> (text: String)
    ensures
        text@ == hex_upper(data@),
{
    hex::encode_upper(data)
}

/// The digest that identifies a blob: SHA-256 over exactly the bytes given.
pub fn sha256(data: &[u8]) -> (digest: Vec<u8>)
    ensures
        digest@ == sha256_digest(data@),
        digest@.len() == DIGEST_LEN,
{
    sha256_raw(data)
}

/// The name under which a digest is shown and stored: its upper-case
/// hexadecimal form, twice as long as the digest.
pub fn storage_key(digest: &[u8]) -> (key: String)
    ensures
        key@ == hex_upper(digest@),
        key@.len() == 2 * digest@.len(),
{
    hex_encode_upper(digest)
}

/// Distinct digit values have distinct digits.
pub proof fn lemma_hex_digit_injective(m: int, n: int)
    requires
        0 <= m < 16,
        0 <= n < 16,
        upper_hex_digit(m) == upper_hex_digit(n),
    ensures
        m == n,
{
}

/// Two byte strings with the same hexadecimal rendering are the same byte
/// string, so a storage key names one digest only.
pub proof fn lemma_hex_upper_injective(a: Seq<u8>, b: Seq<u8>)
    requires
        hex_upper(a) == hex_upper(b),
    ensures
        a == b,
{
    assert(hex_upper(a).len() == 2 * a.len());
    assert(hex_upper(b).len() == 2 * b.len());
    assert(a.len() == b.len());
    assert forall|k: int| 0 <= k < a.len() implies a[k] == b[k] by {
        let hi = 2 * k;
        let lo = 2 * k + 1;
        assert(hi / 2 == k && hi % 2 == 0);
        assert(lo / 2 == k && lo % 2 == 1);
        assert(hex_upper(a)[hi] == upper_hex_digit(a[k] as int / 16));
        assert(hex_upper(b)[hi] == upper_hex_digit(b[k] as int / 16));
        assert(hex_upper(a)[lo] == upper_hex_digit(a[k] as int % 16));
        assert(hex_upper(b)[lo] == upper_hex_digit(b[k] as int % 16));
        lemma_hex_digit_injective(a[k] as int / 16, b[k] as int / 16);
        lemma_hex_digit_injective(a[k] as int % 16, b[k] as int % 16);
    }
    assert(a =~= b);
}

/// Hashing the same bytes twice gives the same digest and the same key.
pub proof fn lemma_key_deterministic(first: Seq<u8>, second: Seq<u8>)
    requires
        first == second,
    ensures
        sha256_digest(first) == sha256_digest(second),
        key_of(first) == key_of(second),
{
}

} // verus!
