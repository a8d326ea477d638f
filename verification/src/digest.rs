//! SHA-256 identities rendered as lowercase hexadecimal text.

use crate::text::{hex, hex_string};
use sha2::Digest;
use vstd::prelude::*;

verus! {

/// The SHA-256 digest of `data`, as the sha2 crate computes it.
pub uninterp spec fn sha256(data: Seq<u8>) -> Seq<u8>;

/// Computes the SHA-256 digest of `data` with `sha2::Sha256::digest`.
///
/// Trusted: the result is the sha2 digest of exactly `data`, 32 bytes long.
#[verifier::external_body]
fn sha256_bytes(data: &[u8]) -> (r: Vec<u8>)
    ensures
        r@ == sha256(data@),
        r@.len() == 32,
{
    sha2::Sha256::digest(data).to_vec()
}

/// The hexadecimal identity of `bytes` under domain separator `domain`.
pub open spec fn domain_digest(domain: Seq<u8>, bytes: Seq<u8>) -> Seq<char> {
    hex(sha256(domain + bytes))
}

/// Hexadecimal text is two characters per byte.
pub proof fn lemma_hex_len(bytes: Seq<u8>)
    ensures
        hex(bytes).len() == 2 * bytes.len(),
    decreases bytes.len(),
{
    if bytes.len() > 0 {
        lemma_hex_len(bytes.drop_last());
    }
}

/// Hashes `domain` followed by `bytes` and renders the digest in hexadecimal.
pub fn digest_text(domain: &[u8], bytes: &[u8]) -> (r: String)
    ensures
        r@ == domain_digest(domain@, bytes@),
        r@.len() == 64,
{
    let mut data: Vec<u8> = Vec::new();
    let mut i: usize = 0;
    while i < domain.len()
        invariant
            i <= domain@.len(),
            data@ == domain@.take(i as int),
        decreases domain.len() - i,
    {
        data.push(domain[i]);
        proof {
            assert(domain@.take(i + 1) =~= domain@.take(i as int).push(domain@[i as int]));
        }
        i = i + 1;
    }
    let mut j: usize = 0;
    while j < bytes.len()
        invariant
            j <= bytes@.len(),
            data@ == domain@ + bytes@.take(j as int),
        decreases bytes.len() - j,
    {
        data.push(bytes[j]);
        proof {
            assert(bytes@.take(j + 1) =~= bytes@.take(j as int).push(bytes@[j as int]));
            assert(domain@ + bytes@.take(j + 1) =~= (domain@ + bytes@.take(j as int)).push(bytes@[j as int]));
        }
        j = j + 1;
    }
    proof {
        assert(domain@.take(domain@.len() as int) =~= domain@);
        assert(bytes@.take(bytes@.len() as int) =~= bytes@);
        assert(data@ =~= domain@ + bytes@);
    }
    let d = sha256_bytes(data.as_slice());
    let text = hex_string(d.as_slice());
    proof {
        lemma_hex_len(d@);
    }
    text
}

/// Computes the lowercase hexadecimal SHA-256 content hash of canonical
/// program bytes.
pub fn content_hash(canonical: &[u8]) -> (r: String)
    ensures
        r@ == hex(sha256(canonical@)),
        r@.len() == 64,
{
    let empty: [u8; 0] = [];
    let r = digest_text(empty.as_slice(), canonical);
    proof {
        assert(empty@ + canonical@ =~= canonical@);
    }
    r
}

} // verus!
