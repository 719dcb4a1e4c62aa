//! Validation of a byte stream against its declared digests.
//!
//! A release document declares, for every file, a weak legacy digest (MD5)
//! and a strong digest (SHA-256). Verification always checks both; the
//! strong digest alone is the file's identity.

use vstd::prelude::*;
use vstd::slice::slice_to_vec;

use sha2::Digest;

use crate::Hashes;

verus! {

/// The MD5 digest of a byte sequence, as the md5 crate computes it.
pub uninterp spec fn md5_of(data: Seq<u8>) -> Seq<u8>;

/// The SHA-256 digest of a byte sequence, as the sha2 crate computes it.
pub uninterp spec fn sha256_of(data: Seq<u8>) -> Seq<u8>;

/// Relies on md5::compute: the digest is sixteen bytes and depends on the
/// input bytes alone.
#[verifier::external_body]
fn md5_digest(data: &[u8]) -> (r: [u8; 16])
    ensures
        r@ == md5_of(data@),
{
    md5::compute(data).0
}

/// Relies on sha2::Sha256::digest: the digest is thirty-two bytes and
/// depends on the input bytes alone.
#[verifier::external_body]
fn sha256_digest(data: &[u8]) -> (r: [u8; 32])
    ensures
        r@ == sha256_of(data@),
{
    let out: [u8; 32] = sha2::Sha256::digest(data).into();
    out
}

/// The lowercase hexadecimal digit for a nibble.
pub open spec fn hex_digit(n: u8) -> char
    recommends
        n < 16,
{
    if n < 10 {
        ((n + 48) as u8) as char
    } else {
        ((n + 87) as u8) as char
    }
}

/// The lowercase hexadecimal encoding of a byte sequence: two digits per
/// byte, high nibble first.
pub open spec fn hex_of(data: Seq<u8>) -> Seq<char>
    decreases data.len(),
{
    if data.len() == 0 {
        Seq::empty()
    } else {
        seq![hex_digit(data[0] / 16), hex_digit(data[0] % 16)] + hex_of(data.drop_first())
    }
}

/// Relies on hex::encode: two lowercase hexadecimal digits for each input
/// byte, in input order, high nibble first.
#[verifier::external_body]
pub(crate) fn hex_encode(data: &[u8]) -> (r: String)
    ensures
        r@ == hex_of(data@),
{
    hex::encode(data)
}

/// Whether two byte slices hold the same bytes.
pub fn bytes_eq(a: &[u8], b: &[u8]) -> (r: bool)
    ensures
        r == (a@ == b@),
{
    if a.len() != b.len() {
        assert(a@.len() != b@.len());
        return false;
    }
    let n = a.len();
    let mut i: usize = 0;
    while i < n
        invariant
            n == a@.len() == b@.len(),
            0 <= i <= n,
            forall|k: int| 0 <= k < i ==> a@[k] == b@[k],
        decreases n - i,
    {
        if a[i] != b[i] {
            return false;
        }
        i = i + 1;
    }
    assert(a@ =~= b@);
    true
}

/// The digest algorithms a mismatch can name.
#[derive(Clone, Copy, Debug, PartialEq, Eq, Structural)]
pub enum ChecksumAlgorithm {
    Md5,
    Sha256,
}

/// A failed validation: which digest disagreed, what the release document
/// declared, and what the bytes actually hash to.
#[derive(Clone, Debug)]
pub struct ChecksumMismatch {
    pub algorithm: ChecksumAlgorithm,
    pub expected: Vec<u8>,
    pub actual: Vec<u8>,
}

/// Whether a byte sequence hashes to exactly the declared digest pair.
pub open spec fn hashes_match(data: Seq<u8>, expected: Hashes) -> bool {
    md5_of(data) == expected.md5@ && sha256_of(data) == expected.sha256@
}

/// What a reported mismatch holds: the first algorithm (MD5, then SHA-256)
/// whose digest disagrees, with the declared and the actual value.
pub open spec fn mismatch_describes(data: Seq<u8>, expected: Hashes, m: ChecksumMismatch) -> bool {
    if md5_of(data) != expected.md5@ {
        m.algorithm == ChecksumAlgorithm::Md5 && m.expected@ == expected.md5@ && m.actual@
            == md5_of(data)
    } else {
        m.algorithm == ChecksumAlgorithm::Sha256 && m.expected@ == expected.sha256@ && m.actual@
            == sha256_of(data)
    }
}

/// Checks the bytes against both declared digests. Success means both the
/// weak and the strong digest agree; a mismatch names the first algorithm
/// (MD5, then SHA-256) whose digest disagrees, with the declared and the
/// actual value.
pub fn validate(data: &[u8], expected: &Hashes) -> (r: Result<(), ChecksumMismatch>)
    ensures
        r is Ok <==> hashes_match(data@, *expected),
        r matches Err(m) ==> mismatch_describes(data@, *expected, m),
{
    let md5_actual = md5_digest(data);
    if !bytes_eq(md5_actual.as_slice(), expected.md5.as_slice()) {
        return Err(ChecksumMismatch {
            algorithm: ChecksumAlgorithm::Md5,
            expected: slice_to_vec(expected.md5.as_slice()),
            actual: slice_to_vec(md5_actual.as_slice()),
        });
    }
    let sha256_actual = sha256_digest(data);
    if !bytes_eq(sha256_actual.as_slice(), expected.sha256.as_slice()) {
        return Err(ChecksumMismatch {
            algorithm: ChecksumAlgorithm::Sha256,
            expected: slice_to_vec(expected.sha256.as_slice()),
            actual: slice_to_vec(sha256_actual.as_slice()),
        });
    }
    Ok(())
}

} // verus!
