//! Content digests: SHA-256 over bytes, written as lower-case hexadecimal.

use vstd::prelude::*;
use vstd::string::StringSliceAdditionalSpecFns;
use sha2::Digest as Sha2Digest;
use sha2::Sha256;

verus! {

/// The SHA-256 digest of a byte string, as the `sha2` crate computes it.
pub uninterp spec fn sha256(data: Seq<u8>) -> Seq<u8>;

/// The character that stands for a value from 0 to 15 in lower-case
/// hexadecimal.
pub open spec fn hex_digit(n: int) -> char {
    if n < 10 {
        (0x30 + n) as char
    } else {
        (0x61 + n - 10) as char
    }
}

/// The lower-case hexadecimal notation of a byte string: two digits for each
/// byte, the high half first.
pub open spec fn hex_text(data: Seq<u8>) -> Seq<char> {
    Seq::new(
        2 * data.len(),
        |i: int|
            hex_digit(
                if i % 2 == 0 {
                    data[i / 2] as int / 16
                } else {
                    data[i / 2] as int % 16
                },
            ),
    )
}

/// The bytes that the digest of an entry is taken over: the bytes of its
/// line, then the bytes of the digest text of its file.
pub open spec fn entry_preimage(line: Seq<u8>, file_sha: Seq<u8>) -> Seq<u8> {
    line + file_sha
}

/// `Sha256::digest` of the `sha2` crate: the result is the SHA-256 digest of
/// `data`, which is 32 bytes long and depends on nothing but `data`.
#[verifier::external_body]
fn sha256_digest(data: &[u8]) -> (out: Vec<u8>)
    ensures
        out@ == sha256(data@),
        out@.len() == 32,
{
    Sha256::digest(data).to_vec()
}

/// `hex::encode`: each byte becomes two lower-case hexadecimal digits, in
/// order.
#[verifier::external_body]
fn hex_encode(data: &[u8]) -> (text: String)
    ensures
        text@ == hex_text(data@),
{
    hex::encode(data)
}

/// A way to take the digest of a file and of an entry within a file.
pub trait Digest {
    /// The digest text that this hasher assigns to a byte string.
    spec fn digest_text(&self, input: Seq<u8>) -> Seq<char>;

    /// The digest of `input`.
    fn hash_bytes(&self, input: &[u8]) -> (digest: String)
        ensures
            digest@ == self.digest_text(input@),
    ;

    /// The digest of an entry: that of the bytes of `line` followed by the
    /// bytes of `file_sha`, so that the same line in two files has two
    /// preimages.
    fn hash_entry(&self, line: &[u8], file_sha: &str) -> (digest: String)
        ensures
            digest@ == self.digest_text(entry_preimage(line@, file_sha.spec_bytes())),
    ;
}

/// SHA-256, written as 64 lower-case hexadecimal digits.
pub struct Sha256Digest;

impl Digest for Sha256Digest {
    open spec fn digest_text(&self, input: Seq<u8>) -> Seq<char> {
        hex_text(sha256(input))
    }

    fn hash_bytes(&self, input: &[u8]) -> (digest: String)
        ensures
            digest@.len() == 64,
    {
        let raw = sha256_digest(input);
        hex_encode(raw.as_slice())
    }

    fn hash_entry(&self, line: &[u8], file_sha: &str) -> (digest: String) {
        let tail = file_sha.as_bytes();
        let mut buffer: Vec<u8> = Vec::new();
        let mut i: usize = 0;
        while i < line.len()
            invariant
                i <= line@.len(),
                buffer@ == line@.take(i as int),
            decreases line.len() - i,
        {
            buffer.push(line[i]);
            i += 1;
        }
        assert(line@.take(line@.len() as int) == line@);
        let mut j: usize = 0;
        while j < tail.len()
            invariant
                j <= tail@.len(),
                buffer@ == line@ + tail@.take(j as int),
            decreases tail.len() - j,
        {
            buffer.push(tail[j]);
            j += 1;
        }
        assert(tail@.take(tail@.len() as int) == tail@);
        self.hash_bytes(buffer.as_slice())
    }
}

/// The preimage of an entry's digest tells files apart: with the same line,
/// two different file digests give two different preimages.
pub proof fn lemma_entry_preimage_scoped(line: Seq<u8>, file_a: Seq<u8>, file_b: Seq<u8>)
    requires
        file_a != file_b,
    ensures
        entry_preimage(line, file_a) != entry_preimage(line, file_b),
{
    if entry_preimage(line, file_a) == entry_preimage(line, file_b) {
        let a = entry_preimage(line, file_a);
        let b = entry_preimage(line, file_b);
        assert(a.len() == b.len());
        assert(file_a.len() == file_b.len());
        assert forall|i: int| 0 <= i < file_a.len() implies file_a[i] == file_b[i] by {
            assert(a[line.len() + i] == file_a[i]);
            assert(b[line.len() + i] == file_b[i]);
        }
        assert(file_a =~= file_b);
    }
}

} // verus!
