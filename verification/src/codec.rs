//! Secret codec: derives a salted hash from a plaintext secret and checks a
//! candidate plaintext against a stored hash.
//!
//! A stored secret never holds the plaintext; it holds a fresh 32-byte random
//! salt and the SHA-256 digest of the plaintext followed by the salt.

use vstd::prelude::*;

verus! {

/// Stands for the SHA-256 digest of the UTF-8 bytes of `plain` followed by
/// the bytes of `salt`. The digest is a function of those two values alone,
/// the same in every process and on every machine.
pub uninterp spec fn sha256_pair(plain: Seq<char>, salt: Seq<u8>) -> Seq<u8>;

/// Relies on sha2's `Sha256` through the `Digest` trait: feeding it the
/// plaintext's UTF-8 bytes and then the salt yields the SHA-256 digest of
/// their concatenation, which is 32 bytes long and depends on the two
/// inputs alone.
#[verifier::external_body]
fn sha256_of_secret(plain: &str, salt: &[u8]) -> (r: Vec<u8>)
    ensures
        r@ == sha256_pair(plain@, salt@),
        r@.len() == 32,
{
    let mut hasher = <sha2::Sha256 as sha2::Digest>::new();
    sha2::Digest::update(&mut hasher, plain.as_bytes());
    sha2::Digest::update(&mut hasher, salt);
    sha2::Digest::finalize(hasher).to_vec()
}

#[verifier::external_type_specification]
#[verifier::external_body]
pub struct ExStdRng(rand::rngs::StdRng);

/// Relies on rand's `Rng::fill_bytes` for `StdRng`: it fills the buffer
/// entirely with bytes drawn from the generator. Nothing is assumed about
/// the values drawn; every outcome is 32 bytes long.
#[verifier::external_body]
fn draw_salt(rng: &mut rand::rngs::StdRng) -> (r: Vec<u8>)
    ensures
        r@.len() == 32,
{
    let mut buf = [0u8; 32];
    <rand::rngs::StdRng as rand::Rng>::fill_bytes(rng, &mut buf);
    buf.to_vec()
}

/// The salted-hash representation of a credential.
pub struct Secret {
    pub hash: Vec<u8>,
    pub salt: Vec<u8>,
}

impl Secret {
    /// A well-formed secret holds a 32-byte digest and a 32-byte salt.
    pub open spec fn wf(self) -> bool {
        self.hash@.len() == 32 && self.salt@.len() == 32
    }

    /// The secret is exactly the salted hash of `plain`: what [`Secret::encode`]
    /// establishes.
    pub open spec fn is_encoding_of(self, plain: Seq<char>) -> bool {
        self.hash@ == sha256_pair(plain, self.salt@)
    }

    /// The salted hash recomputed from `candidate` under this secret's own
    /// salt equals the stored hash: what [`Secret::contains`] reports.
    pub open spec fn verifies(self, candidate: Seq<char>) -> bool {
        sha256_pair(candidate, self.salt@) == self.hash@
    }

    /// Draws a fresh 32-byte salt from `rng` and stores the SHA-256 hash of
    /// the plaintext followed by that salt. For every plaintext, the
    /// returned secret verifies against that same plaintext (and `contains`
    /// reports exactly that).
    pub fn encode(rng: &mut rand::rngs::StdRng, secret: &str) -> (r: Secret)
        ensures
            r.wf(),
            r.is_encoding_of(secret@),
    {
        let salt = draw_salt(rng);
        let hash = sha256_of_secret(secret, salt.as_slice());
        Secret { hash, salt }
    }

    /// Recomputes the salted hash of `secret` and compares it byte for byte
    /// with the stored hash: true exactly when this secret is the encoding
    /// of `secret` under its own salt.
    pub fn contains(&self, secret: &str) -> (r: bool)
        ensures
            r == self.verifies(secret@),
    {
        let recomputed = sha256_of_secret(secret, self.salt.as_slice());
        bytes_eq(self.hash.as_slice(), recomputed.as_slice())
    }
}

/// A secret encoded from a plaintext verifies against that same
/// plaintext: encoding stores the salted hash of the plaintext, and
/// verification recomputes exactly that hash under the stored salt.
pub proof fn lemma_encode_verifies(s: Secret, plain: Seq<char>)
    requires
        s.is_encoding_of(plain),
    ensures
        s.verifies(plain),
{
}

/// A secret encoded from one plaintext rejects any other plaintext whose
/// salted hash differs under the stored salt. (Two plaintexts whose
/// salted hashes coincide under that salt — a digest collision — are the
/// one case left out.)
pub proof fn lemma_verify_rejects_mismatch(s: Secret, plain: Seq<char>, candidate: Seq<char>)
    requires
        s.is_encoding_of(plain),
        sha256_pair(candidate, s.salt@) != sha256_pair(plain, s.salt@),
    ensures
        !s.verifies(candidate),
{
}

/// Byte-exact comparison of two byte strings.
fn bytes_eq(a: &[u8], b: &[u8]) -> (r: bool)
    ensures
        r == (a@ == b@),
{
    if a.len() != b.len() {
        assert(a@ != b@) by {
            assert(a@.len() != b@.len());
        }
        return false;
    }
    let n = a.len();
    let mut i: usize = 0;
    while i < n
        invariant
            n == a@.len() == b@.len(),
            i <= n,
            forall|k: int| 0 <= k < i ==> a@[k] == b@[k],
        decreases n - i,
    {
        if a[i] != b[i] {
            assert(a@ != b@);
            return false;
        }
        i += 1;
    }
    assert(a@ =~= b@);
    true
}

} // verus!
