use vstd::prelude::*;

verus! {

/// The names of the digest algorithms this crate can label a hash with.
#[derive(Copy, Clone, Debug)]
pub enum Algorithm {
    SHA1,
    SHA256,
    SHA384,
    SHA512,
    SHA512_256,
}

impl Algorithm {
    /// The conventional name of the algorithm.
    pub fn label(&self) -> (r: &'static str)
        ensures
            self is SHA1 ==> r@ == "SHA1"@,
            self is SHA256 ==> r@ == "SHA256"@,
            self is SHA384 ==> r@ == "SHA384"@,
            self is SHA512 ==> r@ == "SHA512"@,
            self is SHA512_256 ==> r@ == "SHA512_256"@,
    {
        match self {
            Algorithm::SHA1 => "SHA1",
            Algorithm::SHA256 => "SHA256",
            Algorithm::SHA384 => "SHA384",
            Algorithm::SHA512 => "SHA512",
            Algorithm::SHA512_256 => "SHA512_256",
        }
    }
}

/// A hash value labelled with the algorithm that produced it.
#[derive(Clone, Debug)]
pub struct HashMeta {
    pub algorithm: Algorithm,
    pub hash: Vec<u8>,
}

impl HashMeta {
    /// Bundles an algorithm label with its hash bytes.
    pub fn new(algorithm: Algorithm, hash: Vec<u8>) -> (r: Self)
        ensures
            r.algorithm == algorithm,
            r.hash == hash,
    {
        HashMeta { algorithm, hash }
    }
}

/// The SHA-256 digest of a byte sequence. The digest is a function of the
/// bytes alone; its value is not written out here.
pub uninterp spec fn sha256_of(data: Seq<u8>) -> Seq<u8>;

/// Relies on ring's digest::digest with the SHA256 algorithm: the digest
/// depends on the input bytes alone, and a SHA-256 digest is 32 bytes
/// (ring's SHA256_OUTPUT_LEN).
#[verifier::external_body]
fn sha256_digest(data: &[u8]) -> (r: Vec<u8>)
    ensures
        r@ == sha256_of(data@),
        r@.len() == 32,
{
    ring::digest::digest(&ring::digest::SHA256, data).as_ref().to_vec()
}

/// Perform sha-256 hash on provided data.
pub fn hash_sha256(data: &[u8]) -> (r: HashMeta)
    ensures
        r.algorithm is SHA256,
        r.hash@ == sha256_of(data@),
        r.hash@.len() == 32,
{
    let result = sha256_digest(data);
    HashMeta::new(Algorithm::SHA256, result)
}

} // verus!
