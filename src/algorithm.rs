use hmac::Mac;
use crate::text::str_eq;
use vstd::prelude::*;

verus! {

/// The keyed hash that signs a counter.
#[derive(Debug, Copy, Clone, PartialEq, Eq, Structural)]
pub enum Algorithm {
    /// HMAC-SHA-1, the algorithm that every authenticator understands.
    SHA1,
    /// HMAC-SHA-256.
    SHA256,
    /// HMAC-SHA-512.
    SHA512,
}

/// What HMAC-SHA-1 yields for a key and a message.
pub uninterp spec fn hmac_sha1_of(key: Seq<u8>, msg: Seq<u8>) -> Seq<u8>;

/// What HMAC-SHA-256 yields for a key and a message.
pub uninterp spec fn hmac_sha256_of(key: Seq<u8>, msg: Seq<u8>) -> Seq<u8>;

/// What HMAC-SHA-512 yields for a key and a message.
pub uninterp spec fn hmac_sha512_of(key: Seq<u8>, msg: Seq<u8>) -> Seq<u8>;

/// The MAC of `msg` under `key` with the hash that `alg` selects.
pub open spec fn mac_of(alg: Algorithm, key: Seq<u8>, msg: Seq<u8>) -> Seq<u8> {
    match alg {
        Algorithm::SHA1 => hmac_sha1_of(key, msg),
        Algorithm::SHA256 => hmac_sha256_of(key, msg),
        Algorithm::SHA512 => hmac_sha512_of(key, msg),
    }
}

/// The length in bytes of the MAC that `alg` yields.
pub open spec fn mac_len(alg: Algorithm) -> nat {
    match alg {
        Algorithm::SHA1 => 20,
        Algorithm::SHA256 => 32,
        Algorithm::SHA512 => 64,
    }
}

/// The canonical name of an algorithm, as written in a URI.
pub open spec fn algorithm_name(alg: Algorithm) -> Seq<char> {
    match alg {
        Algorithm::SHA1 => "SHA1"@,
        Algorithm::SHA256 => "SHA256"@,
        Algorithm::SHA512 => "SHA512"@,
    }
}

/// The algorithm whose canonical name is `s`, if any.
pub open spec fn algorithm_from_name(s: Seq<char>) -> Option<Algorithm> {
    if s == "SHA1"@ {
        Some(Algorithm::SHA1)
    } else if s == "SHA256"@ {
        Some(Algorithm::SHA256)
    } else if s == "SHA512"@ {
        Some(Algorithm::SHA512)
    } else {
        None
    }
}

/// Relies on `hmac::Hmac<sha1::Sha1>`: any key length is accepted and the
/// tag is the 20-byte SHA-1 output.
#[verifier::external_body]
fn hmac_sha1(key: &[u8], msg: &[u8]) -> (r: Vec<u8>)
    ensures
        r@ == hmac_sha1_of(key@, msg@),
        r@.len() == 20,
{
    let mut m = hmac::Hmac::<sha1::Sha1>::new_from_slice(key).unwrap();
    m.update(msg);
    m.finalize().into_bytes().to_vec()
}

/// Relies on `hmac::Hmac<sha2::Sha256>`: any key length is accepted and the
/// tag is the 32-byte SHA-256 output.
#[verifier::external_body]
fn hmac_sha256(key: &[u8], msg: &[u8]) -> (r: Vec<u8>)
    ensures
        r@ == hmac_sha256_of(key@, msg@),
        r@.len() == 32,
{
    let mut m = hmac::Hmac::<sha2::Sha256>::new_from_slice(key).unwrap();
    m.update(msg);
    m.finalize().into_bytes().to_vec()
}

/// Relies on `hmac::Hmac<sha2::Sha512>`: any key length is accepted and the
/// tag is the 64-byte SHA-512 output.
#[verifier::external_body]
fn hmac_sha512(key: &[u8], msg: &[u8]) -> (r: Vec<u8>)
    ensures
        r@ == hmac_sha512_of(key@, msg@),
        r@.len() == 64,
{
    let mut m = hmac::Hmac::<sha2::Sha512>::new_from_slice(key).unwrap();
    m.update(msg);
    m.finalize().into_bytes().to_vec()
}

impl Default for Algorithm {
    fn default() -> (r: Algorithm)
        ensures
            r == Algorithm::SHA1,
    {
        Algorithm::SHA1
    }
}

impl Algorithm {
    /// The MAC of `data` under `key`: 20, 32 or 64 bytes for SHA-1, SHA-256
    /// and SHA-512.
    pub fn sign(&self, key: &[u8], data: &[u8]) -> (r: Vec<u8>)
        ensures
            r@ == mac_of(*self, key@, data@),
            r@.len() == mac_len(*self),
            *self == Algorithm::SHA1 ==> r@.len() == 20,
            *self == Algorithm::SHA256 ==> r@.len() == 32,
            *self == Algorithm::SHA512 ==> r@.len() == 64,
    {
        match self {
            Algorithm::SHA1 => hmac_sha1(key, data),
            Algorithm::SHA256 => hmac_sha256(key, data),
            Algorithm::SHA512 => hmac_sha512(key, data),
        }
    }

    /// The canonical name: `SHA1`, `SHA256` or `SHA512`.
    pub fn name(&self) -> (r: &'static str)
        ensures
            r@ == algorithm_name(*self),
    {
        match self {
            Algorithm::SHA1 => "SHA1",
            Algorithm::SHA256 => "SHA256",
            Algorithm::SHA512 => "SHA512",
        }
    }

    /// The algorithm whose canonical name is `s`, if any.
    pub fn from_name(s: &str) -> (r: Option<Algorithm>)
        ensures
            r == algorithm_from_name(s@),
            r matches Some(a) ==> algorithm_name(a) == s@,
            r is None ==> (forall|a: Algorithm| algorithm_name(a) != s@),
    {
        proof {
            reveal_strlit("SHA1");
            reveal_strlit("SHA256");
            reveal_strlit("SHA512");
        }
        if str_eq(s, "SHA1") {
            Some(Algorithm::SHA1)
        } else if str_eq(s, "SHA256") {
            Some(Algorithm::SHA256)
        } else if str_eq(s, "SHA512") {
            Some(Algorithm::SHA512)
        } else {
            None
        }
    }
}

} // verus!
