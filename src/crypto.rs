//! Digests and message authentication codes computed by outside crates, and
//! random bytes.
use hmac::{Mac, NewMac};
use md5::Digest;
use rand::Rng;
use vstd::prelude::*;

verus! {

/// MD5 digest of the UTF-8 encoding of a text.
pub uninterp spec fn md5_of_text(s: Seq<char>) -> Seq<u8>;

/// HMAC-SHA256 of a message under a key.
pub uninterp spec fn hmac_sha256_of(key: Seq<u8>, msg: Seq<u8>) -> Seq<u8>;

/// HMAC-MD5 of a message under a key.
pub uninterp spec fn hmac_md5_of(key: Seq<u8>, msg: Seq<u8>) -> Seq<u8>;

/// Relies on md-5's `Md5::digest` over the UTF-8 bytes of `s`: a 16-byte digest.
#[verifier::external_body]
pub(crate) fn md5_text(s: &str) -> (r: Vec<u8>)
    ensures
        r@ == md5_of_text(s@),
        r@.len() == 16,
{
    md5::Md5::digest(s.as_bytes()).to_vec()
}

/// Relies on hmac-sha256's `HMAC::mac(input, key)`: a 32-byte tag.
#[verifier::external_body]
pub(crate) fn hmac_sha256(key: &[u8], msg: &[u8]) -> (r: Vec<u8>)
    ensures
        r@ == hmac_sha256_of(key@, msg@),
        r@.len() == 32,
{
    hmac_sha256::HMAC::mac(msg, key).to_vec()
}

/// Relies on hmac's `Hmac<Md5>`: `new_varkey` accepts a key of any length, and
/// `verify` accepts exactly the tag that the MAC computes over the message.
#[verifier::external_body]
pub(crate) fn hmac_md5_verify(key: &[u8], msg: &[u8], tag: &[u8]) -> (r: bool)
    ensures
        r == (tag@ == hmac_md5_of(key@, msg@)),
{
    let mut mac = hmac::Hmac::<md5::Md5>::new_varkey(key).unwrap();
    mac.update(msg);
    mac.verify(tag).is_ok()
}

/// Relies on rand's `thread_rng().fill`: sixteen bytes from the thread's
/// cryptographically secure generator.
#[verifier::external_body]
pub(crate) fn random_16_bytes() -> (r: Vec<u8>)
    ensures
        r@.len() == 16,
{
    let mut b = [0u8; 16];
    rand::thread_rng().fill(&mut b);
    b.to_vec()
}

} // verus!
