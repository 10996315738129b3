//! Authentication of Patreon webhooks.
use crate::crypto::{hmac_md5_of, hmac_md5_verify};
use crate::encoding::{hex_bytes, hex_decode, is_hex_text};
use vstd::prelude::*;

verus! {

/// Authenticates a webhook: its `X-Patreon-Signature` header must hold, in hex,
/// the HMAC-MD5 of the raw body under the webhook secret. A missing header or
/// one that is not hex fails.
pub fn authentify_web_hook(body: &[u8], signature: Option<&str>, secret: &[u8]) -> (r: bool)
    ensures
        r == (signature matches Some(s) && is_hex_text(s@) && hex_bytes(s@) == hmac_md5_of(
            secret@,
            body@,
        )),
{
    match signature {
        None => false,
        Some(s) => match hex_decode(s) {
            None => false,
            Some(tag) => hmac_md5_verify(secret, body, tag.as_slice()),
        },
    }
}

} // verus!
