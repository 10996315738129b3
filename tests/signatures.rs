use fastspring_keygen_integration::fastspring::{
    authentify_web_hook, license_gen_message, signature_matches_digest, signature_matches_mac,
    verify_license_gen,
};
use fastspring_keygen_integration::patreon;

const WEBHOOK_BODY: &str = "{\"events\":[]}";
const WEBHOOK_SECRET: &str = "webhook-secret";
const WEBHOOK_SIGNATURE: &str = "ah3cdTxnsKJMlh3gIHajJkwF0Nb/DMh2oYYrJy5LDfg=";

#[test]
fn webhook_signature_verifies() {
    assert!(authentify_web_hook(
        WEBHOOK_BODY.as_bytes(),
        Some(WEBHOOK_SIGNATURE),
        WEBHOOK_SECRET.as_bytes()
    ));
}

#[test]
fn webhook_signature_fails_on_any_flipped_bit() {
    let body = WEBHOOK_BODY.as_bytes();
    for i in 0..body.len() {
        for bit in 0..8 {
            let mut flipped = body.to_vec();
            flipped[i] ^= 1 << bit;
            assert!(!authentify_web_hook(
                &flipped,
                Some(WEBHOOK_SIGNATURE),
                WEBHOOK_SECRET.as_bytes()
            ));
        }
    }
}

#[test]
fn webhook_signature_fails_without_header_or_with_other_secret() {
    assert!(!authentify_web_hook(WEBHOOK_BODY.as_bytes(), None, WEBHOOK_SECRET.as_bytes()));
    assert!(!authentify_web_hook(
        WEBHOOK_BODY.as_bytes(),
        Some(WEBHOOK_SIGNATURE),
        b"other-secret"
    ));
}

#[test]
fn mac_is_compared_in_base64() {
    assert!(signature_matches_mac(b"ab", Some("YWI=")));
    assert!(signature_matches_mac(b"abcd", Some("YWJjZA==")));
    assert!(!signature_matches_mac(b"ab", Some("ab")));
    assert!(!signature_matches_mac(b"ab", None));
}

#[test]
fn license_request_signature_verifies() {
    let body = "b=2&a=1&security_request_hash=f328c290db4776513ea79a15bd02fa80";
    assert!(verify_license_gen(body, "private-key"));
    assert!(!verify_license_gen(body, "other-key"));
}

#[test]
fn license_request_signature_uses_decoded_values() {
    let body = "k=x+y%26z&security_request_hash=bf903c77226ea5f5647eb2124e9d3eef";
    assert!(verify_license_gen(body, "private-key"));
}

#[test]
fn license_request_without_signature_fails() {
    assert!(!verify_license_gen("b=2&a=1", "private-key"));
}

#[test]
fn license_request_message_sorts_by_name_and_keeps_last_value() {
    let pairs = vec![
        ("zeta".to_string(), "3".to_string()),
        ("alpha".to_string(), "old".to_string()),
        ("security_request_hash".to_string(), "sig".to_string()),
        ("beta".to_string(), "2".to_string()),
        ("alpha".to_string(), "1".to_string()),
    ];
    let (sig, msg) = license_gen_message(&pairs, "KEY");
    assert_eq!(sig, Some("sig".to_string()));
    assert_eq!(msg, "123KEY");
}

#[test]
fn digest_is_compared_in_lowercase_hex() {
    let digest = [0xabu8, 0x01, 0xff];
    assert!(signature_matches_digest(&Some("ab01ff".to_string()), &digest));
    assert!(!signature_matches_digest(&Some("AB01FF".to_string()), &digest));
    assert!(!signature_matches_digest(&None, &digest));
}

#[test]
fn patreon_signature_verifies() {
    let body = b"{\"data\":{}}";
    let secret = b"patreon-secret";
    assert!(patreon::authentify_web_hook(
        body,
        Some("cef5ef9ef639064e8ba619687a30a1c0"),
        secret
    ));
    assert!(patreon::authentify_web_hook(
        body,
        Some("CEF5EF9EF639064E8BA619687A30A1C0"),
        secret
    ));
    assert!(!patreon::authentify_web_hook(
        body,
        Some("cef5ef9ef639064e8ba619687a30a1c1"),
        secret
    ));
}

#[test]
fn patreon_signature_that_is_not_hex_fails() {
    let body = b"{\"data\":{}}";
    assert!(!patreon::authentify_web_hook(body, Some("not hex"), b"patreon-secret"));
    assert!(!patreon::authentify_web_hook(body, Some("abc"), b"patreon-secret"));
    assert!(!patreon::authentify_web_hook(body, None, b"patreon-secret"));
}
