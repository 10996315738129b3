use fastspring_keygen_integration::code::{activation_code, license_key};

#[test]
fn key_is_read_from_code() {
    assert_eq!(license_key("token.key"), Some("key"));
    assert_eq!(license_key("token.key.rest"), Some("key"));
    assert_eq!(license_key("token."), Some(""));
    assert_eq!(license_key("nodot"), None);
    assert_eq!(license_key(""), None);
}

#[test]
fn code_round_trips_to_its_key() {
    let code = activation_code("activ-8f3a", "0123456789abcdef0123456789abcdef");
    assert_eq!(code, "activ-8f3a.0123456789abcdef0123456789abcdef");
    assert_eq!(license_key(&code), Some("0123456789abcdef0123456789abcdef"));
}
