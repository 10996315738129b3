use fastspring_keygen_integration::json::Json;
use fastspring_keygen_integration::keygen::{
    create_license_call, create_token_call, modify_license, reinstate_license,
    revoke_license, suspend_license, LicenseAction, Method, RemoteCall,
};
use fastspring_keygen_integration::provision::{
    generate_licenses, LicenseGeneration, ProvisioningRequest, Step, UnitError,
};

fn text(v: &str) -> Json {
    Json::Str(v.to_string())
}

fn object(fields: Vec<(&str, Json)>) -> Json {
    Json::Object(fields.into_iter().map(|(k, v)| (k.to_string(), v)).collect())
}

fn license_reply(id: &str, key: &str) -> Json {
    object(vec![(
        "data",
        object(vec![("id", text(id)), ("attributes", object(vec![("key", text(key))]))]),
    )])
}

fn token_reply(token: &str) -> Json {
    object(vec![("data", object(vec![("attributes", object(vec![("token", text(token))]))]))])
}

fn request(quantity: u32, dry_run: bool) -> ProvisioningRequest {
    ProvisioningRequest {
        account: "acct".to_string(),
        subscription: "SUB-1".to_string(),
        policy: "policy-1".to_string(),
        quantity,
        invoice: Some("INV-1".to_string()),
        dry_run,
    }
}

/// Drives a run against a stub; `reply` gets the index of the call and the call.
fn drive(
    req: ProvisioningRequest,
    mut reply: impl FnMut(usize, &RemoteCall) -> Result<Json, String>,
) -> (LicenseGeneration, usize) {
    let (mut g, mut step) = generate_licenses(req);
    let mut calls = 0;
    while let Step::Call(call) = step {
        let r = reply(calls, &call);
        calls += 1;
        step = g.advance(r);
    }
    (g, calls)
}

fn succeeding_stub(i: usize, call: &RemoteCall) -> Result<Json, String> {
    if call.url.ends_with("/tokens") {
        Ok(token_reply(&format!("tok{}", i)))
    } else {
        Ok(license_reply(&format!("id{}", i), &format!("key{}", i)))
    }
}

#[test]
fn every_quantity_yields_that_many_codes() {
    for q in 1..=10u32 {
        let (g, calls) = drive(request(q, false), succeeding_stub);
        assert_eq!(calls, 2 * q as usize);
        assert_eq!(g.codes.len(), q as usize);
        assert!(g.errors.is_empty());
        for code in &g.codes {
            let parts: Vec<&str> = code.split('.').collect();
            assert_eq!(parts.len(), 2);
            assert!(!parts[0].is_empty() && !parts[1].is_empty());
        }
    }
}

#[test]
fn codes_follow_unit_order() {
    let (g, _) = drive(request(2, false), succeeding_stub);
    assert_eq!(g.codes, vec!["tok1.key0".to_string(), "tok3.key2".to_string()]);
}

#[test]
fn create_calls_carry_a_random_hex_key() {
    let (g, step) = generate_licenses(request(1, false));
    drop(g);
    match step {
        Step::Call(call) => {
            assert_eq!(call.method, Method::Post);
            assert_eq!(call.url, "https://api.keygen.sh/v1/accounts/acct/licenses");
            let body = call.body.unwrap();
            let start = body.find("\"key\":\"").unwrap() + 7;
            let key = &body[start..start + 32];
            assert!(key.chars().all(|c| c.is_ascii_hexdigit() && !c.is_ascii_uppercase()));
            assert_eq!(&body[start + 32..start + 33], "\"");
            assert!(body.contains("\"fastSpringSubscriptionId\":\"SUB-1\""));
            assert!(body.contains("\"invoiceId\":\"INV-1\""));
            assert!(body.contains("\"id\":\"policy-1\""));
        }
        Step::Finished => panic!("expected a call"),
    }
}

#[test]
fn dry_run_makes_no_call() {
    let (g, step) = generate_licenses(request(3, true));
    assert!(matches!(step, Step::Finished));
    assert!(g.codes.is_empty());
    assert!(g.errors.is_empty());
    assert_eq!(g.previews.len(), 3);
    for p in &g.previews {
        assert_eq!(p.url, "https://api.keygen.sh/v1/accounts/acct/licenses");
    }
}

#[test]
fn zero_quantity_yields_nothing() {
    let (g, step) = generate_licenses(request(0, false));
    assert!(matches!(step, Step::Finished));
    assert!(g.codes.is_empty() && g.errors.is_empty());
}

#[test]
fn one_failed_token_leaves_one_error_and_goes_on() {
    let (g, calls) = drive(request(5, false), |i, call| {
        if i == 5 {
            Err("request error".to_string())
        } else {
            succeeding_stub(i, call)
        }
    });
    assert_eq!(calls, 10);
    assert_eq!(g.codes.len(), 4);
    assert_eq!(
        g.errors,
        vec![UnitError::TokenFailed {
            unit: 2,
            license_id: "id4".to_string(),
            detail: "request error".to_string()
        }]
    );
}

#[test]
fn failed_create_is_recorded() {
    let (g, calls) = drive(request(2, false), |i, call| {
        if i == 0 {
            Err("invalid json".to_string())
        } else {
            succeeding_stub(i, call)
        }
    });
    assert_eq!(calls, 3);
    assert_eq!(g.codes, vec!["tok2.key1".to_string()]);
    assert_eq!(
        g.errors,
        vec![UnitError::CreateFailed { unit: 0, detail: "invalid json".to_string() }]
    );
}

#[test]
fn unreadable_replies_are_recorded() {
    let (g, _) = drive(request(2, false), |i, call| match i {
        0 => Ok(object(vec![("data", object(vec![("id", text("x"))]))])),
        2 => Ok(object(vec![])),
        _ => succeeding_stub(i, call),
    });
    assert!(g.codes.is_empty());
    assert_eq!(
        g.errors,
        vec![
            UnitError::InvalidCreateReply { unit: 0 },
            UnitError::InvalidTokenReply { unit: 1, license_id: "id1".to_string() },
        ]
    );
}

#[test]
fn token_call_targets_the_license() {
    let call = create_token_call("acct", "lic-9");
    assert_eq!(call.method, Method::Post);
    assert_eq!(call.url, "https://api.keygen.sh/v1/accounts/acct/licenses/lic-9/tokens");
    assert_eq!(call.body.as_deref(), Some("{\"data\":{\"type\":\"tokens\",\"attributes\":{}}}"));
}

#[test]
fn create_body_escapes_strings() {
    let call = create_license_call("acct", "a\"b", "p\\q", "s\nt", "");
    let body = call.body.unwrap();
    assert_eq!(
        body,
        "{\"data\":{\"type\":\"licenses\",\"attributes\":{\"key\":\"a\\\"b\",\"metadata\":{\"fastSpringSubscriptionId\":\"s\\nt\",\"invoiceId\":\"\"}},\"relationships\":{\"policy\":{\"data\":{\"type\":\"policies\",\"id\":\"p\\\\q\"}}}}}"
    );
}

#[test]
fn license_actions_build_their_calls() {
    let s = suspend_license("acct", "K1");
    assert_eq!(s.method, Method::Post);
    assert_eq!(s.url, "https://api.keygen.sh/v1/accounts/acct/licenses/K1/actions/suspend");
    let r = reinstate_license("acct", "K1");
    assert_eq!(r.url, "https://api.keygen.sh/v1/accounts/acct/licenses/K1/actions/reinstate");
    let d = revoke_license("acct", "K1");
    assert_eq!(d.method, Method::Delete);
    assert_eq!(d.url, "https://api.keygen.sh/v1/accounts/acct/licenses/K1");
    assert!(d.body.is_none());
    let a = modify_license("acct", "K2", LicenseAction::Suspend);
    assert_eq!(a.url, "https://api.keygen.sh/v1/accounts/acct/licenses/K2/actions/suspend");
}
