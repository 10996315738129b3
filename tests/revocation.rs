use fastspring_keygen_integration::keygen::Method;
use fastspring_keygen_integration::revocation::{RevokeError, RevokeStep, Revocation};

#[test]
fn revocation_stops_at_first_failure() {
    let codes = vec!["t1.key1".to_string(), "t2.key2".to_string()];
    let (mut rev, step) = Revocation::start("acct".to_string(), codes);
    let mut attempted = Vec::new();
    let mut step = step;
    loop {
        match step {
            RevokeStep::Call(call) => {
                assert_eq!(call.method, Method::Delete);
                attempted.push(call.url.clone());
                step = rev.advance(Err("request error".to_string()));
            }
            RevokeStep::Finished(result) => {
                assert_eq!(result, Err(RevokeError::Remote("request error".to_string())));
                break;
            }
        }
    }
    assert_eq!(attempted, vec!["https://api.keygen.sh/v1/accounts/acct/licenses/key1".to_string()]);
}

#[test]
fn revocation_revokes_every_key_in_order() {
    let codes = vec!["t1.key1".to_string(), "t2.key2".to_string()];
    let (mut rev, mut step) = Revocation::start("acct".to_string(), codes);
    let mut attempted = Vec::new();
    while let RevokeStep::Call(call) = step {
        attempted.push(call.url.clone());
        step = rev.advance(Ok(()));
    }
    assert!(matches!(step, RevokeStep::Finished(Ok(()))));
    assert_eq!(
        attempted,
        vec![
            "https://api.keygen.sh/v1/accounts/acct/licenses/key1".to_string(),
            "https://api.keygen.sh/v1/accounts/acct/licenses/key2".to_string(),
        ]
    );
}

#[test]
fn code_without_key_stops_revocation() {
    let codes = vec!["t1.key1".to_string(), "nodot".to_string(), "t3.key3".to_string()];
    let (mut rev, step) = Revocation::start("acct".to_string(), codes);
    assert!(matches!(step, RevokeStep::Call(_)));
    match rev.advance(Ok(())) {
        RevokeStep::Finished(r) => assert_eq!(r, Err(RevokeError::InvalidCode { index: 1 })),
        RevokeStep::Call(_) => panic!("no call expected"),
    }
}

#[test]
fn empty_revocation_finishes_at_once() {
    let (_, step) = Revocation::start("acct".to_string(), Vec::new());
    assert!(matches!(step, RevokeStep::Finished(Ok(()))));
}
