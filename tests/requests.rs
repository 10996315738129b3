use fastspring_keygen_integration::requests::{
    license_request, manual_request, parse_quantity, pledge_request, QuantityError,
    RequestError,
};

#[test]
fn quantities_from_one_to_ten_are_accepted() {
    for q in 1..=10u32 {
        assert_eq!(parse_quantity(&q.to_string()), Ok(q));
    }
    assert_eq!(parse_quantity("+7"), Ok(7));
    assert_eq!(parse_quantity("007"), Ok(7));
}

#[test]
fn quantities_outside_one_to_ten_are_refused() {
    assert_eq!(parse_quantity("0"), Err(QuantityError::Zero));
    assert_eq!(parse_quantity("11"), Err(QuantityError::TooMany));
    assert_eq!(parse_quantity("4294967295"), Err(QuantityError::TooMany));
    assert_eq!(parse_quantity("4294967296"), Err(QuantityError::NotANumber));
    assert_eq!(parse_quantity("-1"), Err(QuantityError::NotANumber));
    assert_eq!(parse_quantity("abc"), Err(QuantityError::NotANumber));
    assert_eq!(parse_quantity(""), Err(QuantityError::NotANumber));
    assert_eq!(parse_quantity("+"), Err(QuantityError::NotANumber));
    assert_eq!(parse_quantity("1 "), Err(QuantityError::NotANumber));
}

#[test]
fn license_request_reads_the_form() {
    let req = license_request("subscription=SUB-1&policy=pol&quantity=3", "acct").unwrap();
    assert_eq!(req.account, "acct");
    assert_eq!(req.subscription, "SUB-1");
    assert_eq!(req.policy, "pol");
    assert_eq!(req.quantity, 3);
    assert!(req.invoice.is_none());
    assert!(!req.dry_run);
}

#[test]
fn license_request_refuses_bad_forms() {
    assert_eq!(license_request("policy=p&quantity=1", "a").err(), Some(RequestError::MissingSubscription));
    assert_eq!(license_request("subscription=s&quantity=1", "a").err(), Some(RequestError::MissingPolicy));
    assert_eq!(license_request("subscription=s&policy=p", "a").err(), Some(RequestError::MissingQuantity));
    assert_eq!(
        license_request("subscription=s&policy=p&quantity=11", "a").err(),
        Some(RequestError::InvalidQuantity(QuantityError::TooMany))
    );
    assert_eq!(
        license_request("subscription=s&policy=p&quantity=0", "a").err(),
        Some(RequestError::InvalidQuantity(QuantityError::Zero))
    );
}

#[test]
fn manual_request_needs_a_reference_and_a_valid_count() {
    assert_eq!(
        manual_request("a", "p", "1", None, None, false).err(),
        Some(RequestError::MissingReference)
    );
    assert_eq!(
        manual_request("a", "p", "x", Some("s"), None, false).err(),
        Some(RequestError::InvalidQuantity(QuantityError::NotANumber))
    );
    let req = manual_request("a", "p", "2", None, Some("INV"), true).unwrap();
    assert_eq!(req.subscription, "");
    assert_eq!(req.invoice.as_deref(), Some("INV"));
    assert_eq!(req.quantity, 2);
    assert!(req.dry_run);
}

#[test]
fn pledge_request_is_one_license() {
    let req = pledge_request("a", "community");
    assert_eq!(req.subscription, "PATREON");
    assert_eq!(req.policy, "community");
    assert_eq!(req.quantity, 1);
}
