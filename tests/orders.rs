use fastspring_keygen_integration::json::Json;
use fastspring_keygen_integration::orders::{licenses_to_revoke, original_order, OrderError};

fn text(v: &str) -> Json {
    Json::Str(v.to_string())
}

fn object(fields: Vec<(&str, Json)>) -> Json {
    Json::Object(fields.into_iter().map(|(k, v)| (k.to_string(), v)).collect())
}

fn leaf(code: &str) -> Json {
    object(vec![("license", text(code))])
}

fn entry(reference: &str, codes: &[&str]) -> Json {
    let leaves = Json::Array(codes.iter().map(|c| leaf(c)).collect());
    let item = object(vec![("fulfillments", object(vec![("license", leaves)]))]);
    object(vec![(
        "order",
        object(vec![("reference", text(reference)), ("items", Json::Array(vec![item]))]),
    )])
}

#[test]
fn original_order_is_the_one_without_billing_suffix() {
    let entries = vec![entry("ABC-B", &["t.billing"]), entry("ABC", &["t.orig"])];
    assert_eq!(original_order(&entries), Some(1));
    assert_eq!(licenses_to_revoke(&Json::Array(entries)), Ok(vec!["t.orig".to_string()]));
}

#[test]
fn only_billing_orders_is_not_found() {
    let entries = Json::Array(vec![entry("ABC-B", &["t.a"]), entry("XYZB", &["t.b"])]);
    assert_eq!(licenses_to_revoke(&entries), Err(OrderError::OriginalOrderNotFound));
}

#[test]
fn entries_without_reference_are_not_original() {
    let no_ref = object(vec![("order", object(vec![("items", Json::Array(vec![]))]))]);
    let num_ref = object(vec![(
        "order",
        object(vec![("reference", Json::Number("7".to_string())), ("items", Json::Array(vec![]))]),
    )]);
    assert_eq!(original_order(&vec![no_ref, num_ref, Json::Null]), None);
}

#[test]
fn codes_are_collected_across_items_and_groups_skipping_malformed_leaves() {
    let group_a = Json::Array(vec![leaf("t.k1"), object(vec![]), leaf("t.k2")]);
    let group_b = Json::Array(vec![object(vec![("license", Json::Bool(true))]), leaf("t.k3")]);
    let item1 = object(vec![(
        "fulfillments",
        object(vec![("a", group_a), ("b", group_b), ("c", text("not an array"))]),
    )]);
    let item2 = object(vec![("fulfillments", object(vec![("x", Json::Array(vec![leaf("t.k4")]))]))]);
    let entries = Json::Array(vec![object(vec![(
        "order",
        object(vec![("reference", text("ORD1")), ("items", Json::Array(vec![item1, item2]))]),
    )])]);
    assert_eq!(
        licenses_to_revoke(&entries),
        Ok(vec!["t.k1".to_string(), "t.k2".to_string(), "t.k3".to_string(), "t.k4".to_string()])
    );
}

#[test]
fn malformed_containers_fail() {
    assert_eq!(licenses_to_revoke(&object(vec![])), Err(OrderError::EntriesNotArray));
    let no_items = Json::Array(vec![object(vec![(
        "order",
        object(vec![("reference", text("A"))]),
    )])]);
    assert_eq!(licenses_to_revoke(&no_items), Err(OrderError::ItemsNotArray));
    let bad_item = Json::Array(vec![object(vec![(
        "order",
        object(vec![
            ("reference", text("A")),
            ("items", Json::Array(vec![object(vec![("fulfillments", Json::Array(vec![]))])])),
        ]),
    )])]);
    assert_eq!(licenses_to_revoke(&bad_item), Err(OrderError::FulfillmentsNotObject));
}
