use fastspring_keygen_integration::events::{
    read_pledge_patron, route_event, route_patreon_event,
    webhook_events, FastSpringEvent, PatreonError, PatreonEvent, WebhookError,
};
use fastspring_keygen_integration::fastspring::get_subscription_entries;
use fastspring_keygen_integration::json::Json;
use fastspring_keygen_integration::keygen::Method;

fn text(v: &str) -> Json {
    Json::Str(v.to_string())
}

fn object(fields: Vec<(&str, Json)>) -> Json {
    Json::Object(fields.into_iter().map(|(k, v)| (k.to_string(), v)).collect())
}

#[test]
fn deactivation_is_routed_with_its_subscription() {
    let e = object(vec![
        ("type", text("subscription.deactivated")),
        ("data", object(vec![("id", text("SUB-9"))])),
    ]);
    assert_eq!(
        route_event(&e),
        Ok(FastSpringEvent::SubscriptionDeactivated { subscription_id: "SUB-9".to_string() })
    );
}

#[test]
fn other_events_are_unhandled_not_errors() {
    let e = object(vec![("type", text("order.completed")), ("data", object(vec![]))]);
    assert_eq!(
        route_event(&e),
        Ok(FastSpringEvent::Unhandled { kind: "order.completed".to_string() })
    );
}

#[test]
fn malformed_events_fail() {
    assert_eq!(route_event(&object(vec![])), Err(WebhookError::TypeNotString));
    let no_id = object(vec![("type", text("subscription.deactivated"))]);
    assert_eq!(route_event(&no_id), Err(WebhookError::IdNotString));
    assert_eq!(webhook_events(&object(vec![])).err(), Some(WebhookError::EventsNotArray));
    let body = object(vec![("events", Json::Array(vec![Json::Null]))]);
    assert_eq!(webhook_events(&body).map(|v| v.len()), Ok(1));
}

#[test]
fn subscription_entries_are_fetched_by_id() {
    let call = get_subscription_entries("SUB-9");
    assert_eq!(call.method, Method::Get);
    assert_eq!(call.url, "https://api.fastspring.com/subscriptions/SUB-9/entries");
}

fn pledge(included: Vec<Json>) -> Json {
    object(vec![
        (
            "data",
            object(vec![(
                "relationships",
                object(vec![("patron", object(vec![("data", object(vec![("id", text("42"))]))]))]),
            )]),
        ),
        ("included", Json::Array(included)),
    ])
}

fn resource(id: &str, email: Option<&str>) -> Json {
    match email {
        Some(e) => object(vec![("id", text(id)), ("attributes", object(vec![("email", text(e))]))]),
        None => object(vec![("id", text(id))]),
    }
}

#[test]
fn new_pledge_names_patron_and_email() {
    let body = pledge(vec![resource("7", None), resource("42", Some("p@example.com"))]);
    assert_eq!(
        route_patreon_event("pledges:create", &body),
        Ok(PatreonEvent::PledgeCreated {
            patron_id: "42".to_string(),
            email: "p@example.com".to_string()
        })
    );
}

#[test]
fn other_patreon_triggers_do_nothing() {
    let body = object(vec![]);
    assert_eq!(route_patreon_event("pledges:delete", &body), Ok(PatreonEvent::PledgeDeleted));
    assert_eq!(route_patreon_event("pledges:update", &body), Ok(PatreonEvent::Unhandled));
}

#[test]
fn malformed_pledges_fail() {
    assert_eq!(read_pledge_patron(&object(vec![])), Err(PatreonError::PatronIdNotString));
    let mut body = pledge(vec![]);
    if let Json::Object(fields) = &mut body {
        fields.retain(|(k, _)| k != "included");
    }
    assert_eq!(read_pledge_patron(&body), Err(PatreonError::IncludedNotArray));
    assert_eq!(
        read_pledge_patron(&pledge(vec![object(vec![])])),
        Err(PatreonError::IncludedIdNotString)
    );
    assert_eq!(
        read_pledge_patron(&pledge(vec![resource("42", None)])),
        Err(PatreonError::EmailNotString)
    );
    assert_eq!(
        read_pledge_patron(&pledge(vec![resource("7", Some("x@example.com"))])),
        Err(PatreonError::PatronNotIncluded)
    );
}
