//! Routing of inbound webhook events to what they ask for.
use crate::json::Json;
use vstd::prelude::*;

verus! {

/// A FastSpring webhook event, as far as this service acts on it.
#[derive(PartialEq, Eq, Debug)]
pub enum FastSpringEvent {
    /// A subscription ended: the licenses of its original order are revoked.
    SubscriptionDeactivated { subscription_id: String },
    /// Any other kind of event, which is logged and skipped.
    Unhandled { kind: String },
}

/// Why a FastSpring webhook could not be read.
#[derive(PartialEq, Eq, Structural, Debug, Clone, Copy)]
pub enum WebhookError {
    /// The body has no array of events.
    EventsNotArray,
    /// An event has no string type.
    TypeNotString,
    /// A deactivation event has no string subscription id.
    IdNotString,
}

/// The events of a FastSpring webhook body.
pub fn webhook_events(body: &Json) -> (r: Result<&Vec<Json>, WebhookError>)
    ensures
        match r {
            Ok(v) => body.field("events"@) matches Some(e) && e.elements() == Some(v@),
            Err(e) => e == WebhookError::EventsNotArray && !(body.field("events"@) matches Some(
                x,
            ) && x.elements() is Some),
        },
{
    match body.get("events") {
        None => Err(WebhookError::EventsNotArray),
        Some(e) => match e.as_array() {
            None => Err(WebhookError::EventsNotArray),
            Some(v) => Ok(v),
        },
    }
}

/// The subscription id of an event's data.
pub open spec fn event_subscription_id(event: Json) -> Option<String> {
    match event.field("data"@) {
        Some(d) => d.string_at("id"@),
        None => None,
    }
}

/// What a FastSpring event asks for.
pub open spec fn event_route(event: Json) -> Result<FastSpringEvent, WebhookError> {
    match event.string_at("type"@) {
        None => Err(WebhookError::TypeNotString),
        Some(kind) => if kind@ == "subscription.deactivated"@ {
            match event_subscription_id(event) {
                None => Err(WebhookError::IdNotString),
                Some(id) => Ok(FastSpringEvent::SubscriptionDeactivated { subscription_id: id }),
            }
        } else {
            Ok(FastSpringEvent::Unhandled { kind })
        },
    }
}

/// Says what a FastSpring event asks for.
pub fn route_event(event: &Json) -> (r: Result<FastSpringEvent, WebhookError>)
    ensures
        r == event_route(*event),
{
    let kind = match event.str_at("type") {
        None => return Err(WebhookError::TypeNotString),
        Some(k) => k,
    };
    if *kind == String::from_str("subscription.deactivated") {
        let id = match event.get("data") {
            None => None,
            Some(d) => d.str_at("id"),
        };
        match id {
            None => Err(WebhookError::IdNotString),
            Some(id) => Ok(FastSpringEvent::SubscriptionDeactivated { subscription_id: id.clone() }),
        }
    } else {
        Ok(FastSpringEvent::Unhandled { kind: kind.clone() })
    }
}

/// A Patreon webhook event, as far as this service acts on it.
#[derive(PartialEq, Eq, Debug)]
pub enum PatreonEvent {
    /// A new pledge: the patron gets a license by email.
    PledgeCreated { patron_id: String, email: String },
    /// A pledge was deleted; nothing is done yet.
    PledgeDeleted,
    /// Any other trigger, which is skipped.
    Unhandled,
}

/// Why a Patreon webhook could not be read.
#[derive(PartialEq, Eq, Structural, Debug, Clone, Copy)]
pub enum PatreonError {
    /// The pledge names no patron id.
    PatronIdNotString,
    /// The body has no array of included resources.
    IncludedNotArray,
    /// An included resource has no string id.
    IncludedIdNotString,
    /// The patron's resource has no string email.
    EmailNotString,
    /// No included resource is the patron.
    PatronNotIncluded,
}

/// The patron id that a pledge names.
pub open spec fn pledge_patron_id(body: Json) -> Option<String> {
    match body.field("data"@) {
        Some(d) => match d.field("relationships"@) {
            Some(r) => match r.field("patron"@) {
                Some(p) => match p.field("data"@) {
                    Some(pd) => pd.string_at("id"@),
                    None => None,
                },
                None => None,
            },
            None => None,
        },
        None => None,
    }
}

/// The email of an included resource.
pub open spec fn included_email(inc: Json) -> Option<String> {
    match inc.field("attributes"@) {
        Some(a) => a.string_at("email"@),
        None => None,
    }
}

/// The email of the last included resource with the given id, among `incs`;
/// the first resource without a string id, or with that id and no email, fails.
pub open spec fn patron_email_in(incs: Seq<Json>, id: Seq<char>) -> Result<Option<String>, PatreonError>
    decreases incs.len(),
{
    if incs.len() == 0 {
        Ok(None)
    } else {
        match patron_email_in(incs.drop_last(), id) {
            Err(e) => Err(e),
            Ok(found) => match incs.last().string_at("id"@) {
                None => Err(PatreonError::IncludedIdNotString),
                Some(x) => if x@ == id {
                    match included_email(incs.last()) {
                        None => Err(PatreonError::EmailNotString),
                        Some(e) => Ok(Some(e)),
                    }
                } else {
                    Ok(found)
                },
            },
        }
    }
}

/// The patron id and email of a new pledge.
pub open spec fn pledge_patron(body: Json) -> Result<(String, String), PatreonError> {
    match pledge_patron_id(body) {
        None => Err(PatreonError::PatronIdNotString),
        Some(id) => match body.field("included"@) {
            Some(inc) => match inc.elements() {
                Some(incs) => match patron_email_in(incs, id@) {
                    Err(e) => Err(e),
                    Ok(None) => Err(PatreonError::PatronNotIncluded),
                    Ok(Some(email)) => Ok((id, email)),
                },
                None => Err(PatreonError::IncludedNotArray),
            },
            None => Err(PatreonError::IncludedNotArray),
        },
    }
}

/// What a Patreon event, with the trigger its header names, asks for.
pub open spec fn patreon_route(trigger: Seq<char>, body: Json) -> Result<PatreonEvent, PatreonError> {
    if trigger == "pledges:create"@ {
        match pledge_patron(body) {
            Err(e) => Err(e),
            Ok((id, email)) => Ok(PatreonEvent::PledgeCreated { patron_id: id, email }),
        }
    } else if trigger == "pledges:delete"@ {
        Ok(PatreonEvent::PledgeDeleted)
    } else {
        Ok(PatreonEvent::Unhandled)
    }
}

fn find_patron_id(body: &Json) -> (r: Option<&String>)
    ensures
        match r {
            Some(s) => pledge_patron_id(*body) == Some(*s),
            None => pledge_patron_id(*body) is None,
        },
{
    match body.get("data") {
        None => None,
        Some(d) => match d.get("relationships") {
            None => None,
            Some(r) => match r.get("patron") {
                None => None,
                Some(p) => match p.get("data") {
                    None => None,
                    Some(pd) => pd.str_at("id"),
                },
            },
        },
    }
}

/// Reads the patron id and email of a new pledge.
pub fn read_pledge_patron(body: &Json) -> (r: Result<(String, String), PatreonError>)
    ensures
        r == pledge_patron(*body),
{
    let id = match find_patron_id(body) {
        None => return Err(PatreonError::PatronIdNotString),
        Some(id) => id,
    };
    let incs = match body.get("included") {
        None => return Err(PatreonError::IncludedNotArray),
        Some(inc) => match inc.as_array() {
            None => return Err(PatreonError::IncludedNotArray),
            Some(v) => v,
        },
    };
    let ghost whole = match patron_email_in(incs@, id@) {
        Err(e) => Err(e),
        Ok(None) => Err(PatreonError::PatronNotIncluded),
        Ok(Some(email)) => Ok((*id, email)),
    };
    assert(pledge_patron(*body) == whole);
    let mut found: Option<&String> = None;
    let mut i: usize = 0;
    while i < incs.len()
        invariant
            i <= incs@.len(),
            pledge_patron(*body) == whole,
            whole == match patron_email_in(incs@, id@) {
                Err(e) => Err(e),
                Ok(None) => Err(PatreonError::PatronNotIncluded),
                Ok(Some(email)) => Ok::<(String, String), PatreonError>((*id, email)),
            },
            patron_email_in(incs@.subrange(0, i as int), id@) == Ok::<Option<String>, PatreonError>(
                match found {
                    Some(e) => Some(*e),
                    None => None,
                },
            ),
        decreases incs@.len() - i,
    {
        assert(incs@.subrange(0, i + 1).drop_last() =~= incs@.subrange(0, i as int));
        assert(incs@.subrange(0, i + 1).last() == incs@[i as int]);
        let x = match incs[i].str_at("id") {
            None => {
                proof {
                    lemma_patron_email_fails(incs@, id@, i as int);
                }
                return Err(PatreonError::IncludedIdNotString);
            },
            Some(x) => x,
        };
        if *x == *id {
            let email = match incs[i].get("attributes") {
                None => None,
                Some(a) => a.str_at("email"),
            };
            match email {
                None => {
                    proof {
                        lemma_patron_email_fails(incs@, id@, i as int);
                    }
                    return Err(PatreonError::EmailNotString);
                },
                Some(e) => {
                    found = Some(e);
                },
            }
        }
        i = i + 1;
    }
    assert(incs@.subrange(0, incs@.len() as int) =~= incs@);
    match found {
        None => Err(PatreonError::PatronNotIncluded),
        Some(e) => Ok((id.clone(), e.clone())),
    }
}

/// Once a prefix of the included resources fails, the whole list fails alike.
proof fn lemma_patron_email_fails(incs: Seq<Json>, id: Seq<char>, i: int)
    requires
        0 <= i < incs.len(),
        patron_email_in(incs.subrange(0, i + 1), id) is Err,
    ensures
        patron_email_in(incs, id) == patron_email_in(incs.subrange(0, i + 1), id),
    decreases incs.len() - i,
{
    if i + 1 < incs.len() {
        assert(incs.subrange(0, i + 2).drop_last() =~= incs.subrange(0, i + 1));
        lemma_patron_email_fails(incs, id, i + 1);
    } else {
        assert(incs.subrange(0, i + 1) =~= incs);
    }
}

/// Says what a Patreon event asks for; `trigger` is the event its header names.
pub fn route_patreon_event(trigger: &str, body: &Json) -> (r: Result<PatreonEvent, PatreonError>)
    ensures
        r == patreon_route(trigger@, *body),
{
    let t = String::from_str(trigger);
    if t == String::from_str("pledges:create") {
        match read_pledge_patron(body) {
            Err(e) => Err(e),
            Ok((id, email)) => Ok(PatreonEvent::PledgeCreated { patron_id: id, email }),
        }
    } else if t == String::from_str("pledges:delete") {
        Ok(PatreonEvent::PledgeDeleted)
    } else {
        Ok(PatreonEvent::Unhandled)
    }
}

} // verus!
