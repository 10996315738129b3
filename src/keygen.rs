//! Calls to the remote licensing service: the requests that create,
//! suspend, reinstate and revoke licenses, and the reading of its replies.
use crate::encoding::hex_digit;
use crate::json::Json;
use vstd::prelude::*;

verus! {

/// HTTP method of a remote call.
#[derive(PartialEq, Eq, Structural, Debug, Clone, Copy)]
pub enum Method {
    Get,
    Post,
    Delete,
}

/// A request to send to a remote service; the caller adds the credentials.
#[derive(Debug)]
pub struct RemoteCall {
    pub method: Method,
    pub url: String,
    /// A JSON:API document, for the calls that carry one.
    pub body: Option<String>,
}

/// What can be done to an existing license.
#[derive(PartialEq, Eq, Structural, Debug, Clone, Copy)]
pub enum LicenseAction {
    Suspend,
    Reinstate,
    Revoke,
}

/// Root of an account's resources on the licensing service.
pub open spec fn account_url(account: Seq<char>) -> Seq<char> {
    "https://api.keygen.sh/v1/accounts/"@ + account
}

/// The collection of an account's licenses.
pub open spec fn licenses_url(account: Seq<char>) -> Seq<char> {
    account_url(account) + "/licenses"@
}

/// One license of an account, by id or key.
pub open spec fn license_url(account: Seq<char>, license: Seq<char>) -> Seq<char> {
    licenses_url(account) + "/"@ + license
}

/// Verb of an action that is posted to a license's actions.
pub open spec fn action_verb(action: LicenseAction) -> Seq<char> {
    match action {
        LicenseAction::Suspend => "suspend"@,
        LicenseAction::Reinstate => "reinstate"@,
        LicenseAction::Revoke => "revoke"@,
    }
}

/// Whether `call` carries out `action` on the license with the given key.
pub open spec fn is_action_call(
    call: RemoteCall,
    account: Seq<char>,
    key: Seq<char>,
    action: LicenseAction,
) -> bool {
    match action {
        LicenseAction::Revoke => {
            &&& call.method == Method::Delete
            &&& call.url@ == license_url(account, key)
            &&& call.body is None
        },
        _ => {
            &&& call.method == Method::Post
            &&& call.url@ == license_url(account, key) + "/actions/"@ + action_verb(action)
            &&& call.body is None
        },
    }
}

/// The call that carries out an action on a license, by license key.
pub fn modify_license(account: &str, key: &str, action: LicenseAction) -> (r: RemoteCall)
    ensures
        is_action_call(r, account@, key@, action),
{
    let url = String::from_str("https://api.keygen.sh/v1/accounts/").concat(account).concat(
        "/licenses",
    ).concat("/").concat(key);
    match action {
        LicenseAction::Revoke => RemoteCall { method: Method::Delete, url, body: None },
        LicenseAction::Suspend => RemoteCall {
            method: Method::Post,
            url: url.concat("/actions/").concat("suspend"),
            body: None,
        },
        LicenseAction::Reinstate => RemoteCall {
            method: Method::Post,
            url: url.concat("/actions/").concat("reinstate"),
            body: None,
        },
    }
}

/// Suspends a license by license key.
pub fn suspend_license(account: &str, key: &str) -> (r: RemoteCall)
    ensures
        is_action_call(r, account@, key@, LicenseAction::Suspend),
{
    modify_license(account, key, LicenseAction::Suspend)
}

/// Reinstates a suspended license by license key.
pub fn reinstate_license(account: &str, key: &str) -> (r: RemoteCall)
    ensures
        is_action_call(r, account@, key@, LicenseAction::Reinstate),
{
    modify_license(account, key, LicenseAction::Reinstate)
}

/// Revokes (deletes) a license by license key.
pub fn revoke_license(account: &str, key: &str) -> (r: RemoteCall)
    ensures
        is_action_call(r, account@, key@, LicenseAction::Revoke),
{
    modify_license(account, key, LicenseAction::Revoke)
}

/// A character as it stands inside a JSON string literal.
pub open spec fn json_escape(c: char) -> Seq<char> {
    if c == '"' {
        seq!['\\', '"']
    } else if c == '\\' {
        seq!['\\', '\\']
    } else if c == '\n' {
        seq!['\\', 'n']
    } else if c == '\r' {
        seq!['\\', 'r']
    } else if c == '\t' {
        seq!['\\', 't']
    } else if c == '\x08' {
        seq!['\\', 'b']
    } else if c == '\x0c' {
        seq!['\\', 'f']
    } else if (c as int) < 32 {
        seq!['\\', 'u', '0', '0', hex_digit(c as int / 16), hex_digit(c as int % 16)]
    } else {
        seq![c]
    }
}

/// The characters of a text, each escaped.
pub open spec fn json_escaped(s: Seq<char>) -> Seq<char>
    decreases s.len(),
{
    if s.len() == 0 {
        seq![]
    } else {
        json_escaped(s.drop_last()) + json_escape(s.last())
    }
}

/// A text written as a JSON string literal.
pub open spec fn json_quoted(s: Seq<char>) -> Seq<char> {
    seq!['"'] + json_escaped(s) + seq!['"']
}

/// Relies on serde_json::to_string on a string: the string literal, quoted,
/// with `"`, `\` and control characters escaped. It does not fail on a string.
#[verifier::external_body]
fn json_string(s: &str) -> (r: String)
    ensures
        r@ == json_quoted(s@),
{
    serde_json::to_string(s).unwrap()
}

/// The document that asks for a license with the given key and policy,
/// carrying the subscription and invoice references as metadata.
pub open spec fn create_license_body(
    key: Seq<char>,
    policy: Seq<char>,
    subscription: Seq<char>,
    invoice: Seq<char>,
) -> Seq<char> {
    "{\"data\":{\"type\":\"licenses\",\"attributes\":{\"key\":"@ + json_quoted(key)
        + ",\"metadata\":{\"fastSpringSubscriptionId\":"@ + json_quoted(subscription)
        + ",\"invoiceId\":"@ + json_quoted(invoice)
        + "}},\"relationships\":{\"policy\":{\"data\":{\"type\":\"policies\",\"id\":"@
        + json_quoted(policy) + "}}}}}"@
}

/// The document that asks for an activation token.
pub open spec fn create_token_body() -> Seq<char> {
    "{\"data\":{\"type\":\"tokens\",\"attributes\":{}}}"@
}

/// Whether `call` asks for a new license.
pub open spec fn is_create_call(
    call: RemoteCall,
    account: Seq<char>,
    key: Seq<char>,
    policy: Seq<char>,
    subscription: Seq<char>,
    invoice: Seq<char>,
) -> bool {
    &&& call.method == Method::Post
    &&& call.url@ == licenses_url(account)
    &&& call.body matches Some(b) && b@ == create_license_body(key, policy, subscription, invoice)
}

/// Whether `call` asks for an activation token of the license with the given id.
pub open spec fn is_token_call(call: RemoteCall, account: Seq<char>, license_id: Seq<char>) -> bool {
    &&& call.method == Method::Post
    &&& call.url@ == license_url(account, license_id) + "/tokens"@
    &&& call.body matches Some(b) && b@ == create_token_body()
}

/// The call that asks for a new license.
pub fn create_license_call(
    account: &str,
    key: &str,
    policy: &str,
    subscription: &str,
    invoice: &str,
) -> (r: RemoteCall)
    ensures
        is_create_call(r, account@, key@, policy@, subscription@, invoice@),
{
    let url = String::from_str("https://api.keygen.sh/v1/accounts/").concat(account).concat(
        "/licenses",
    );
    let k = json_string(key);
    let s = json_string(subscription);
    let i = json_string(invoice);
    let p = json_string(policy);
    let body = String::from_str("{\"data\":{\"type\":\"licenses\",\"attributes\":{\"key\":").concat(
        k.as_str(),
    ).concat(",\"metadata\":{\"fastSpringSubscriptionId\":").concat(s.as_str()).concat(
        ",\"invoiceId\":",
    ).concat(i.as_str()).concat(
        "}},\"relationships\":{\"policy\":{\"data\":{\"type\":\"policies\",\"id\":",
    ).concat(p.as_str()).concat("}}}}}");
    RemoteCall { method: Method::Post, url, body: Some(body) }
}

/// The call that asks for an activation token of a license, by license id.
pub fn create_token_call(account: &str, license_id: &str) -> (r: RemoteCall)
    ensures
        is_token_call(r, account@, license_id@),
{
    let url = String::from_str("https://api.keygen.sh/v1/accounts/").concat(account).concat(
        "/licenses",
    ).concat("/").concat(license_id).concat("/tokens");
    let body = String::from_str("{\"data\":{\"type\":\"tokens\",\"attributes\":{}}}");
    RemoteCall { method: Method::Post, url, body: Some(body) }
}

/// Member `b` of member `a`.
pub open spec fn field2(j: Json, a: Seq<char>, b: Seq<char>) -> Option<Json> {
    match j.field(a) {
        Some(x) => x.field(b),
        None => None,
    }
}

/// The string at member `c` of member `b` of member `a`.
pub open spec fn string3(j: Json, a: Seq<char>, b: Seq<char>, c: Seq<char>) -> Option<String> {
    match field2(j, a, b) {
        Some(x) => x.string_at(c),
        None => None,
    }
}

/// Id and key of the license that a create reply describes.
pub open spec fn created_license(reply: Json) -> Option<(String, String)> {
    match (
        match reply.field("data"@) {
            Some(d) => d.string_at("id"@),
            None => None,
        },
        string3(reply, "data"@, "attributes"@, "key"@),
    ) {
        (Some(id), Some(key)) => Some((id, key)),
        _ => None,
    }
}

/// The activation token that a token reply holds.
pub open spec fn minted_token(reply: Json) -> Option<String> {
    string3(reply, "data"@, "attributes"@, "token"@)
}

fn str_at3<'a>(j: &'a Json, a: &str, b: &str, c: &str) -> (r: Option<&'a String>)
    ensures
        match r {
            Some(s) => string3(*j, a@, b@, c@) == Some(*s),
            None => string3(*j, a@, b@, c@) is None,
        },
{
    match j.get(a) {
        None => None,
        Some(x) => match x.get(b) {
            None => None,
            Some(y) => y.str_at(c),
        },
    }
}

/// Reads the id and key of the license that a create reply describes.
pub fn read_created_license(reply: &Json) -> (r: Option<(String, String)>)
    ensures
        r == created_license(*reply),
{
    let id = match reply.get("data") {
        None => return None,
        Some(d) => match d.str_at("id") {
            None => None,
            Some(id) => Some(id.clone()),
        },
    };
    let key = match str_at3(reply, "data", "attributes", "key") {
        None => None,
        Some(k) => Some(k.clone()),
    };
    match (id, key) {
        (Some(id), Some(key)) => Some((id, key)),
        _ => None,
    }
}

/// Reads the activation token that a token reply holds.
pub fn read_minted_token(reply: &Json) -> (r: Option<String>)
    ensures
        r == minted_token(*reply),
{
    match str_at3(reply, "data", "attributes", "token") {
        None => None,
        Some(t) => Some(t.clone()),
    }
}

} // verus!
