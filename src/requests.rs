//! Provisioning requests as they arrive at the boundary: a signed form, the
//! command line, or a new pledge. Quantities outside one to ten are refused
//! here, before any call is made.
use crate::form::{find_param, form_pairs_of, opt_text, param, parse_form, text_pairs};
use crate::provision::ProvisioningRequest;
use vstd::prelude::*;

verus! {

/// Largest number of licenses provisioned by one request.
pub const MAX_QUANTITY: u32 = 10;

/// Why a quantity was refused.
#[derive(PartialEq, Eq, Structural, Debug, Clone, Copy)]
pub enum QuantityError {
    /// Not a decimal number that fits in 32 bits.
    NotANumber,
    /// Zero licenses.
    Zero,
    /// More licenses than one request may ask for.
    TooMany,
}

/// A decimal digit.
pub open spec fn is_digit(c: char) -> bool {
    '0' <= c && c <= '9'
}

/// A non-empty string of decimal digits.
pub open spec fn is_digits(s: Seq<char>) -> bool {
    s.len() > 0 && forall|i: int| 0 <= i < s.len() ==> is_digit(#[trigger] s[i])
}

/// Value of a string of decimal digits.
pub open spec fn digits_value(s: Seq<char>) -> int
    decreases s.len(),
{
    if s.len() == 0 {
        0
    } else {
        digits_value(s.drop_last()) * 10 + (s.last() as int - 48)
    }
}

/// Value of an unsigned decimal number, with an optional leading `+`.
pub open spec fn decimal_value(s: Seq<char>) -> Option<int> {
    let d = if s.len() > 0 && s[0] == '+' {
        s.drop_first()
    } else {
        s
    };
    if is_digits(d) {
        Some(digits_value(d))
    } else {
        None
    }
}

/// The quantity that a text asks for, or why it is refused.
pub open spec fn quantity_of(s: Seq<char>) -> Result<u32, QuantityError> {
    match decimal_value(s) {
        None => Err(QuantityError::NotANumber),
        Some(v) => if v > u32::MAX {
            Err(QuantityError::NotANumber)
        } else if v == 0 {
            Err(QuantityError::Zero)
        } else if v > MAX_QUANTITY {
            Err(QuantityError::TooMany)
        } else {
            Ok(v as u32)
        },
    }
}

/// Reads a quantity of licenses: a decimal number from one to ten.
pub fn parse_quantity(s: &str) -> (r: Result<u32, QuantityError>)
    ensures
        r == quantity_of(s@),
        r matches Ok(q) ==> 1 <= q <= MAX_QUANTITY,
{
    let cap: u64 = 4294967296;
    let n = s.unicode_len();
    let mut start: usize = 0;
    if n > 0 && s.get_char(0) == '+' {
        start = 1;
    }
    let ghost d = if s@.len() > 0 && s@[0] == '+' {
        s@.drop_first()
    } else {
        s@
    };
    assert(d =~= s@.subrange(start as int, n as int));
    if start == n {
        return Err(QuantityError::NotANumber);
    }
    let mut value: u64 = 0;
    let mut i: usize = start;
    assert(s@.subrange(start as int, start as int) =~= seq![]);
    while i < n
        invariant
            n == s@.len(),
            start < n,
            start <= i <= n,
            d == s@.subrange(start as int, n as int),
            d == if s@.len() > 0 && s@[0] == '+' {
                s@.drop_first()
            } else {
                s@
            },
            forall|j: int| start <= j < i ==> is_digit(#[trigger] s@[j]),
            digits_value(s@.subrange(start as int, i as int)) >= 0,
            value == if digits_value(s@.subrange(start as int, i as int)) >= cap {
                cap as int
            } else {
                digits_value(s@.subrange(start as int, i as int))
            },
            cap == 4294967296,
        decreases n - i,
    {
        let c = s.get_char(i);
        if !('0' <= c && c <= '9') {
            assert(!is_digit(d[i - start]));
            return Err(QuantityError::NotANumber);
        }
        let ghost sub = s@.subrange(start as int, i + 1);
        assert(sub.drop_last() =~= s@.subrange(start as int, i as int));
        assert(sub.last() == c);
        let digit = (c as u32 - 48) as u64;
        if value < cap {
            value = value * 10 + digit;
            if value > cap {
                value = cap;
            }
        }
        i = i + 1;
    }
    assert(s@.subrange(start as int, n as int) =~= d);
    assert(is_digits(d));
    if value >= cap {
        Err(QuantityError::NotANumber)
    } else if value == 0 {
        Err(QuantityError::Zero)
    } else if value > MAX_QUANTITY as u64 {
        Err(QuantityError::TooMany)
    } else {
        Ok(value as u32)
    }
}

/// Why a license request was refused.
#[derive(PartialEq, Eq, Structural, Debug, Clone, Copy)]
pub enum RequestError {
    MissingSubscription,
    MissingPolicy,
    MissingQuantity,
    InvalidQuantity(QuantityError),
    /// The command line names neither a subscription nor an invoice.
    MissingReference,
}

/// Why the parameters `ps` of a license request are refused, if they are.
pub open spec fn form_request_error(ps: Seq<(Seq<char>, Seq<char>)>) -> Option<RequestError> {
    if param(ps, "subscription"@) is None {
        Some(RequestError::MissingSubscription)
    } else if param(ps, "policy"@) is None {
        Some(RequestError::MissingPolicy)
    } else {
        match param(ps, "quantity"@) {
            None => Some(RequestError::MissingQuantity),
            Some(q) => match quantity_of(q) {
                Err(e) => Some(RequestError::InvalidQuantity(e)),
                Ok(_) => None,
            },
        }
    }
}

/// Whether `req` is the request that the parameters `ps` make, for `account`.
pub open spec fn is_form_request(
    req: ProvisioningRequest,
    ps: Seq<(Seq<char>, Seq<char>)>,
    account: Seq<char>,
) -> bool {
    &&& req.account@ == account
    &&& param(ps, "subscription"@) == Some(req.subscription@)
    &&& param(ps, "policy"@) == Some(req.policy@)
    &&& param(ps, "quantity"@) matches Some(q) && quantity_of(q) == Ok::<u32, QuantityError>(
        req.quantity,
    )
    &&& req.invoice is None
    &&& !req.dry_run
}

/// The provisioning request that the parameters of a license request make.
pub fn request_from_params(pairs: &Vec<(String, String)>, account: &str) -> (r: Result<
    ProvisioningRequest,
    RequestError,
>)
    ensures
        match r {
            Ok(req) => form_request_error(text_pairs(pairs@)) is None && is_form_request(
                req,
                text_pairs(pairs@),
                account@,
            ),
            Err(e) => form_request_error(text_pairs(pairs@)) == Some(e),
        },
{
    let subscription = match find_param(pairs, "subscription") {
        None => return Err(RequestError::MissingSubscription),
        Some(s) => s,
    };
    let policy = match find_param(pairs, "policy") {
        None => return Err(RequestError::MissingPolicy),
        Some(p) => p,
    };
    let quantity = match find_param(pairs, "quantity") {
        None => return Err(RequestError::MissingQuantity),
        Some(q) => q,
    };
    match parse_quantity(quantity.as_str()) {
        Err(e) => Err(RequestError::InvalidQuantity(e)),
        Ok(q) => Ok(
            ProvisioningRequest {
                account: String::from_str(account),
                subscription: subscription.clone(),
                policy: policy.clone(),
                quantity: q,
                invoice: None,
                dry_run: false,
            },
        ),
    }
}

/// The provisioning request that a form-encoded license request body makes.
pub fn license_request(body: &str, account: &str) -> (r: Result<ProvisioningRequest, RequestError>)
    ensures
        match r {
            Ok(req) => form_request_error(form_pairs_of(body@)) is None && is_form_request(
                req,
                form_pairs_of(body@),
                account@,
            ),
            Err(e) => form_request_error(form_pairs_of(body@)) == Some(e),
        },
{
    let pairs = parse_form(body);
    request_from_params(&pairs, account)
}

/// The provisioning request of a manual issuance: it names a subscription or
/// an invoice, or both, and a quantity from one to ten.
pub fn manual_request(
    account: &str,
    policy: &str,
    count: &str,
    subscription: Option<&str>,
    invoice: Option<&str>,
    dry_run: bool,
) -> (r: Result<ProvisioningRequest, RequestError>)
    ensures
        subscription is None && invoice is None ==> r == Err::<ProvisioningRequest, RequestError>(
            RequestError::MissingReference,
        ),
        !(subscription is None && invoice is None) ==> match quantity_of(count@) {
            Err(e) => r == Err::<ProvisioningRequest, RequestError>(RequestError::InvalidQuantity(e)),
            Ok(q) => r matches Ok(req) && {
                &&& req.account@ == account@
                &&& req.policy@ == policy@
                &&& req.quantity == q
                &&& req.subscription@ == match subscription {
                    Some(s) => s@,
                    None => seq![],
                }
                &&& opt_text(req.invoice) == match invoice {
                    Some(i) => Some(i@),
                    None => None,
                }
                &&& req.dry_run == dry_run
            },
        },
{
    if subscription.is_none() && invoice.is_none() {
        return Err(RequestError::MissingReference);
    }
    let q = match parse_quantity(count) {
        Err(e) => return Err(RequestError::InvalidQuantity(e)),
        Ok(q) => q,
    };
    let subscription = match subscription {
        Some(s) => String::from_str(s),
        None => String::new(),
    };
    let invoice = match invoice {
        Some(i) => Some(String::from_str(i)),
        None => None,
    };
    Ok(
        ProvisioningRequest {
            account: String::from_str(account),
            subscription,
            policy: String::from_str(policy),
            quantity: q,
            invoice,
            dry_run,
        },
    )
}

/// The request that provisions the license of a new pledge: one license of
/// the given policy, for the `PATREON` subscription reference.
pub fn pledge_request(account: &str, policy: &str) -> (r: ProvisioningRequest)
    ensures
        r.account@ == account@,
        r.subscription@ == "PATREON"@,
        r.policy@ == policy@,
        r.quantity == 1,
        r.invoice is None,
        !r.dry_run,
{
    ProvisioningRequest {
        account: String::from_str(account),
        subscription: String::from_str("PATREON"),
        policy: String::from_str(policy),
        quantity: 1,
        invoice: None,
        dry_run: false,
    }
}

} // verus!
