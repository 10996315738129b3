//! Resolution of the activation codes that a subscription's original order
//! fulfilled.
use crate::form::texts;
use crate::json::Json;
use vstd::prelude::*;

verus! {

/// Why the codes of a subscription's orders could not be resolved.
#[derive(PartialEq, Eq, Structural, Debug, Clone, Copy)]
pub enum OrderError {
    /// The list of order entries is not an array.
    EntriesNotArray,
    /// No entry has a reference without the billing suffix.
    OriginalOrderNotFound,
    /// The original order has no array of items.
    ItemsNotArray,
    /// An item has no object of fulfillments.
    FulfillmentsNotObject,
}

/// References of billing orders end with `B`.
pub open spec fn is_billing_reference(r: Seq<char>) -> bool {
    r.len() > 0 && r.last() == 'B'
}

/// An entry whose order has a string reference without the billing suffix.
pub open spec fn is_original_order(entry: Json) -> bool {
    match entry.field("order"@) {
        Some(o) => match o.string_at("reference"@) {
            Some(r) => !is_billing_reference(r@),
            None => false,
        },
        None => false,
    }
}

/// Index of the first original order at or after `from`.
pub open spec fn first_original(es: Seq<Json>, from: int) -> Option<int>
    decreases es.len() - from,
{
    if from < 0 || from >= es.len() {
        None
    } else if is_original_order(es[from]) {
        Some(from)
    } else {
        first_original(es, from + 1)
    }
}

/// Codes held by the `license` strings of fulfillment entries; other entries are skipped.
pub open spec fn leaf_codes(leaves: Seq<Json>) -> Seq<Seq<char>>
    decreases leaves.len(),
{
    if leaves.len() == 0 {
        seq![]
    } else {
        leaf_codes(leaves.drop_last()) + match leaves.last().string_at("license"@) {
            Some(c) => seq![c@],
            None => seq![],
        }
    }
}

/// Codes of the fulfillment groups of an item; a group that is no array is skipped.
pub open spec fn group_codes(groups: Seq<(String, Json)>) -> Seq<Seq<char>>
    decreases groups.len(),
{
    if groups.len() == 0 {
        seq![]
    } else {
        group_codes(groups.drop_last()) + match groups.last().1.elements() {
            Some(ls) => leaf_codes(ls),
            None => seq![],
        }
    }
}

/// Codes of a list of items, or none when an item has no object of fulfillments.
pub open spec fn item_codes(items: Seq<Json>) -> Option<Seq<Seq<char>>>
    decreases items.len(),
{
    if items.len() == 0 {
        Some(seq![])
    } else {
        match item_codes(items.drop_last()) {
            None => None,
            Some(acc) => match items.last().field("fulfillments"@) {
                Some(f) => match f.members() {
                    Some(gs) => Some(acc + group_codes(gs)),
                    None => None,
                },
                None => None,
            },
        }
    }
}

/// The items of an entry's order, if they form an array.
pub open spec fn order_items(entry: Json) -> Option<Seq<Json>> {
    match entry.field("order"@) {
        Some(o) => match o.field("items"@) {
            Some(items) => items.elements(),
            None => None,
        },
        None => None,
    }
}

/// The codes that the original order among `entries` fulfilled, in order.
pub open spec fn subscription_codes(entries: Json) -> Result<Seq<Seq<char>>, OrderError> {
    match entries.elements() {
        None => Err(OrderError::EntriesNotArray),
        Some(es) => match first_original(es, 0) {
            None => Err(OrderError::OriginalOrderNotFound),
            Some(i) => match order_items(es[i]) {
                None => Err(OrderError::ItemsNotArray),
                Some(items) => match item_codes(items) {
                    None => Err(OrderError::FulfillmentsNotObject),
                    Some(cs) => Ok(cs),
                },
            },
        },
    }
}

/// Whether an entry is an original order.
pub fn is_original(entry: &Json) -> (r: bool)
    ensures
        r == is_original_order(*entry),
{
    match entry.get("order") {
        None => false,
        Some(o) => match o.str_at("reference") {
            None => false,
            Some(r) => {
                let n = r.as_str().unicode_len();
                !(n > 0 && r.as_str().get_char(n - 1) == 'B')
            },
        },
    }
}

/// Index of the original order among the entries: the first whose reference
/// does not end with `B`.
pub fn original_order(entries: &Vec<Json>) -> (r: Option<usize>)
    ensures
        match r {
            Some(i) => first_original(entries@, 0) == Some(i as int),
            None => first_original(entries@, 0) is None,
        },
{
    let mut i: usize = 0;
    while i < entries.len()
        invariant
            i <= entries@.len(),
            first_original(entries@, 0) == first_original(entries@, i as int),
        decreases entries@.len() - i,
    {
        if is_original(&entries[i]) {
            return Some(i);
        }
        i = i + 1;
    }
    None
}

/// Appends the codes of fulfillment entries to `out`.
fn push_leaf_codes(leaves: &Vec<Json>, out: &mut Vec<String>)
    ensures
        texts(final(out)@) == texts(old(out)@) + leaf_codes(leaves@),
{
    let mut i: usize = 0;
    while i < leaves.len()
        invariant
            i <= leaves@.len(),
            texts(out@) == texts(old(out)@) + leaf_codes(leaves@.subrange(0, i as int)),
        decreases leaves@.len() - i,
    {
        assert(leaves@.subrange(0, i + 1).drop_last() =~= leaves@.subrange(0, i as int));
        assert(leaves@.subrange(0, i + 1).last() == leaves@[i as int]);
        let ghost prev = out@;
        match leaves[i].str_at("license") {
            Some(c) => {
                out.push(c.clone());
                assert(texts(out@) =~= texts(prev).push(c@));
                assert(texts(out@) =~= texts(old(out)@) + leaf_codes(leaves@.subrange(0, i + 1)));
            },
            None => {
                assert(texts(out@) =~= texts(old(out)@) + leaf_codes(leaves@.subrange(0, i + 1)));
            },
        }
        i = i + 1;
    }
    assert(leaves@.subrange(0, leaves@.len() as int) =~= leaves@);
}

/// Appends the codes of an item's fulfillment groups to `out`.
fn push_group_codes(groups: &Vec<(String, Json)>, out: &mut Vec<String>)
    ensures
        texts(final(out)@) == texts(old(out)@) + group_codes(groups@),
{
    let mut i: usize = 0;
    while i < groups.len()
        invariant
            i <= groups@.len(),
            texts(out@) == texts(old(out)@) + group_codes(groups@.subrange(0, i as int)),
        decreases groups@.len() - i,
    {
        assert(groups@.subrange(0, i + 1).drop_last() =~= groups@.subrange(0, i as int));
        assert(groups@.subrange(0, i + 1).last() == groups@[i as int]);
        match groups[i].1.as_array() {
            Some(leaves) => {
                push_leaf_codes(leaves, out);
            },
            None => {},
        }
        assert(texts(out@) =~= texts(old(out)@) + group_codes(groups@.subrange(0, i + 1)));
        i = i + 1;
    }
    assert(groups@.subrange(0, groups@.len() as int) =~= groups@);
}

/// The activation codes that the original order among a subscription's
/// entries fulfilled, in order of items, fulfillment groups and entries.
pub fn licenses_to_revoke(entries: &Json) -> (r: Result<Vec<String>, OrderError>)
    ensures
        match r {
            Ok(v) => subscription_codes(*entries) == Ok::<Seq<Seq<char>>, OrderError>(texts(v@)),
            Err(e) => subscription_codes(*entries) == Err::<Seq<Seq<char>>, OrderError>(e),
        },
{
    let es = match entries.as_array() {
        None => return Err(OrderError::EntriesNotArray),
        Some(es) => es,
    };
    let i = match original_order(es) {
        None => return Err(OrderError::OriginalOrderNotFound),
        Some(i) => i,
    };
    proof {
        lemma_first_original_in(es@, 0);
    }
    let items = match entries_items(&es[i]) {
        None => return Err(OrderError::ItemsNotArray),
        Some(items) => items,
    };
    let ghost found = match item_codes(items@) {
        None => Err(OrderError::FulfillmentsNotObject),
        Some(cs) => Ok(cs),
    };
    assert(subscription_codes(*entries) == found);
    let mut out: Vec<String> = Vec::new();
    let mut j: usize = 0;
    while j < items.len()
        invariant
            j <= items@.len(),
            subscription_codes(*entries) == found,
            found == match item_codes(items@) {
                None => Err(OrderError::FulfillmentsNotObject),
                Some(cs) => Ok::<Seq<Seq<char>>, OrderError>(cs),
            },
            item_codes(items@.subrange(0, j as int)) == Some(texts(out@)),
        decreases items@.len() - j,
    {
        assert(items@.subrange(0, j + 1).drop_last() =~= items@.subrange(0, j as int));
        assert(items@.subrange(0, j + 1).last() == items@[j as int]);
        let groups = match items[j].get("fulfillments") {
            None => {
                proof {
                    lemma_item_codes_fail(items@, j as int);
                }
                return Err(OrderError::FulfillmentsNotObject);
            },
            Some(f) => match f.as_object() {
                None => {
                    proof {
                        lemma_item_codes_fail(items@, j as int);
                    }
                    return Err(OrderError::FulfillmentsNotObject);
                },
                Some(gs) => gs,
            },
        };
        push_group_codes(groups, &mut out);
        j = j + 1;
    }
    assert(items@.subrange(0, items@.len() as int) =~= items@);
    Ok(out)
}

/// The items of an entry's order, if they form an array.
fn entries_items(entry: &Json) -> (r: Option<&Vec<Json>>)
    ensures
        match r {
            Some(v) => order_items(*entry) == Some(v@),
            None => order_items(*entry) is None,
        },
{
    match entry.get("order") {
        None => None,
        Some(o) => match o.get("items") {
            None => None,
            Some(items) => items.as_array(),
        },
    }
}

/// The first original order at or after `from` is one, and stands in the list.
proof fn lemma_first_original_in(es: Seq<Json>, from: int)
    ensures
        first_original(es, from) matches Some(i) ==> from <= i < es.len() && is_original_order(
            es[i],
        ),
    decreases es.len() - from,
{
    if 0 <= from < es.len() && !is_original_order(es[from]) {
        lemma_first_original_in(es, from + 1);
    }
}

/// Once an item lacks an object of fulfillments, no longer list of items has codes.
proof fn lemma_item_codes_fail(items: Seq<Json>, j: int)
    requires
        0 <= j < items.len(),
        item_codes(items.subrange(0, j + 1)) is None,
    ensures
        item_codes(items) is None,
    decreases items.len() - j,
{
    if j + 1 < items.len() {
        assert(items.subrange(0, j + 2).drop_last() =~= items.subrange(0, j + 1));
        lemma_item_codes_fail(items, j + 1);
    } else {
        assert(items.subrange(0, j + 1) =~= items);
    }
}

} // verus!
