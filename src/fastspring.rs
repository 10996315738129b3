//! FastSpring: authentication of its license requests and webhooks, and the
//! call that fetches a subscription's order entries.
use crate::crypto::{hmac_sha256, hmac_sha256_of, md5_of_text, md5_text};
use crate::encoding::{base64_encode, base64_std, hex_encode, hex_lower};
use crate::keygen::{Method, RemoteCall};
use crate::form::{
    ascending, form_pairs_of, is_name_listing, joined_values, lemma_ascending_unique,
    lemma_text_lt_asymmetric, lemma_text_lt_total, lemma_text_lt_transitive, name_listing,
    opt_text, param, param_text, parse_form, text_less, text_lt, text_pairs,
};
use vstd::prelude::*;

verus! {

/// Name of the parameter that carries the signature of a license request.
pub open spec fn signature_param() -> Seq<char> {
    "security_request_hash"@
}

/// The text whose MD5 signs a license request: the values of all other
/// parameters in increasing order of their names, then the private key.
pub open spec fn license_gen_text(ps: Seq<(Seq<char>, Seq<char>)>, key: Seq<char>) -> Seq<char> {
    joined_values(ps, name_listing(ps, signature_param())) + key
}

/// The names of the pairs at the given indices.
pub open spec fn names_at(ps: Seq<(Seq<char>, Seq<char>)>, order: Seq<usize>) -> Seq<Seq<char>> {
    order.map_values(|o: usize| ps[o as int].0)
}

/// Splits the parameters of a license request into its signature and the text
/// that the signature covers, ending with the private key `key`.
pub fn license_gen_message(pairs: &Vec<(String, String)>, key: &str) -> (r: (Option<String>, String))
    ensures
        opt_text(r.0) == param(text_pairs(pairs@), signature_param()),
        r.1@ == license_gen_text(text_pairs(pairs@), key@),
{
    let ghost ps = text_pairs(pairs@);
    let ghost skip = signature_param();
    let sig_name = String::from_str("security_request_hash");
    let mut sig: Option<String> = None;
    let mut order: Vec<usize> = Vec::new();
    let n = pairs.len();
    let mut i: usize = 0;
    while i < n
        invariant
            n == pairs@.len(),
            i <= n,
            ps == text_pairs(pairs@),
            sig_name@ == skip,
            opt_text(sig) == param(ps.subrange(0, i as int), skip),
            forall|p: int| 0 <= p < order@.len() ==> order@[p] < i,
            ascending(names_at(ps, order@)),
            forall|p: int|
                0 <= p < order@.len() ==> param(ps.subrange(0, i as int), #[trigger] ps[order@[p] as int].0)
                    == Some(ps[order@[p] as int].1),
            forall|k: Seq<char>|
                names_at(ps, order@).contains(k) <==> (param(ps.subrange(0, i as int), k) is Some && k
                    != skip),
        decreases n - i,
    {
        let ghost pre = ps.subrange(0, i as int);
        let ghost post = ps.subrange(0, i + 1);
        let ghost name = ps[i as int].0;
        assert(post.drop_last() =~= pre);
        assert(post.last() == ps[i as int]);
        let ghost old_names = names_at(ps, order@);
        if pairs[i].0 == sig_name {
            sig = Some(pairs[i].1.clone());
            assert forall|q: int|
                0 <= q < order@.len() implies param(post, #[trigger] ps[order@[q] as int].0)
                    == Some(ps[order@[q] as int].1) by {
                assert(old_names[q] == ps[order@[q] as int].0);
                assert(old_names.contains(old_names[q]));
            }
            assert forall|k: Seq<char>|
                names_at(ps, order@).contains(k) <==> (param(post, k) is Some && k != skip) by {
                if k != skip {
                    assert(param(post, k) == param(pre, k));
                }
            }
        } else {
            let mut p: usize = 0;
            while p < order.len() && !(pairs[order[p]].0 == pairs[i].0)
                invariant
                    n == pairs@.len(),
                    i < n,
                    ps == text_pairs(pairs@),
                    name == ps[i as int].0,
                    p <= order@.len(),
                    forall|q: int| 0 <= q < order@.len() ==> order@[q] < i,
                    forall|q: int| 0 <= q < p ==> ps[order@[q] as int].0 != name,
                decreases order@.len() - p,
            {
                p = p + 1;
            }
            if p < order.len() {
                order.set(p, i);
                assert(names_at(ps, order@) =~= old_names);
                assert forall|q: int|
                    0 <= q < order@.len() implies param(post, #[trigger] ps[order@[q] as int].0)
                        == Some(ps[order@[q] as int].1) by {
                    if q == p {
                        assert(ps[order@[q] as int] == ps[i as int]);
                    } else {
                        assert(old_names[q] != name) by {
                            lemma_text_lt_asymmetric(name, name);
                            if q < p {
                                assert(text_lt(old_names[q], old_names[p as int]));
                            } else {
                                assert(text_lt(old_names[p as int], old_names[q]));
                            }
                        }
                    }
                }
                assert forall|k: Seq<char>|
                    names_at(ps, order@).contains(k) <==> (param(post, k) is Some && k != skip) by {
                    if k != name {
                        assert(param(post, k) == param(pre, k));
                    } else {
                        assert(names_at(ps, order@)[p as int] == k);
                    }
                }
            } else {
                assert(!old_names.contains(name));
                let mut q: usize = 0;
                while q < order.len() && !text_less(pairs[i].0.as_str(), pairs[order[q]].0.as_str())
                    invariant
                        n == pairs@.len(),
                        i < n,
                        ps == text_pairs(pairs@),
                        name == ps[i as int].0,
                        q <= order@.len(),
                        old_names == names_at(ps, order@),
                        forall|r: int| 0 <= r < order@.len() ==> order@[r] < i,
                        forall|r: int| 0 <= r < q ==> !text_lt(name, #[trigger] old_names[r]),
                    decreases order@.len() - q,
                {
                    q = q + 1;
                }
                order.insert(q, i);
                let ghost new_names = names_at(ps, order@);
                assert(new_names =~= old_names.insert(q as int, name));
                assert forall|r: int| 0 <= r < q implies text_lt(#[trigger] old_names[r], name) by {
                    assert(old_names.contains(old_names[r]));
                    lemma_text_lt_total(old_names[r], name);
                }
                assert forall|r: int| q <= r < old_names.len() implies text_lt(
                    name,
                    #[trigger] old_names[r],
                ) by {
                    if r > q {
                        lemma_text_lt_transitive(name, old_names[q as int], old_names[r]);
                    }
                }
                assert forall|a: int, b: int| 0 <= a < b < new_names.len() implies text_lt(
                    #[trigger] new_names[a],
                    #[trigger] new_names[b],
                ) by {
                    if b < q {
                        assert(text_lt(old_names[a], old_names[b]));
                    } else if b == q {
                        assert(text_lt(old_names[a], name));
                    } else if a < q {
                        assert(text_lt(old_names[a], name));
                        assert(text_lt(name, old_names[b - 1]));
                        lemma_text_lt_transitive(old_names[a], name, old_names[b - 1]);
                    } else if a == q {
                        assert(text_lt(name, old_names[b - 1]));
                    } else {
                        assert(text_lt(old_names[a - 1], old_names[b - 1]));
                    }
                }
                assert forall|r: int|
                    0 <= r < order@.len() implies param(post, #[trigger] ps[order@[r] as int].0)
                        == Some(ps[order@[r] as int].1) by {
                    if r != q {
                        let r0 = if r < q {
                            r
                        } else {
                            r - 1
                        };
                        assert(new_names[r] == old_names[r0]);
                        assert(old_names.contains(old_names[r0]));
                    }
                }
                assert forall|k: Seq<char>|
                    new_names.contains(k) <==> (param(post, k) is Some && k != skip) by {
                    if k != name {
                        assert(param(post, k) == param(pre, k));
                        if old_names.contains(k) {
                            let r = choose|r: int| 0 <= r < old_names.len() && old_names[r] == k;
                            if r < q {
                                assert(new_names[r] == k);
                            } else {
                                assert(new_names[r + 1] == k);
                            }
                        }
                        if new_names.contains(k) {
                            let r = choose|r: int| 0 <= r < new_names.len() && new_names[r] == k;
                            if r < q {
                                assert(old_names[r] == k);
                            } else {
                                assert(old_names[r - 1] == k);
                            }
                        }
                    } else {
                        assert(new_names[q as int] == k);
                    }
                }
            }
        }
        i = i + 1;
    }
    assert(ps.subrange(0, n as int) =~= ps);
    let ghost names = names_at(ps, order@);
    let mut msg = String::new();
    let mut p: usize = 0;
    while p < order.len()
        invariant
            n == pairs@.len(),
            ps == text_pairs(pairs@),
            p <= order@.len(),
            names == names_at(ps, order@),
            forall|q: int| 0 <= q < order@.len() ==> order@[q] < n,
            forall|q: int|
                0 <= q < order@.len() ==> param(ps, #[trigger] ps[order@[q] as int].0) == Some(
                    ps[order@[q] as int].1,
                ),
            msg@ == joined_values(ps, names.subrange(0, p as int)),
        decreases order@.len() - p,
    {
        assert(names.subrange(0, p + 1).drop_last() =~= names.subrange(0, p as int));
        assert(names[p as int] == ps[order@[p as int] as int].0);
        msg.append(pairs[order[p]].1.as_str());
        p = p + 1;
    }
    assert(names.subrange(0, order@.len() as int) =~= names);
    msg.append(key);
    proof {
        assert(is_name_listing(ps, skip, names));
        lemma_ascending_unique(names, name_listing(ps, skip));
    }
    (sig, msg)
}

/// Whether a license request's signature is the lowercase hex of the digest.
pub fn signature_matches_digest(sig: &Option<String>, digest: &[u8]) -> (r: bool)
    ensures
        r == (opt_text(*sig) == Some(hex_lower(digest@))),
{
    let expected = hex_encode(digest);
    match sig {
        None => false,
        Some(s) => *s == expected,
    }
}

/// Authenticates a license request: its `security_request_hash` parameter must
/// hold the lowercase hex MD5 of the text that the other parameters and the
/// private key make.
pub fn verify_license_gen(body: &str, key: &str) -> (r: bool)
    ensures
        r == (param(form_pairs_of(body@), signature_param()) == Some(
            hex_lower(md5_of_text(license_gen_text(form_pairs_of(body@), key@))),
        )),
{
    let pairs = parse_form(body);
    let (sig, msg) = license_gen_message(&pairs, key);
    let digest = md5_text(msg.as_str());
    signature_matches_digest(&sig, digest.as_slice())
}

/// Whether a webhook signature header holds the base64 of the given MAC.
pub fn signature_matches_mac(mac: &[u8], signature: Option<&str>) -> (r: bool)
    ensures
        r == (signature matches Some(s) && s@ == base64_std(mac@)),
{
    match signature {
        None => false,
        Some(s) => {
            let expected = base64_encode(mac);
            String::from_str(s) == expected
        },
    }
}

/// Authenticates a webhook: its `X-FS-Signature` header must hold the base64
/// HMAC-SHA256 of the raw body under the webhook secret. A missing header fails.
pub fn authentify_web_hook(body: &[u8], signature: Option<&str>, secret: &[u8]) -> (r: bool)
    ensures
        r == (signature matches Some(s) && s@ == base64_std(hmac_sha256_of(secret@, body@))),
{
    let mac = hmac_sha256(secret, body);
    signature_matches_mac(mac.as_slice(), signature)
}

/// The call that fetches the order entries of a FastSpring subscription.
pub fn get_subscription_entries(subscription_id: &str) -> (r: RemoteCall)
    ensures
        r.method == Method::Get,
        r.url@ == "https://api.fastspring.com/subscriptions/"@ + subscription_id@ + "/entries"@,
        r.body is None,
{
    let url = String::from_str("https://api.fastspring.com/subscriptions/").concat(
        subscription_id,
    ).concat("/entries");
    RemoteCall { method: Method::Get, url, body: None }
}

} // verus!
