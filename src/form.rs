//! Form-encoded parameters: parsing, lookup, and the order of their names.
use vstd::prelude::*;

verus! {

/// Name and value pairs of a form-encoded text, in the order they appear.
pub uninterp spec fn form_pairs_of(body: Seq<char>) -> Seq<(Seq<char>, Seq<char>)>;

/// The views of a list of name and value pairs.
pub open spec fn text_pairs(v: Seq<(String, String)>) -> Seq<(Seq<char>, Seq<char>)> {
    v.map_values(|p: (String, String)| (p.0@, p.1@))
}

/// Relies on url's `form_urlencoded::parse` over the UTF-8 bytes of the body:
/// the decoded pairs, in order.
#[verifier::external_body]
pub(crate) fn parse_form(body: &str) -> (r: Vec<(String, String)>)
    ensures
        text_pairs(r@) == form_pairs_of(body@),
{
    url::form_urlencoded::parse(body.as_bytes()).into_owned().collect()
}

/// The value of parameter `k`: that of the last pair named `k`, as a map filled
/// from the pairs in order keeps it.
pub open spec fn param(ps: Seq<(Seq<char>, Seq<char>)>, k: Seq<char>) -> Option<Seq<char>>
    decreases ps.len(),
{
    if ps.len() == 0 {
        None
    } else if ps.last().0 == k {
        Some(ps.last().1)
    } else {
        param(ps.drop_last(), k)
    }
}

/// The value of parameter `k`, or the empty text when there is none.
pub open spec fn param_text(ps: Seq<(Seq<char>, Seq<char>)>, k: Seq<char>) -> Seq<char> {
    match param(ps, k) {
        Some(v) => v,
        None => seq![],
    }
}

/// The views of a list of strings.
pub open spec fn texts(v: Seq<String>) -> Seq<Seq<char>> {
    v.map_values(|s: String| s@)
}

/// The view of an optional string.
pub open spec fn opt_text(o: Option<String>) -> Option<Seq<char>> {
    match o {
        Some(s) => Some(s@),
        None => None,
    }
}

/// Lexicographic order of texts by character code, a proper prefix first.
pub open spec fn text_lt(a: Seq<char>, b: Seq<char>) -> bool
    decreases a.len(),
{
    if a.len() == 0 {
        b.len() > 0
    } else if b.len() == 0 {
        false
    } else if a[0] != b[0] {
        a[0] < b[0]
    } else {
        text_lt(a.drop_first(), b.drop_first())
    }
}

/// Texts in strictly increasing order.
pub open spec fn ascending(ks: Seq<Seq<char>>) -> bool {
    forall|i: int, j: int| 0 <= i < j < ks.len() ==> text_lt(#[trigger] ks[i], #[trigger] ks[j])
}

/// `ks` lists in increasing order the names of parameters in `ps`, but `skip`.
pub open spec fn is_name_listing(
    ps: Seq<(Seq<char>, Seq<char>)>,
    skip: Seq<char>,
    ks: Seq<Seq<char>>,
) -> bool {
    &&& ascending(ks)
    &&& forall|k: Seq<char>| ks.contains(k) <==> (param(ps, k) is Some && k != skip)
}

/// The names of the parameters in `ps`, but `skip`, in increasing order.
pub open spec fn name_listing(ps: Seq<(Seq<char>, Seq<char>)>, skip: Seq<char>) -> Seq<Seq<char>> {
    choose|ks: Seq<Seq<char>>| is_name_listing(ps, skip, ks)
}

/// The values of the parameters named in `ks`, one after the other.
pub open spec fn joined_values(ps: Seq<(Seq<char>, Seq<char>)>, ks: Seq<Seq<char>>) -> Seq<char>
    decreases ks.len(),
{
    if ks.len() == 0 {
        seq![]
    } else {
        joined_values(ps, ks.drop_last()) + param_text(ps, ks.last())
    }
}

/// No text precedes itself, and of two texts at most one precedes the other.
pub proof fn lemma_text_lt_asymmetric(a: Seq<char>, b: Seq<char>)
    ensures
        !(text_lt(a, b) && text_lt(b, a)),
    decreases a.len(),
{
    if a.len() > 0 && b.len() > 0 && a[0] == b[0] {
        lemma_text_lt_asymmetric(a.drop_first(), b.drop_first());
    }
}

/// Of two different texts one precedes the other.
pub proof fn lemma_text_lt_total(a: Seq<char>, b: Seq<char>)
    requires
        a != b,
    ensures
        text_lt(a, b) || text_lt(b, a),
    decreases a.len(),
{
    if a.len() > 0 && b.len() > 0 && a[0] == b[0] {
        if a.drop_first() == b.drop_first() {
            assert(a.drop_first().len() == a.len() - 1);
            assert(b.drop_first().len() == b.len() - 1);
            assert(a.len() == b.len());
            assert(a =~= b) by {
                assert forall|i: int| 0 <= i < a.len() implies a[i] == b[i] by {
                    if i > 0 {
                        assert(a[i] == a.drop_first()[i - 1]);
                        assert(b[i] == b.drop_first()[i - 1]);
                    }
                }
            }
        }
        lemma_text_lt_total(a.drop_first(), b.drop_first());
    } else if a.len() == 0 && b.len() == 0 {
        assert(a =~= b);
    }
}

/// The order of texts is transitive.
pub proof fn lemma_text_lt_transitive(a: Seq<char>, b: Seq<char>, c: Seq<char>)
    requires
        text_lt(a, b),
        text_lt(b, c),
    ensures
        text_lt(a, c),
    decreases a.len(),
{
    if a.len() > 0 && a[0] == b[0] && b[0] == c[0] {
        lemma_text_lt_transitive(a.drop_first(), b.drop_first(), c.drop_first());
    }
}

/// Two increasing listings of the same names are equal.
pub proof fn lemma_ascending_unique(k1: Seq<Seq<char>>, k2: Seq<Seq<char>>)
    requires
        ascending(k1),
        ascending(k2),
        forall|k: Seq<char>| k1.contains(k) <==> k2.contains(k),
    ensures
        k1 == k2,
    decreases k1.len(),
{
    if k1.len() == 0 {
        if k2.len() > 0 {
            assert(k2.contains(k2[0]));
        }
        assert(k1 =~= k2);
    } else {
        assert(k1.contains(k1[0]));
        let j = choose|j: int| 0 <= j < k2.len() && k2[j] == k1[0];
        assert(k2.contains(k2[0]));
        let i = choose|i: int| 0 <= i < k1.len() && k1[i] == k2[0];
        if k1[0] != k2[0] {
            assert(i > 0 && j > 0);
            assert(text_lt(k1[0], k1[i]));
            assert(text_lt(k2[0], k2[j]));
            lemma_text_lt_asymmetric(k1[0], k2[0]);
        }
        let t1 = k1.drop_first();
        let t2 = k2.drop_first();
        assert forall|k: Seq<char>| t1.contains(k) <==> t2.contains(k) by {
            if t1.contains(k) {
                let a = choose|a: int| 0 <= a < t1.len() && t1[a] == k;
                assert(k1[a + 1] == k);
                assert(text_lt(k1[0], k1[a + 1]));
                lemma_text_lt_asymmetric(k, k);
                assert(k1.contains(k));
                let b = choose|b: int| 0 <= b < k2.len() && k2[b] == k;
                assert(b != 0);
                assert(t2[b - 1] == k);
            }
            if t2.contains(k) {
                let a = choose|a: int| 0 <= a < t2.len() && t2[a] == k;
                assert(k2[a + 1] == k);
                assert(text_lt(k2[0], k2[a + 1]));
                lemma_text_lt_asymmetric(k, k);
                assert(k2.contains(k));
                let b = choose|b: int| 0 <= b < k1.len() && k1[b] == k;
                assert(b != 0);
                assert(t1[b - 1] == k);
            }
        }
        assert forall|a: int, b: int| 0 <= a < b < t1.len() implies text_lt(t1[a], t1[b]) by {
            assert(text_lt(k1[a + 1], k1[b + 1]));
        }
        assert forall|a: int, b: int| 0 <= a < b < t2.len() implies text_lt(t2[a], t2[b]) by {
            assert(text_lt(k2[a + 1], k2[b + 1]));
        }
        lemma_ascending_unique(t1, t2);
        assert(k1 =~= k2) by {
            assert forall|a: int| 0 <= a < k1.len() implies k1[a] == k2[a] by {
                if a > 0 {
                    assert(k1[a] == t1[a - 1]);
                }
            }
        }
    }
}

/// Whether text `a` precedes text `b`.
pub fn text_less(a: &str, b: &str) -> (r: bool)
    ensures
        r == text_lt(a@, b@),
{
    let n = a.unicode_len();
    let m = b.unicode_len();
    let mut i: usize = 0;
    assert(a@.skip(0) =~= a@);
    assert(b@.skip(0) =~= b@);
    while i < n && i < m
        invariant
            n == a@.len(),
            m == b@.len(),
            i <= n,
            i <= m,
            text_lt(a@, b@) == text_lt(a@.skip(i as int), b@.skip(i as int)),
        decreases n - i,
    {
        let x = a.get_char(i);
        let y = b.get_char(i);
        assert(a@.skip(i as int)[0] == x);
        assert(b@.skip(i as int)[0] == y);
        if x != y {
            return x < y;
        }
        assert(a@.skip(i as int).drop_first() =~= a@.skip(i + 1));
        assert(b@.skip(i as int).drop_first() =~= b@.skip(i + 1));
        i = i + 1;
    }
    i == n && i < m
}

/// The value of the last pair named `name`, if any.
pub fn find_param<'a>(pairs: &'a Vec<(String, String)>, name: &str) -> (r: Option<&'a String>)
    ensures
        match r {
            Some(v) => param(text_pairs(pairs@), name@) == Some(v@),
            None => param(text_pairs(pairs@), name@) is None,
        },
{
    let ghost ps = text_pairs(pairs@);
    let key = String::from_str(name);
    let mut i: usize = pairs.len();
    assert(ps.subrange(0, i as int) =~= ps);
    while i > 0
        invariant
            i <= pairs@.len(),
            ps == text_pairs(pairs@),
            key@ == name@,
            param(ps, name@) == param(ps.subrange(0, i as int), name@),
        decreases i,
    {
        assert(ps.subrange(0, i as int).drop_last() =~= ps.subrange(0, i - 1));
        if pairs[i - 1].0 == key {
            return Some(&pairs[i - 1].1);
        }
        i = i - 1;
    }
    None
}

} // verus!
