//! Activation codes: an activation token and a license key joined by `.`.
use vstd::prelude::*;

verus! {

/// Index of the first `.` at or after `from`, or the length of `s` when there is none.
pub open spec fn next_dot(s: Seq<char>, from: int) -> int
    decreases s.len() - from,
{
    if from >= s.len() {
        s.len() as int
    } else if s[from] == '.' {
        from
    } else {
        next_dot(s, from + 1)
    }
}

/// True when `s` holds no `.`.
pub open spec fn dot_free(s: Seq<char>) -> bool {
    forall|i: int| 0 <= i < s.len() ==> s[i] != '.'
}

/// The second `.`-separated segment of a code, if the code has one.
pub open spec fn key_of(code: Seq<char>) -> Option<Seq<char>> {
    let first = next_dot(code, 0);
    if first >= code.len() {
        None
    } else {
        Some(code.subrange(first + 1, next_dot(code, first + 1)))
    }
}

/// The activation code built from a token and a license key.
pub open spec fn code_of(token: Seq<char>, key: Seq<char>) -> Seq<char> {
    token + seq!['.'] + key
}

/// Returns the license key held in an activation code: the text between
/// the first `.` and the next `.` (or the end).
pub fn license_key(code: &str) -> (r: Option<&str>)
    ensures
        match r {
            Some(k) => key_of(code@) == Some(k@),
            None => key_of(code@) is None,
        },
{
    let n = code.unicode_len();
    let mut i: usize = 0;
    while i < n && code.get_char(i) != '.'
        invariant
            n == code@.len(),
            i <= n,
            next_dot(code@, i as int) == next_dot(code@, 0),
        decreases n - i,
    {
        i = i + 1;
    }
    if i == n {
        return None;
    }
    let start = i + 1;
    let mut j: usize = start;
    while j < n && code.get_char(j) != '.'
        invariant
            n == code@.len(),
            start <= j <= n,
            next_dot(code@, j as int) == next_dot(code@, start as int),
        decreases n - j,
    {
        j = j + 1;
    }
    Some(code.substring_char(start, j))
}

/// Joins an activation token and a license key into an activation code.
pub fn activation_code(token: &str, key: &str) -> (r: String)
    ensures
        r@ == code_of(token@, key@),
{
    let dot = ".";
    proof {
        reveal_strlit(".");
    }
    let r = String::from_str(token).concat(dot).concat(key);
    assert(r@ =~= code_of(token@, key@));
    r
}

proof fn lemma_next_dot_at(s: Seq<char>, from: int, k: int)
    requires
        0 <= from <= k <= s.len(),
        k == s.len() || s[k] == '.',
        forall|j: int| from <= j < k ==> s[j] != '.',
    ensures
        next_dot(s, from) == k,
    decreases k - from,
{
    if from < k {
        lemma_next_dot_at(s, from + 1, k);
    }
}

/// A code built from a dot-free token and a dot-free key gives back that key.
pub proof fn lemma_key_of_code(token: Seq<char>, key: Seq<char>)
    requires
        dot_free(token),
        dot_free(key),
    ensures
        key_of(code_of(token, key)) == Some(key),
{
    let c = code_of(token, key);
    let t = token.len() as int;
    assert(c[t] == '.');
    assert forall|j: int| 0 <= j < t implies c[j] != '.' by {
        assert(c[j] == token[j]);
    }
    lemma_next_dot_at(c, 0, t);
    assert forall|j: int| t + 1 <= j < c.len() implies c[j] != '.' by {
        assert(c[j] == key[j - t - 1]);
    }
    lemma_next_dot_at(c, t + 1, c.len() as int);
    assert(c.subrange(t + 1, c.len() as int) =~= key);
}

} // verus!
