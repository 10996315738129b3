//! Provisioning of licenses: for each unit, a license is created with a random
//! key and an activation token is minted for it. Units are processed one after
//! the other; a failed unit is recorded and the next one goes on.
use crate::code::{activation_code, code_of, dot_free, key_of, lemma_key_of_code};
use crate::crypto::random_16_bytes;
use crate::encoding::{hex_encode, hex_lower};
use crate::json::Json;
use crate::keygen::{
    create_license_call, create_token_call, created_license, is_create_call, is_token_call,
    minted_token, read_created_license, read_minted_token, RemoteCall,
};
use crate::form::texts;
use vstd::prelude::*;

verus! {

/// What to provision.
#[derive(Debug)]
pub struct ProvisioningRequest {
    /// Account on the licensing service.
    pub account: String,
    /// Reference of the subscription the licenses are for.
    pub subscription: String,
    /// Policy that sets the terms of the licenses.
    pub policy: String,
    /// Number of licenses.
    pub quantity: u32,
    /// Reference of the invoice, if any.
    pub invoice: Option<String>,
    /// Only record the requests that would be sent.
    pub dry_run: bool,
}

/// Why one unit produced no activation code.
#[derive(PartialEq, Eq, Debug)]
pub enum UnitError {
    /// The call that creates the license failed.
    CreateFailed { unit: u32, detail: String },
    /// The reply to that call lacks the license id or key.
    InvalidCreateReply { unit: u32 },
    /// The call that mints the token failed: the license exists without a token.
    TokenFailed { unit: u32, license_id: String, detail: String },
    /// The reply to that call lacks the token: the license exists without a token.
    InvalidTokenReply { unit: u32, license_id: String },
}

/// Where the current unit stands.
#[derive(Debug)]
pub enum Phase {
    /// The call that creates the license is out.
    AwaitingLicense,
    /// The call that mints the token of this license is out.
    AwaitingToken { license_id: String, key: String },
    /// No call is out and none will be.
    Done,
}

/// What the caller does next.
#[derive(Debug)]
pub enum Step {
    /// Send this call and hand back its reply.
    Call(RemoteCall),
    /// All units are processed.
    Finished,
}

/// A run of provisioning.
#[derive(Debug)]
pub struct LicenseGeneration {
    pub request: ProvisioningRequest,
    /// Units begun so far.
    pub started: u32,
    pub phase: Phase,
    /// Activation codes, in the order of their units.
    pub codes: Vec<String>,
    /// Failures, in the order of their units.
    pub errors: Vec<UnitError>,
    /// In a dry run, the calls that would have been sent.
    pub previews: Vec<RemoteCall>,
}

/// The state of a run that its transitions speak of.
pub struct GenState {
    pub started: nat,
    /// Id and key of the license whose token is awaited.
    pub token_for: Option<(String, String)>,
    pub done: bool,
    pub codes: Seq<Seq<char>>,
    pub errors: Seq<UnitError>,
}

/// The invoice reference sent with each license.
pub open spec fn invoice_text(invoice: Option<String>) -> Seq<char> {
    match invoice {
        Some(s) => s@,
        None => seq![],
    }
}

/// State at the start of a run of `q` units.
pub open spec fn gen_start(q: nat, dry_run: bool) -> GenState {
    GenState {
        started: if dry_run || q == 0 {
            0
        } else {
            1
        },
        token_for: None,
        done: dry_run || q == 0,
        codes: seq![],
        errors: seq![],
    }
}

/// Begins the next unit, or ends the run after `q` units.
pub open spec fn begin_next(s: GenState, q: nat) -> GenState {
    if s.started < q {
        GenState { started: s.started + 1, token_for: None, ..s }
    } else {
        GenState { token_for: None, done: true, ..s }
    }
}

/// State after the reply to the call that the state awaits, in a run of `q` units.
pub open spec fn gen_next(s: GenState, q: nat, reply: Result<Json, String>) -> GenState {
    let unit = (s.started - 1) as u32;
    if s.done {
        s
    } else {
        match s.token_for {
            None => match reply {
                Err(e) => begin_next(
                    GenState { errors: s.errors.push(UnitError::CreateFailed { unit, detail: e }), ..s },
                    q,
                ),
                Ok(j) => match created_license(j) {
                    None => begin_next(
                        GenState { errors: s.errors.push(UnitError::InvalidCreateReply { unit }), ..s },
                        q,
                    ),
                    Some(lic) => GenState { token_for: Some(lic), ..s },
                },
            },
            Some((id, key)) => match reply {
                Err(e) => begin_next(
                    GenState {
                        errors: s.errors.push(
                            UnitError::TokenFailed { unit, license_id: id, detail: e },
                        ),
                        ..s
                    },
                    q,
                ),
                Ok(j) => match minted_token(j) {
                    None => begin_next(
                        GenState {
                            errors: s.errors.push(UnitError::InvalidTokenReply { unit, license_id: id }),
                            ..s
                        },
                        q,
                    ),
                    Some(t) => begin_next(GenState { codes: s.codes.push(code_of(t@, key@)), ..s }, q),
                },
            },
        }
    }
}

impl LicenseGeneration {
    /// The state of this run.
    pub open spec fn state(self) -> GenState {
        GenState {
            started: self.started as nat,
            token_for: match self.phase {
                Phase::AwaitingToken { license_id, key } => Some((license_id, key)),
                _ => None,
            },
            done: self.phase is Done,
            codes: texts(self.codes@),
            errors: self.errors@,
        }
    }

    /// Units begun never exceed the quantity, and each begun unit has left a
    /// code or an error, but the one whose calls are out.
    pub open spec fn wf(self) -> bool {
        &&& self.started <= self.request.quantity
        &&& self.codes@.len() + self.errors@.len() + (if self.phase is Done {
            0int
        } else {
            1int
        }) == self.started
    }

    /// Whether `step` is what the caller does next in this run, with `key` the
    /// candidate key of a license to create.
    pub open spec fn is_step(self, step: Step, key: Seq<char>) -> bool {
        let req = self.request;
        match self.phase {
            Phase::Done => step is Finished,
            Phase::AwaitingLicense => step matches Step::Call(c) && is_create_call(
                c,
                req.account@,
                key,
                req.policy@,
                req.subscription@,
                invoice_text(req.invoice),
            ),
            Phase::AwaitingToken { license_id, key: _ } => step matches Step::Call(c)
                && is_token_call(c, req.account@, license_id@),
        }
    }
}

/// A candidate key: 16 bytes in lowercase hex.
pub open spec fn is_random_key(k: Seq<char>) -> bool {
    exists|b: Seq<u8>| b.len() == 16 && k == hex_lower(b)
}

/// Whether `call` creates a license for `req` with some candidate key.
pub open spec fn is_preview(call: RemoteCall, req: ProvisioningRequest) -> bool {
    exists|k: Seq<char>|
        is_random_key(k) && #[trigger] is_create_call(
            call,
            req.account@,
            k,
            req.policy@,
            req.subscription@,
            invoice_text(req.invoice),
        )
}

impl LicenseGeneration {
    /// Begins the next unit with the given candidate key, or ends the run.
    fn begin_next(&mut self, key: &str) -> (step: Step)
        requires
            old(self).started <= old(self).request.quantity,
            old(self).codes@.len() + old(self).errors@.len() == old(self).started,
        ensures
            final(self).wf(),
            final(self).request == old(self).request,
            final(self).previews == old(self).previews,
            final(self).state() == begin_next(
                GenState { token_for: None, done: false, ..old(self).state() },
                old(self).request.quantity as nat,
            ),
            final(self).is_step(step, key@),
    {
        if self.started < self.request.quantity {
            self.started = self.started + 1;
            self.phase = Phase::AwaitingLicense;
            Step::Call(create_call_for(&self.request, key))
        } else {
            self.phase = Phase::Done;
            Step::Finished
        }
    }

    /// Takes the reply to the call that is out and says what to do next;
    /// `key` is the candidate key of the next license, should a unit begin.
    pub fn advance_with_key(&mut self, reply: Result<Json, String>, key: &str) -> (step: Step)
        requires
            old(self).wf(),
        ensures
            final(self).wf(),
            final(self).request == old(self).request,
            final(self).previews == old(self).previews,
            final(self).state() == gen_next(
                old(self).state(),
                old(self).request.quantity as nat,
                reply,
            ),
            final(self).is_step(step, key@),
    {
        let token_for: Option<(String, String)> = match &self.phase {
            Phase::Done => {
                return Step::Finished;
            },
            Phase::AwaitingLicense => None,
            Phase::AwaitingToken { license_id, key } => Some((license_id.clone(), key.clone())),
        };
        let unit = self.started - 1;
        match token_for {
            None => match reply {
                Err(e) => {
                    self.errors.push(UnitError::CreateFailed { unit, detail: e });
                    self.begin_next(key)
                },
                Ok(j) => match read_created_license(&j) {
                    None => {
                        self.errors.push(UnitError::InvalidCreateReply { unit });
                        self.begin_next(key)
                    },
                    Some((id, k)) => {
                        let call = create_token_call(self.request.account.as_str(), id.as_str());
                        self.phase = Phase::AwaitingToken { license_id: id, key: k };
                        Step::Call(call)
                    },
                },
            },
            Some((id, k)) => match reply {
                Err(e) => {
                    self.errors.push(UnitError::TokenFailed { unit, license_id: id, detail: e });
                    self.begin_next(key)
                },
                Ok(j) => match read_minted_token(&j) {
                    None => {
                        self.errors.push(UnitError::InvalidTokenReply { unit, license_id: id });
                        self.begin_next(key)
                    },
                    Some(t) => {
                        let code = activation_code(t.as_str(), k.as_str());
                        let ghost before = self.codes@;
                        self.codes.push(code);
                        assert(texts(self.codes@) =~= texts(before).push(code@));
                        self.begin_next(key)
                    },
                },
            },
        }
    }

    /// Codes and errors together never outnumber the licenses asked for.
    pub proof fn lemma_results_bounded(self)
        requires
            self.wf(),
        ensures
            self.codes@.len() + self.errors@.len() <= self.request.quantity,
    {
    }

    /// Takes the reply to the call that is out and says what to do next. A
    /// license that is asked for gets a fresh random candidate key.
    pub fn advance(&mut self, reply: Result<Json, String>) -> (step: Step)
        requires
            old(self).wf(),
        ensures
            final(self).wf(),
            final(self).request == old(self).request,
            final(self).previews == old(self).previews,
            final(self).state() == gen_next(
                old(self).state(),
                old(self).request.quantity as nat,
                reply,
            ),
            exists|k: Seq<char>| is_random_key(k) && final(self).is_step(step, k),
    {
        let key = candidate_key();
        self.advance_with_key(reply, key.as_str())
    }
}

/// Some text has the form of a candidate key.
proof fn lemma_some_random_key()
    ensures
        exists|k: Seq<char>| is_random_key(k),
{
    let b = Seq::new(16, |i: int| 0u8);
    assert(is_random_key(hex_lower(b)));
}

/// Candidate key for a license: 16 random bytes in lowercase hex.
fn candidate_key() -> (r: String)
    ensures
        is_random_key(r@),
{
    let b = random_16_bytes();
    hex_encode(b.as_slice())
}

/// The call that creates a license with the given key for a request.
fn create_call_for(req: &ProvisioningRequest, key: &str) -> (r: RemoteCall)
    ensures
        is_create_call(r, req.account@, key@, req.policy@, req.subscription@, invoice_text(req.invoice)),
{
    let empty = String::new();
    let invoice = match &req.invoice {
        Some(s) => s.as_str(),
        None => empty.as_str(),
    };
    create_license_call(
        req.account.as_str(),
        key,
        req.policy.as_str(),
        req.subscription.as_str(),
        invoice,
    )
}

/// Starts provisioning the licenses of a request. In a dry run every unit's
/// create call is recorded in `previews` and none is sent.
pub fn generate_licenses(request: ProvisioningRequest) -> (r: (LicenseGeneration, Step))
    ensures
        r.0.wf(),
        r.0.request == request,
        r.0.state() == gen_start(request.quantity as nat, request.dry_run),
        exists|k: Seq<char>| is_random_key(k) && r.0.is_step(r.1, k),
        request.dry_run ==> r.1 is Finished && r.0.previews@.len() == request.quantity,
        request.dry_run ==> r.0.codes@.len() == 0 && r.0.errors@.len() == 0,
        request.dry_run ==> forall|i: int|
            0 <= i < r.0.previews@.len() ==> is_preview(#[trigger] r.0.previews@[i], request),
        !request.dry_run ==> r.0.previews@.len() == 0,
{
    let mut previews: Vec<RemoteCall> = Vec::new();
    if request.dry_run {
        let mut u: u32 = 0;
        while u < request.quantity
            invariant
                u <= request.quantity,
                previews@.len() == u,
                forall|i: int| 0 <= i < previews@.len() ==> is_preview(#[trigger] previews@[i], request),
            decreases request.quantity - u,
        {
            let key = candidate_key();
            let call = create_call_for(&request, key.as_str());
            assert(is_preview(call, request));
            previews.push(call);
            u = u + 1;
        }
        let g = LicenseGeneration {
            request,
            started: 0,
            phase: Phase::Done,
            codes: Vec::new(),
            errors: Vec::new(),
            previews,
        };
        proof {
            assert(g.state().codes =~= gen_start(g.request.quantity as nat, true).codes);
            lemma_some_random_key();
        }
        (g, Step::Finished)
    } else if request.quantity == 0 {
        let g = LicenseGeneration {
            request,
            started: 0,
            phase: Phase::Done,
            codes: Vec::new(),
            errors: Vec::new(),
            previews,
        };
        proof {
            assert(g.state().codes =~= seq![]);
            lemma_some_random_key();
        }
        (g, Step::Finished)
    } else {
        let key = candidate_key();
        let call = create_call_for(&request, key.as_str());
        let g = LicenseGeneration {
            request,
            started: 1,
            phase: Phase::AwaitingLicense,
            codes: Vec::new(),
            errors: Vec::new(),
            previews,
        };
        let step = Step::Call(call);
        proof {
            assert(g.state().codes =~= seq![]);
            assert(g.is_step(step, key@));
        }
        (g, step)
    }
}

} // verus!

verus! {

/// State after the replies `rs`, in order, in a run of `q` units.
pub open spec fn gen_run(s: GenState, q: nat, rs: Seq<Result<Json, String>>) -> GenState
    decreases rs.len(),
{
    if rs.len() == 0 {
        s
    } else {
        gen_next(gen_run(s, q, rs.drop_last()), q, rs.last())
    }
}

/// Id and key of the license that a reply to a create call describes.
pub open spec fn license_created(r: Result<Json, String>) -> Option<(String, String)> {
    match r {
        Ok(j) => created_license(j),
        Err(_) => None,
    }
}

/// The token that a reply to a token call holds.
pub open spec fn token_minted(r: Result<Json, String>) -> Option<String> {
    match r {
        Ok(j) => minted_token(j),
        Err(_) => None,
    }
}

/// The key of the license that a reply to a create call describes.
pub open spec fn created_key(r: Result<Json, String>) -> Seq<char> {
    match license_created(r) {
        Some((_, key)) => key@,
        None => seq![],
    }
}

/// The token that a reply to a token call holds, as text.
pub open spec fn minted_text(r: Result<Json, String>) -> Seq<char> {
    match token_minted(r) {
        Some(t) => t@,
        None => seq![],
    }
}

/// The key of the license whose token a state awaits.
pub open spec fn awaited_key(s: GenState) -> Seq<char> {
    match s.token_for {
        Some((_, key)) => key@,
        None => seq![],
    }
}

/// Number of units below `k` whose token reply, in `rs`, holds a token; each
/// unit has two replies.
pub open spec fn minted_units(rs: Seq<Result<Json, String>>, k: nat) -> nat
    decreases k,
{
    if k == 0 {
        0
    } else {
        minted_units(rs, (k - 1) as nat) + if token_minted(rs[2 * (k as int) - 1]) is Some {
            1nat
        } else {
            0nat
        }
    }
}

/// The code that unit `i` yields when both of its replies succeed.
pub open spec fn unit_code(rs: Seq<Result<Json, String>>, i: int) -> Seq<char> {
    code_of(minted_text(rs[2 * i + 1]), created_key(rs[2 * i]))
}

/// After `k` units whose licenses were all created, each unit has left one
/// code or one error, and the run is over exactly when `k` is the quantity.
proof fn lemma_units(q: nat, rs: Seq<Result<Json, String>>, k: nat)
    requires
        1 <= q <= u32::MAX,
        k <= q,
        2 * (k as int) <= rs.len(),
        forall|i: int| 0 <= i < k ==> (#[trigger] license_created(rs[2 * i])) is Some,
    ensures
        ({
            let s = gen_run(gen_start(q, false), q, rs.subrange(0, 2 * (k as int)));
            &&& s.token_for is None
            &&& s.done == (k == q)
            &&& s.started == if k < q {
                k + 1
            } else {
                q
            }
            &&& s.codes.len() == minted_units(rs, k)
            &&& s.codes.len() + s.errors.len() == k
            &&& (forall|i: int| 0 <= i < k ==> (#[trigger] token_minted(rs[2 * i + 1])) is Some)
                ==> forall|i: int| 0 <= i < k ==> s.codes[i] == unit_code(rs, i)
        }),
    decreases k,
{
    if k == 0 {
        assert(rs.subrange(0, 0) =~= seq![]);
    } else {
        let j = (k - 1) as nat;
        lemma_units(q, rs, j);
        let p0 = rs.subrange(0, 2 * (j as int));
        let p1 = rs.subrange(0, 2 * (j as int) + 1);
        let p2 = rs.subrange(0, 2 * (k as int));
        assert(p1.drop_last() =~= p0);
        assert(p2.drop_last() =~= p1);
        assert(p1.last() == rs[2 * (j as int)]);
        assert(p2.last() == rs[2 * (j as int) + 1]);
        assert(license_created(rs[2 * (j as int)]) is Some);
        let s0 = gen_run(gen_start(q, false), q, p0);
        let s1 = gen_run(gen_start(q, false), q, p1);
        assert(s1 == gen_next(s0, q, rs[2 * (j as int)]));
        assert(s1.token_for is Some);
        let s2 = gen_run(gen_start(q, false), q, p2);
        assert(s2 == gen_next(s1, q, rs[2 * (j as int) + 1]));
        assert(rs[2 * (k as int) - 1] == rs[2 * (j as int) + 1]);
        if token_minted(rs[2 * (j as int) + 1]) is Some {
            assert(s2.codes == s0.codes.push(unit_code(rs, j as int)));
        }
        if forall|i: int| 0 <= i < k ==> (#[trigger] token_minted(rs[2 * i + 1])) is Some {
            assert(token_minted(rs[2 * (j as int) + 1]) is Some);
            assert(forall|i: int| 0 <= i < j ==> (#[trigger] token_minted(rs[2 * i + 1])) is Some);
            lemma_minted_but_one(rs, j, j);
            assert(s0.codes.len() == j);
            assert forall|i: int| 0 <= i < k implies s2.codes[i] == unit_code(rs, i) by {
                if i < j {
                    assert(token_minted(rs[2 * i + 1]) is Some);
                }
            }
        }
    }
}

/// A run of `q` units, from one up to ten, in which every license is created
/// and every token minted, yields `q` codes and no error; each code is the
/// token, a dot and the key, and gives the key back when neither holds a dot.
pub proof fn lemma_all_units_succeed(q: nat, rs: Seq<Result<Json, String>>)
    requires
        1 <= q <= 10,
        rs.len() == 2 * (q as int),
        forall|i: int| 0 <= i < q ==> (#[trigger] license_created(rs[2 * i])) is Some,
        forall|i: int| 0 <= i < q ==> (#[trigger] token_minted(rs[2 * i + 1])) is Some,
    ensures
        ({
            let s = gen_run(gen_start(q, false), q, rs);
            &&& s.done
            &&& s.codes.len() == q
            &&& s.errors.len() == 0
            &&& forall|i: int| 0 <= i < q ==> s.codes[i] == #[trigger] unit_code(rs, i)
        }),
        forall|i: int|
            0 <= i < q && dot_free(minted_text(rs[2 * i + 1])) && dot_free(
                created_key(rs[2 * i]),
            ) ==> key_of(#[trigger] unit_code(rs, i)) == Some(created_key(rs[2 * i])),
{
    lemma_units(q, rs, q);
    lemma_minted_but_one(rs, q, q);
    assert(rs.subrange(0, 2 * (q as int)) =~= rs);
    assert forall|i: int|
        0 <= i < q && dot_free(minted_text(rs[2 * i + 1])) && dot_free(
            created_key(rs[2 * i]),
        ) implies key_of(#[trigger] unit_code(rs, i)) == Some(created_key(rs[2 * i])) by {
        lemma_key_of_code(minted_text(rs[2 * i + 1]), created_key(rs[2 * i]));
    }
}

/// With every unit but `u` succeeding, and unit `u`'s license created but its
/// token not minted, a run of `q` units still processes all of them and
/// yields `q - 1` codes and exactly one error.
pub proof fn lemma_one_token_failure(q: nat, rs: Seq<Result<Json, String>>, u: nat)
    requires
        1 <= q <= u32::MAX,
        u < q,
        rs.len() == 2 * (q as int),
        forall|i: int| 0 <= i < q ==> (#[trigger] license_created(rs[2 * i])) is Some,
        forall|i: int| 0 <= i < q && i != u ==> (#[trigger] token_minted(rs[2 * i + 1])) is Some,
        token_minted(rs[2 * (u as int) + 1]) is None,
    ensures
        ({
            let s = gen_run(gen_start(q, false), q, rs);
            &&& s.done
            &&& s.started == q
            &&& s.codes.len() == q - 1
            &&& s.errors.len() == 1
        }),
{
    lemma_units(q, rs, q);
    assert(rs.subrange(0, 2 * (q as int)) =~= rs);
    lemma_minted_but_one(rs, u, q);
}

proof fn lemma_minted_but_one(rs: Seq<Result<Json, String>>, u: nat, k: nat)
    requires
        2 * (k as int) <= rs.len(),
        forall|i: int| 0 <= i < k && i != u ==> (#[trigger] token_minted(rs[2 * i + 1])) is Some,
        u < k ==> token_minted(rs[2 * (u as int) + 1]) is None,
    ensures
        minted_units(rs, k) == if u < k {
            k - 1
        } else {
            k as int
        },
    decreases k,
{
    if k > 0 {
        let j = (k - 1) as nat;
        lemma_minted_but_one(rs, u, j);
        if j != u {
            assert(token_minted(rs[2 * (j as int) + 1]) is Some);
        }
    }
}

/// A code that a run appends is the token, a dot and the license key; with
/// neither holding a dot, the key is what `license_key` reads from it.
pub proof fn lemma_generated_code_key(s: GenState, q: nat, reply: Result<Json, String>)
    requires
        !s.done,
        s.token_for matches Some((id, key)) && dot_free(key@),
        token_minted(reply) matches Some(t) && dot_free(t@),
    ensures
        ({
            let n = gen_next(s, q, reply);
            &&& n.codes.len() == s.codes.len() + 1
            &&& key_of(n.codes.last()) == Some(awaited_key(s))
        }),
{
    lemma_key_of_code(minted_text(reply), awaited_key(s));
}

} // verus!
