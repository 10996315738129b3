//! Revocation of the licenses behind a list of activation codes, one after
//! the other, stopping at the first failure.
use crate::code::{key_of, license_key};
use crate::keygen::{is_action_call, revoke_license, LicenseAction, RemoteCall};
use crate::form::texts;
use vstd::prelude::*;

verus! {

/// Why a revocation stopped.
#[derive(PartialEq, Eq, Debug)]
pub enum RevokeError {
    /// The code at this index holds no license key.
    InvalidCode { index: usize },
    /// The revoke call failed.
    Remote(String),
}

/// What the caller does next.
#[derive(Debug)]
pub enum RevokeStep {
    /// Send this call and hand back its outcome.
    Call(RemoteCall),
    /// The revocation is over, with this result.
    Finished(Result<(), RevokeError>),
}

/// A revocation in progress.
#[derive(Debug)]
pub struct Revocation {
    pub account: String,
    pub codes: Vec<String>,
    /// Index of the code whose revoke call is out.
    pub next: usize,
    /// No call is out and none will be.
    pub done: bool,
}

/// Whether `step` is what follows once the codes before index `i` are revoked.
pub open spec fn is_revoke_step(account: Seq<char>, codes: Seq<Seq<char>>, i: int, step: RevokeStep) -> bool {
    if i >= codes.len() {
        step == RevokeStep::Finished(Ok(()))
    } else {
        match key_of(codes[i]) {
            None => step == RevokeStep::Finished(Err(RevokeError::InvalidCode { index: i as usize })),
            Some(k) => step matches RevokeStep::Call(c) && is_action_call(
                c,
                account,
                k,
                LicenseAction::Revoke,
            ),
        }
    }
}

impl Revocation {
    /// The step that follows once the codes before `next` are revoked.
    fn step_at(&mut self) -> (step: RevokeStep)
        requires
            old(self).next <= old(self).codes@.len(),
        ensures
            final(self).account == old(self).account,
            final(self).codes == old(self).codes,
            final(self).next == old(self).next,
            final(self).done == !(step is Call),
            is_revoke_step(
                final(self).account@,
                texts(final(self).codes@),
                final(self).next as int,
                step,
            ),
    {
        if self.next == self.codes.len() {
            self.done = true;
            return RevokeStep::Finished(Ok(()));
        }
        match license_key(self.codes[self.next].as_str()) {
            None => {
                self.done = true;
                RevokeStep::Finished(Err(RevokeError::InvalidCode { index: self.next }))
            },
            Some(k) => {
                self.done = false;
                RevokeStep::Call(revoke_license(self.account.as_str(), k))
            },
        }
    }

    /// Starts revoking the licenses of the given activation codes, in order.
    pub fn start(account: String, codes: Vec<String>) -> (r: (Revocation, RevokeStep))
        ensures
            r.0.account == account,
            r.0.codes == codes,
            r.0.next == 0,
            r.0.done == !(r.1 is Call),
            is_revoke_step(account@, texts(codes@), 0, r.1),
    {
        let mut rev = Revocation { account, codes, next: 0, done: false };
        let step = rev.step_at();
        (rev, step)
    }

    /// Takes the outcome of the revoke call that is out. A failure ends the
    /// revocation at once: no later code is revoked.
    pub fn advance(&mut self, outcome: Result<(), String>) -> (step: RevokeStep)
        requires
            !old(self).done,
            old(self).next < old(self).codes@.len(),
        ensures
            final(self).account == old(self).account,
            final(self).codes == old(self).codes,
            match outcome {
                Err(e) => {
                    &&& step == RevokeStep::Finished(Err(RevokeError::Remote(e)))
                    &&& final(self).done
                },
                Ok(()) => {
                    &&& final(self).next == old(self).next + 1
                    &&& final(self).done == !(step is Call)
                    &&& is_revoke_step(
                        final(self).account@,
                        texts(final(self).codes@),
                        final(self).next as int,
                        step,
                    )
                },
            },
    {
        match outcome {
            Err(e) => {
                self.done = true;
                RevokeStep::Finished(Err(RevokeError::Remote(e)))
            },
            Ok(()) => {
                let n = self.codes.len();
                assert(self.next < n);
                self.next = self.next + 1;
                self.step_at()
            },
        }
    }
}

} // verus!
