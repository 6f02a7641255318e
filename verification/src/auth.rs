//! Authenticator: the restore-or-login decision.
//!
//! A start either resumes the session persisted in the data directory or,
//! when none is stored, performs a fresh password login. A stored session
//! is always restored: credentials are exchanged for a session exactly
//! once per data directory.

use vstd::prelude::*;

use crate::codec::{encode_full_session, lemma_session_round_trip, parse_full_session_spec};
use crate::session::{FullSession, FullSessionV};

verus! {

/// How a start proceeds.
pub enum LoginPlan {
    /// Resume from the stored session; no password login is issued.
    Restore(FullSession),
    /// Nothing is stored: build a fresh client and log in with the
    /// credentials, then persist the resulting session.
    FreshLogin,
}

/// Mathematical model of `LoginPlan`.
pub enum LoginPlanV {
    Restore(FullSessionV),
    FreshLogin,
}

impl View for LoginPlan {
    type V = LoginPlanV;

    open spec fn view(&self) -> LoginPlanV {
        match self {
            LoginPlan::Restore(fs) => LoginPlanV::Restore(fs@),
            LoginPlan::FreshLogin => LoginPlanV::FreshLogin,
        }
    }
}

/// Model of what was read from the session store.
pub open spec fn stored_session_view(stored: Option<FullSession>) -> Option<FullSessionV> {
    match stored {
        Some(fs) => Some(fs@),
        None => None,
    }
}

/// The plan a stored session (or its absence) leads to.
pub open spec fn login_plan_of(stored: Option<FullSessionV>) -> LoginPlanV {
    match stored {
        Some(fs) => LoginPlanV::Restore(fs),
        None => LoginPlanV::FreshLogin,
    }
}

/// Decide how to authenticate: restore the stored session when one exists,
/// log in afresh otherwise.
pub fn plan_login(stored: Option<FullSession>) -> (r: LoginPlan)
    ensures
        r@ == login_plan_of(stored_session_view(stored)),
{
    match stored {
        Some(fs) => LoginPlan::Restore(fs),
        None => LoginPlan::FreshLogin,
    }
}

/// Session idempotence: a second start with the same data directory parses
/// the exact session the first run persisted and restores it; no password
/// login is planned while a session document is stored.
pub proof fn lemma_session_idempotence(v: FullSessionV)
    ensures
        parse_full_session_spec(encode_full_session(v)) == Some(v),
        login_plan_of(Some(v)) == LoginPlanV::Restore(v),
{
    lemma_session_round_trip(v);
}

} // verus!
