//! Client factory: parameters a homeserver-bound client is built from.
//!
//! The homeserver URL is derived from the user identifier
//! (`@localpart:server.name`) by taking everything after the first `:`.
//! A fresh client session names a random store subfolder and passphrase.
//! Transient build failures are retried with capped exponential backoff and
//! a bounded number of attempts; any other failure is fatal.

use vstd::prelude::*;

use crate::errors::BuildError;
use crate::rng::{all_alnum, generate_store_params};
use crate::session::ClientSession;

verus! {

/// True when `s` contains at least one `:`.
pub open spec fn has_colon(s: Seq<char>) -> bool {
    exists|i: int| 0 <= i < s.len() && s[i] == ':'
}

/// True when `h` is `"https://"` followed by the part of `user` after its
/// first `:`.
pub open spec fn is_homeserver_of(user: Seq<char>, h: Seq<char>) -> bool {
    exists|i: int|
        {
            &&& 0 <= i < user.len()
            &&& user[i] == ':'
            &&& (forall|j: int| 0 <= j < i ==> user[j] != ':')
            &&& h == "https://"@ + user.subrange(i + 1, user.len() as int)
        }
}

/// Derive the homeserver URL from a user identifier: `https://` plus the
/// server part after the first `:`. Returns `None` when the identifier has
/// no `:`, so no server part can be extracted.
pub fn derive_homeserver(user_id: &str) -> (r: Option<String>)
    ensures
        r is Some <==> has_colon(user_id@),
        r matches Some(h) ==> is_homeserver_of(user_id@, h@),
{
    let n = user_id.unicode_len();
    let mut i: usize = 0;
    while i < n
        invariant
            n == user_id@.len(),
            0 <= i <= n,
            forall|j: int| 0 <= j < i ==> user_id@[j] != ':',
        decreases n - i,
    {
        if user_id.get_char(i) == ':' {
            let server = user_id.substring_char(i + 1, n);
            let mut url = String::new();
            url.append("https://");
            url.append(server);
            proof {
                assert(is_homeserver_of(user_id@, url@));
            }
            return Some(url);
        }
        i = i + 1;
    }
    None
}

/// True when `path` is `dir`, a `/`, and a 7-character alphanumeric
/// subfolder name.
pub open spec fn is_store_path_of(dir: Seq<char>, path: Seq<char>) -> bool {
    exists|sub: Seq<char>|
        {
            &&& sub.len() == 7
            &&& all_alnum(sub)
            &&& path == dir + seq!['/'] + sub
        }
}

/// Assemble a fresh client session for `user_id`: the derived homeserver
/// URL, a random store directory under `data_dir`, and a random
/// 32-character passphrase. Returns `None` when the user identifier has no
/// `:`, so no homeserver can be derived.
pub fn make_client_session(user_id: &str, data_dir: &str) -> (r: Option<ClientSession>)
    ensures
        r is Some <==> has_colon(user_id@),
        r matches Some(cs) ==> {
            &&& is_homeserver_of(user_id@, cs.homeserver@)
            &&& is_store_path_of(data_dir@, cs.db_path@)
            &&& cs.passphrase@.len() == 32
            &&& all_alnum(cs.passphrase@)
        },
{
    let homeserver = match derive_homeserver(user_id) {
        Some(h) => h,
        None => {
            return None;
        },
    };
    let (subfolder, passphrase) = generate_store_params();
    let mut db_path = String::new();
    db_path.append(data_dir);
    db_path.append("/");
    db_path.append(subfolder.as_str());
    proof {
        reveal_strlit("/");
        assert(db_path@ =~= data_dir@ + seq!['/'] + subfolder@);
    }
    Some(ClientSession { homeserver, db_path, passphrase })
}

/// True for the distinguished build failures that are retried; everything
/// else is fatal.
pub open spec fn is_transient_build_error(e: BuildError) -> bool {
    e is AutoDiscoveryFailed || e is MalformedUrl || e is HttpError
}

/// Classify a build failure: the three distinguished errors are transient
/// and retried, any other is fatal.
pub fn build_error_is_transient(e: &BuildError) -> (r: bool)
    ensures
        r == is_transient_build_error(*e),
{
    match e {
        BuildError::AutoDiscoveryFailed => true,
        BuildError::MalformedUrl => true,
        BuildError::HttpError => true,
        BuildError::Fatal => false,
    }
}

/// How many times a client build is attempted before giving up.
pub const MAX_BUILD_ATTEMPTS: u32 = 8;

/// The delay before retry number `a`: 250 ms doubled each time, capped at
/// 16 seconds.
pub open spec fn backoff_ms_spec(a: nat) -> nat
    decreases a,
{
    if a == 0 {
        250
    } else if 2 * backoff_ms_spec((a - 1) as nat) > 16000 {
        16000
    } else {
        2 * backoff_ms_spec((a - 1) as nat)
    }
}

/// The capped exponential backoff delay before retry number `attempt`.
pub fn backoff_delay_ms(attempt: u32) -> (d: u64)
    ensures
        d == backoff_ms_spec(attempt as nat),
        d <= 16000,
{
    let mut d: u64 = 250;
    let mut i: u32 = 0;
    while i < attempt
        invariant
            0 <= i <= attempt,
            d == backoff_ms_spec(i as nat),
            d <= 16000,
        decreases attempt - i,
    {
        if 2 * d > 16000 {
            d = 16000;
        } else {
            d = 2 * d;
        }
        i = i + 1;
    }
    d
}

/// What the build loop does after a failed attempt. `attempt` counts the
/// attempts already made, this failed one included.
#[derive(Debug, PartialEq, Eq, Structural)]
pub enum BuildStep {
    /// Try again after the given backoff delay.
    Retry { delay_ms: u64 },
    /// Surface the error: it is fatal, or the attempts are used up.
    GiveUp,
}

/// Decide whether a failed build attempt is retried: only the transient
/// errors are, only while attempts remain, and each retry waits the capped
/// exponential backoff delay for its attempt number.
pub fn next_build_step(attempt: u32, e: &BuildError) -> (r: BuildStep)
    requires
        attempt >= 1,
    ensures
        r is Retry <==> is_transient_build_error(*e) && attempt < MAX_BUILD_ATTEMPTS,
        r matches BuildStep::Retry { delay_ms } ==> delay_ms == backoff_ms_spec(
            (attempt - 1) as nat,
        ),
{
    if build_error_is_transient(e) && attempt < MAX_BUILD_ATTEMPTS {
        BuildStep::Retry { delay_ms: backoff_delay_ms(attempt - 1) }
    } else {
        BuildStep::GiveUp
    }
}

} // verus!
