//! Sync engine: the cursor-advancing state machine of the long-running
//! sync.
//!
//! The engine decides; the surrounding runtime performs. It starts with a
//! catch-up sync from the stored cursor, retrying transient failures with
//! capped exponential backoff and a bounded number of attempts. On the
//! first success it has the cursor persisted, the room-message handler
//! installed (only then, so the catch-up is not replayed into the UI), and
//! the long poll entered. Each long-poll response has its `next_batch`
//! persisted before the poll continues; a long-poll failure terminates the
//! engine.

use vstd::prelude::*;

use crate::factory::{backoff_delay_ms, backoff_ms_spec};

verus! {

/// How many times the catch-up sync is attempted before giving up.
pub const MAX_INITIAL_SYNC_ATTEMPTS: u32 = 8;

/// Where the engine stands.
#[derive(Clone, Copy, Debug, PartialEq, Eq, Structural)]
pub enum SyncPhase {
    /// Running the catch-up sync; the handler is not installed yet.
    InitialSync,
    /// Catch-up done, handler installed, long poll running.
    Live,
    /// Stopped: a fatal failure, or the catch-up attempts are used up.
    Terminated,
}

/// The sync-engine state: its phase, the current cursor, and how many
/// catch-up attempts failed so far.
pub struct SyncEngine {
    pub phase: SyncPhase,
    pub token: Option<String>,
    pub attempt: u32,
}

/// What the homeserver answered.
pub enum SyncEvent {
    /// A sync response; carries its `next_batch` cursor.
    Response(String),
    /// The sync call failed.
    TransportError,
}

/// What the runtime must do next.
pub enum SyncAction {
    /// Persist the token, install the room-message handler, and enter the
    /// long poll from that token.
    PersistAndListen(String),
    /// Persist the token and let the long poll continue.
    PersistAndContinue(String),
    /// Wait out the backoff delay, then run the catch-up sync again from
    /// `since`.
    RetryAfter { delay_ms: u64, since: Option<String> },
    /// Stop the engine.
    Stop,
}

/// Mathematical model of `SyncEngine`.
pub struct SyncEngineV {
    pub phase: SyncPhase,
    pub token: Option<Seq<char>>,
    pub attempt: nat,
}

/// Mathematical model of `SyncEvent`.
pub enum SyncEventV {
    Response(Seq<char>),
    TransportError,
}

/// Mathematical model of `SyncAction`.
pub enum SyncActionV {
    PersistAndListen(Seq<char>),
    PersistAndContinue(Seq<char>),
    RetryAfter { delay_ms: nat, since: Option<Seq<char>> },
    Stop,
}

/// Model of an optional token.
pub open spec fn token_view(t: Option<String>) -> Option<Seq<char>> {
    match t {
        Some(s) => Some(s@),
        None => None,
    }
}

impl View for SyncEngine {
    type V = SyncEngineV;

    open spec fn view(&self) -> SyncEngineV {
        SyncEngineV {
            phase: self.phase,
            token: token_view(self.token),
            attempt: self.attempt as nat,
        }
    }
}

impl View for SyncEvent {
    type V = SyncEventV;

    open spec fn view(&self) -> SyncEventV {
        match self {
            SyncEvent::Response(nb) => SyncEventV::Response(nb@),
            SyncEvent::TransportError => SyncEventV::TransportError,
        }
    }
}

impl View for SyncAction {
    type V = SyncActionV;

    open spec fn view(&self) -> SyncActionV {
        match self {
            SyncAction::PersistAndListen(t) => SyncActionV::PersistAndListen(t@),
            SyncAction::PersistAndContinue(t) => SyncActionV::PersistAndContinue(t@),
            SyncAction::RetryAfter { delay_ms, since } => SyncActionV::RetryAfter {
                delay_ms: *delay_ms as nat,
                since: token_view(*since),
            },
            SyncAction::Stop => SyncActionV::Stop,
        }
    }
}

/// The engine's starting state: catching up from the stored cursor.
pub open spec fn engine_init(initial_token: Option<Seq<char>>) -> SyncEngineV {
    SyncEngineV { phase: SyncPhase::InitialSync, token: initial_token, attempt: 0 }
}

/// One engine step: the next state and the action the runtime performs.
pub open spec fn engine_step(s: SyncEngineV, e: SyncEventV) -> (SyncEngineV, SyncActionV) {
    match s.phase {
        SyncPhase::InitialSync => match e {
            SyncEventV::Response(nb) => (
                SyncEngineV { phase: SyncPhase::Live, token: Some(nb), attempt: s.attempt },
                SyncActionV::PersistAndListen(nb),
            ),
            SyncEventV::TransportError => {
                if s.attempt + 1 < MAX_INITIAL_SYNC_ATTEMPTS {
                    (
                        SyncEngineV { phase: s.phase, token: s.token, attempt: s.attempt + 1 },
                        SyncActionV::RetryAfter {
                            delay_ms: backoff_ms_spec(s.attempt),
                            since: s.token,
                        },
                    )
                } else {
                    (
                        SyncEngineV { phase: SyncPhase::Terminated, token: s.token, attempt: s
                            .attempt },
                        SyncActionV::Stop,
                    )
                }
            },
        },
        SyncPhase::Live => match e {
            SyncEventV::Response(nb) => (
                SyncEngineV { phase: SyncPhase::Live, token: Some(nb), attempt: s.attempt },
                SyncActionV::PersistAndContinue(nb),
            ),
            SyncEventV::TransportError => (
                SyncEngineV { phase: SyncPhase::Terminated, token: s.token, attempt: s.attempt },
                SyncActionV::Stop,
            ),
        },
        SyncPhase::Terminated => (s, SyncActionV::Stop),
    }
}

impl SyncEngine {
    /// Start the engine on the stored cursor. The first sync resumes from
    /// exactly that cursor.
    pub fn new(initial_token: Option<String>) -> (r: SyncEngine)
        ensures
            r@ == engine_init(token_view(initial_token)),
    {
        SyncEngine { phase: SyncPhase::InitialSync, token: initial_token, attempt: 0 }
    }

    /// The cursor the next sync call must resume from.
    pub fn since(&self) -> (r: Option<&String>)
        ensures
            token_view_ref(r) == self@.token,
    {
        self.token.as_ref()
    }

    /// Feed the engine what the homeserver answered; returns what the
    /// runtime does next.
    pub fn step(&mut self, event: SyncEvent) -> (a: SyncAction)
        ensures
            (final(self)@, a@) == engine_step(old(self)@, event@),
    {
        match self.phase {
            SyncPhase::InitialSync => match event {
                SyncEvent::Response(nb) => {
                    self.phase = SyncPhase::Live;
                    self.token = Some(nb.clone());
                    SyncAction::PersistAndListen(nb)
                },
                SyncEvent::TransportError => {
                    if self.attempt < MAX_INITIAL_SYNC_ATTEMPTS - 1 {
                        let delay_ms = backoff_delay_ms(self.attempt);
                        self.attempt = self.attempt + 1;
                        SyncAction::RetryAfter { delay_ms, since: clone_token(&self.token) }
                    } else {
                        self.phase = SyncPhase::Terminated;
                        SyncAction::Stop
                    }
                },
            },
            SyncPhase::Live => match event {
                SyncEvent::Response(nb) => {
                    self.token = Some(nb.clone());
                    SyncAction::PersistAndContinue(nb)
                },
                SyncEvent::TransportError => {
                    self.phase = SyncPhase::Terminated;
                    SyncAction::Stop
                },
            },
            SyncPhase::Terminated => SyncAction::Stop,
        }
    }
}

/// Model of an optional borrowed token.
pub open spec fn token_view_ref(t: Option<&String>) -> Option<Seq<char>> {
    match t {
        Some(s) => Some(s@),
        None => None,
    }
}

/// Clone an optional token.
fn clone_token(t: &Option<String>) -> (r: Option<String>)
    ensures
        token_view(r) == token_view(*t),
{
    match t {
        Some(s) => Some(s.clone()),
        None => None,
    }
}

/// The engine state after a sequence of homeserver answers.
pub open spec fn engine_state_after(s0: SyncEngineV, events: Seq<SyncEventV>) -> SyncEngineV
    decreases events.len(),
{
    if events.len() == 0 {
        s0
    } else {
        engine_step(engine_state_after(s0, events.drop_last()), events.last()).0
    }
}

/// The tokens a sequence of homeserver answers has persisted, in order.
pub open spec fn persisted_after(s0: SyncEngineV, events: Seq<SyncEventV>) -> Seq<Seq<char>>
    decreases events.len(),
{
    if events.len() == 0 {
        Seq::empty()
    } else {
        let p = persisted_after(s0, events.drop_last());
        match engine_step(engine_state_after(s0, events.drop_last()), events.last()).1 {
            SyncActionV::PersistAndListen(t) => p.push(t),
            SyncActionV::PersistAndContinue(t) => p.push(t),
            _ => p,
        }
    }
}

/// Over any run, the engine's cursor is the last persisted token, or the
/// initial one while nothing was persisted. With `lemma_monotone_cursor`:
/// when the next token is persisted, the engine that received it was
/// holding the previous one as its cursor.
pub proof fn lemma_cursor_trace(s0: SyncEngineV, events: Seq<SyncEventV>)
    ensures
        ({
            let p = persisted_after(s0, events);
            let st = engine_state_after(s0, events);
            st.token == if p.len() == 0 {
                s0.token
            } else {
                Some(p.last())
            }
        }),
    decreases events.len(),
{
    if events.len() > 0 {
        lemma_cursor_trace(s0, events.drop_last());
    }
}

/// Monotone sync cursor. In any engine state: a token is persisted exactly
/// when the homeserver answers a running engine with a response; what is
/// persisted is that response's `next_batch` and nothing else; the cursor
/// advances to exactly the persisted token and never moves otherwise; and
/// a retried catch-up resumes from the unchanged cursor, waiting the
/// capped exponential backoff delay for its attempt number.
pub proof fn lemma_monotone_cursor(s: SyncEngineV, e: SyncEventV)
    ensures
        ({
            let (post, a) = engine_step(s, e);
            &&& (a is PersistAndListen || a is PersistAndContinue) <==> (e is Response && !(
            s.phase is Terminated))
            &&& a matches SyncActionV::PersistAndListen(t) ==> e == SyncEventV::Response(t)
                && post.token == Some(t)
            &&& a matches SyncActionV::PersistAndContinue(t) ==> e == SyncEventV::Response(t)
                && post.token == Some(t)
            &&& !(a is PersistAndListen || a is PersistAndContinue) ==> post.token == s.token
            &&& a matches SyncActionV::RetryAfter { delay_ms, since } ==> since == s.token
                && delay_ms == backoff_ms_spec(s.attempt) && post.attempt == s.attempt + 1
                && post.attempt < MAX_INITIAL_SYNC_ATTEMPTS
        }),
{
}

} // verus!
