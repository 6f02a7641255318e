//! Persistent session state.
//!
//! A `FullSession` is the single document persisted to disk: the client
//! store parameters chosen at first login, the authenticated user session,
//! and the most recently acknowledged sync token.

use vstd::prelude::*;

verus! {

/// Parameters the local encrypted store was created with. Generated once at
/// first login and never mutated.
pub struct ClientSession {
    /// Homeserver URL, `https://` plus the server part of the user id.
    pub homeserver: String,
    /// Directory of the encrypted on-disk store.
    pub db_path: String,
    /// 32-character alphanumeric passphrase encrypting that store.
    pub passphrase: String,
}

/// What an authenticated session resumes from: the user's identity, the
/// device created at login, and its access token.
pub struct UserSession {
    pub user_id: String,
    pub device_id: String,
    pub access_token: String,
}

/// The persisted document: store parameters, user session, and the sync
/// cursor (absent until the first sync response is acknowledged).
pub struct FullSession {
    pub client_session: ClientSession,
    pub user_session: UserSession,
    pub sync_token: Option<String>,
}

/// Mathematical model of `ClientSession`.
pub struct ClientSessionV {
    pub homeserver: Seq<char>,
    pub db_path: Seq<char>,
    pub passphrase: Seq<char>,
}

/// Mathematical model of `UserSession`.
pub struct UserSessionV {
    pub user_id: Seq<char>,
    pub device_id: Seq<char>,
    pub access_token: Seq<char>,
}

/// Mathematical model of `FullSession`.
pub struct FullSessionV {
    pub client_session: ClientSessionV,
    pub user_session: UserSessionV,
    pub sync_token: Option<Seq<char>>,
}

impl View for ClientSession {
    type V = ClientSessionV;

    open spec fn view(&self) -> ClientSessionV {
        ClientSessionV {
            homeserver: self.homeserver@,
            db_path: self.db_path@,
            passphrase: self.passphrase@,
        }
    }
}

impl View for UserSession {
    type V = UserSessionV;

    open spec fn view(&self) -> UserSessionV {
        UserSessionV {
            user_id: self.user_id@,
            device_id: self.device_id@,
            access_token: self.access_token@,
        }
    }
}

impl View for FullSession {
    type V = FullSessionV;

    open spec fn view(&self) -> FullSessionV {
        FullSessionV {
            client_session: self.client_session@,
            user_session: self.user_session@,
            sync_token: match self.sync_token {
                Some(ref t) => Some(t@),
                None => None,
            },
        }
    }
}

impl FullSession {
    /// Replace the persisted sync cursor, leaving everything else unchanged.
    /// The cursor only ever advances to a token the homeserver has just
    /// returned; the caller persists the result.
    pub fn with_sync_token(self, token: String) -> (r: FullSession)
        ensures
            r@.client_session == self@.client_session,
            r@.user_session == self@.user_session,
            r@.sync_token == Some(token@),
    {
        FullSession {
            client_session: self.client_session,
            user_session: self.user_session,
            sync_token: Some(token),
        }
    }
}

} // verus!
