//! UI shell state: the single-threaded update loop's state transitions.
//!
//! The shell owns the scrollback and the composer. Submitting non-empty
//! text appends one local entry (optimistic echo), clears the composer,
//! and asks the runtime to send the text and snap the scrollback to its
//! end. Messages the bridge delivers are appended in arrival order. The
//! shell is the sole writer of its scrollback.

use vstd::prelude::*;

use crate::bridge::{bridge_accepts, RoomEventV, RoomStatus, UiMessage, UiMessageV};
use crate::clock::now_timestamp_ms;
use crate::sync::token_view;

verus! {

/// The shell's state.
pub struct Shell {
    /// The local user's identifier; the sender of every submitted message.
    pub username: String,
    /// The pinned room everything is sent to.
    pub room_id: String,
    /// What stands in the composer.
    pub compose_value: String,
    /// The scrollback, append-only.
    pub messages: Vec<UiMessage>,
    /// Whether login completed and a client is available for sending.
    pub logged_in: bool,
    /// Whether login failed; a terminal state, never retried.
    pub login_failed: bool,
    /// Whether the last send failed; shown so the user can retry.
    pub send_failed: bool,
    /// The sync cursor the event loop was started from.
    pub sync_token: Option<String>,
}

/// What the update loop is handed.
pub enum ShellEvent {
    /// The composer's text changed.
    ComposerTyped(String),
    /// The composer was submitted.
    MessageSubmitted,
    /// Login completed; carries the restored sync cursor, if any.
    LoggedIn(Option<String>),
    /// Login failed.
    LoginFailed,
    /// The bridge delivered a message.
    NewMessage(UiMessage),
    /// An outbound send failed.
    SendFailed,
    /// Nothing to do.
    Noop,
}

/// What the shell asks the runtime to do.
pub enum ShellCommand {
    Idle,
    /// Snap the scrollback to its end.
    SnapToEnd,
    /// Send `contents` to `room_id`, and snap the scrollback to its end.
    SendAndSnap { room_id: String, contents: String },
    /// Launch the sync engine from the given cursor.
    StartEventLoop { sync_token: Option<String> },
}

/// Mathematical model of `Shell`.
pub struct ShellV {
    pub username: Seq<char>,
    pub room_id: Seq<char>,
    pub compose_value: Seq<char>,
    pub messages: Seq<UiMessageV>,
    pub logged_in: bool,
    pub login_failed: bool,
    pub send_failed: bool,
    pub sync_token: Option<Seq<char>>,
}

/// Mathematical model of `ShellEvent`.
pub enum ShellEventV {
    ComposerTyped(Seq<char>),
    MessageSubmitted,
    LoggedIn(Option<Seq<char>>),
    LoginFailed,
    NewMessage(UiMessageV),
    SendFailed,
    Noop,
}

/// Mathematical model of `ShellCommand`.
pub enum ShellCommandV {
    Idle,
    SnapToEnd,
    SendAndSnap { room_id: Seq<char>, contents: Seq<char> },
    StartEventLoop { sync_token: Option<Seq<char>> },
}

/// Model of a scrollback.
pub open spec fn scrollback_view(msgs: Seq<UiMessage>) -> Seq<UiMessageV> {
    msgs.map_values(|m: UiMessage| m@)
}

impl View for Shell {
    type V = ShellV;

    open spec fn view(&self) -> ShellV {
        ShellV {
            username: self.username@,
            room_id: self.room_id@,
            compose_value: self.compose_value@,
            messages: scrollback_view(self.messages@),
            logged_in: self.logged_in,
            login_failed: self.login_failed,
            send_failed: self.send_failed,
            sync_token: token_view(self.sync_token),
        }
    }
}

impl View for ShellEvent {
    type V = ShellEventV;

    open spec fn view(&self) -> ShellEventV {
        match self {
            ShellEvent::ComposerTyped(t) => ShellEventV::ComposerTyped(t@),
            ShellEvent::MessageSubmitted => ShellEventV::MessageSubmitted,
            ShellEvent::LoggedIn(t) => ShellEventV::LoggedIn(token_view(*t)),
            ShellEvent::LoginFailed => ShellEventV::LoginFailed,
            ShellEvent::NewMessage(m) => ShellEventV::NewMessage(m@),
            ShellEvent::SendFailed => ShellEventV::SendFailed,
            ShellEvent::Noop => ShellEventV::Noop,
        }
    }
}

impl View for ShellCommand {
    type V = ShellCommandV;

    open spec fn view(&self) -> ShellCommandV {
        match self {
            ShellCommand::Idle => ShellCommandV::Idle,
            ShellCommand::SnapToEnd => ShellCommandV::SnapToEnd,
            ShellCommand::SendAndSnap { room_id, contents } => ShellCommandV::SendAndSnap {
                room_id: room_id@,
                contents: contents@,
            },
            ShellCommand::StartEventLoop { sync_token } => ShellCommandV::StartEventLoop {
                sync_token: token_view(*sync_token),
            },
        }
    }
}

/// One turn of the update loop: the next shell state and the command the
/// runtime performs. `ts` is the wall clock read when a submission is
/// stamped.
pub open spec fn shell_update(s: ShellV, e: ShellEventV, ts: int) -> (ShellV, ShellCommandV) {
    match e {
        ShellEventV::ComposerTyped(t) => (ShellV { compose_value: t, ..s }, ShellCommandV::Idle),
        ShellEventV::MessageSubmitted => {
            if s.compose_value.len() == 0 {
                (s, ShellCommandV::Idle)
            } else {
                let m = UiMessageV {
                    sender: s.username,
                    contents: s.compose_value,
                    timestamp_ms: ts,
                };
                let s2 = ShellV {
                    compose_value: Seq::empty(),
                    messages: s.messages.push(m),
                    send_failed: false,
                    ..s
                };
                if s.logged_in {
                    (
                        s2,
                        ShellCommandV::SendAndSnap {
                            room_id: s.room_id,
                            contents: s.compose_value,
                        },
                    )
                } else {
                    (s2, ShellCommandV::SnapToEnd)
                }
            }
        },
        ShellEventV::LoggedIn(tok) => (
            ShellV { logged_in: true, sync_token: tok, ..s },
            ShellCommandV::StartEventLoop { sync_token: tok },
        ),
        ShellEventV::LoginFailed => (ShellV { login_failed: true, ..s }, ShellCommandV::Idle),
        ShellEventV::NewMessage(m) => (
            ShellV { messages: s.messages.push(m), ..s },
            ShellCommandV::SnapToEnd,
        ),
        ShellEventV::SendFailed => (ShellV { send_failed: true, ..s }, ShellCommandV::Idle),
        ShellEventV::Noop => (s, ShellCommandV::Idle),
    }
}

impl Shell {
    /// The shell a run starts with: the credentials' user, the pinned
    /// room, and everything else empty.
    pub fn new(username: String, room_id: String) -> (r: Shell)
        ensures
            r@.username == username@,
            r@.room_id == room_id@,
            r@.compose_value == Seq::<char>::empty(),
            r@.messages == Seq::<UiMessageV>::empty(),
            !r@.logged_in,
            !r@.login_failed,
            !r@.send_failed,
            r@.sync_token is None,
    {
        let r = Shell {
            username,
            room_id,
            compose_value: String::new(),
            messages: Vec::new(),
            logged_in: false,
            login_failed: false,
            send_failed: false,
            sync_token: None,
        };
        proof {
            assert(scrollback_view(r.messages@) =~= Seq::<UiMessageV>::empty());
        }
        r
    }

    /// Handle one event. The state changes and the command are exactly
    /// those of `shell_update`, at the wall-clock instant a submission was
    /// stamped with.
    pub fn update(&mut self, event: ShellEvent) -> (cmd: ShellCommand)
        ensures
            exists|ts: int| (final(self)@, cmd@) == shell_update(old(self)@, event@, ts),
    {
        match event {
            ShellEvent::ComposerTyped(t) => {
                self.compose_value = t;
                proof {
                    assert((self@, ShellCommand::Idle@) == shell_update(
                        old(self)@,
                        event@,
                        0int,
                    ));
                }
                ShellCommand::Idle
            },
            ShellEvent::MessageSubmitted => {
                if self.compose_value.as_str().is_empty() {
                    proof {
                        assert((self@, ShellCommand::Idle@) == shell_update(
                            old(self)@,
                            event@,
                            0int,
                        ));
                    }
                    ShellCommand::Idle
                } else {
                    let ts = now_timestamp_ms();
                    let contents = self.compose_value.clone();
                    let m = UiMessage {
                        sender: self.username.clone(),
                        contents: self.compose_value.clone(),
                        timestamp_ms: ts,
                    };
                    self.messages.push(m);
                    self.compose_value = String::new();
                    self.send_failed = false;
                    proof {
                        assert(scrollback_view(self.messages@) =~= scrollback_view(
                            old(self).messages@,
                        ).push(
                            UiMessageV {
                                sender: old(self)@.username,
                                contents: old(self)@.compose_value,
                                timestamp_ms: ts as int,
                            },
                        ));
                    }
                    if self.logged_in {
                        let cmd = ShellCommand::SendAndSnap {
                            room_id: self.room_id.clone(),
                            contents,
                        };
                        proof {
                            assert((self@, cmd@) == shell_update(old(self)@, event@, ts as int));
                        }
                        cmd
                    } else {
                        proof {
                            assert((self@, ShellCommand::SnapToEnd@) == shell_update(
                                old(self)@,
                                event@,
                                ts as int,
                            ));
                        }
                        ShellCommand::SnapToEnd
                    }
                }
            },
            ShellEvent::LoggedIn(tok) => {
                self.logged_in = true;
                self.sync_token = clone_opt(&tok);
                let cmd = ShellCommand::StartEventLoop { sync_token: tok };
                proof {
                    assert((self@, cmd@) == shell_update(old(self)@, event@, 0int));
                }
                cmd
            },
            ShellEvent::LoginFailed => {
                self.login_failed = true;
                proof {
                    assert((self@, ShellCommand::Idle@) == shell_update(old(self)@, event@, 0int));
                }
                ShellCommand::Idle
            },
            ShellEvent::NewMessage(m) => {
                self.messages.push(m);
                proof {
                    assert(scrollback_view(self.messages@) =~= scrollback_view(
                        old(self).messages@,
                    ).push(event@->NewMessage_0));
                    assert((self@, ShellCommand::SnapToEnd@) == shell_update(
                        old(self)@,
                        event@,
                        0int,
                    ));
                }
                ShellCommand::SnapToEnd
            },
            ShellEvent::SendFailed => {
                self.send_failed = true;
                proof {
                    assert((self@, ShellCommand::Idle@) == shell_update(old(self)@, event@, 0int));
                }
                ShellCommand::Idle
            },
            ShellEvent::Noop => {
                proof {
                    assert((self@, ShellCommand::Idle@) == shell_update(old(self)@, event@, 0int));
                }
                ShellCommand::Idle
            },
        }
    }
}

/// Clone an optional token.
fn clone_opt(t: &Option<String>) -> (r: Option<String>)
    ensures
        token_view(r) == token_view(*t),
{
    match t {
        Some(s) => Some(s.clone()),
        None => None,
    }
}

/// The scrollback is append-only: no update turn removes, changes or
/// reorders entries, and each turn appends at most one.
pub proof fn lemma_scrollback_append_only(s: ShellV, e: ShellEventV, ts: int)
    ensures
        ({
            let (s2, _) = shell_update(s, e, ts);
            &&& s.messages.is_prefix_of(s2.messages)
            &&& s2.messages.len() <= s.messages.len() + 1
        }),
{
    let (s2, _) = shell_update(s, e, ts);
    if s2.messages.len() == s.messages.len() + 1 {
        assert(s.messages =~= s2.messages.subrange(0, s.messages.len() as int));
    } else {
        assert(s.messages =~= s2.messages.subrange(0, s.messages.len() as int));
    }
}

/// No self-duplication. Submitting non-empty text appends exactly one
/// scrollback entry, attributed to the local user; and the homeserver's
/// echo of it — a room event whose sender is the local user — is refused
/// by the bridge's filter, so no second entry can ever be delivered for
/// it.
pub proof fn lemma_no_self_duplication(
    s: ShellV,
    ts: int,
    status: RoomStatus,
    echo: RoomEventV,
)
    requires
        s.compose_value.len() > 0,
        echo.sender == s.username,
    ensures
        ({
            let (s2, _) = shell_update(s, ShellEventV::MessageSubmitted, ts);
            s2.messages == s.messages.push(
                UiMessageV { sender: s.username, contents: s.compose_value, timestamp_ms: ts },
            )
        }),
        !bridge_accepts(s.username, status, echo),
{
}

} // verus!
