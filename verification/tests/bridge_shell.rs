use reochat::auth::{plan_login, LoginPlan};
use reochat::bridge::{
    on_room_message, process_room_events, room_label, MessageContent, RoomEvent, RoomStatus,
    UiMessage,
};
use reochat::codec::{parse_full_session, serialize_full_session};
use reochat::dispatch::{send_outcome_event, validate_room_id};
use reochat::session::{ClientSession, FullSession, UserSession};
use reochat::shell::{Shell, ShellCommand, ShellEvent};

fn text_event(sender: &str, body: &str) -> RoomEvent {
    RoomEvent {
        sender: String::from(sender),
        content: MessageContent::Text(String::from(body)),
    }
}

fn shell_for(user: &str) -> Shell {
    Shell::new(String::from(user), String::from("!room:example.org"))
}

#[test]
fn incoming_text_is_delivered_with_a_fresh_timestamp() {
    let local = String::from("@alice:example.org");
    let ev = text_event("@bob:example.org", "hi");
    let m = on_room_message(&ev, RoomStatus::Joined, &local).expect("a remote text is delivered");
    assert_eq!(m.sender, "@bob:example.org");
    assert_eq!(m.contents, "hi");
    let now = chrono::Local::now().timestamp_millis();
    assert!((now - m.timestamp_ms).abs() < 2000);
}

#[test]
fn own_messages_are_filtered_out() {
    let local = String::from("@alice:example.org");
    let echo = text_event("@alice:example.org", "hello");
    assert!(on_room_message(&echo, RoomStatus::Joined, &local).is_none());
}

#[test]
fn non_joined_rooms_are_filtered_out() {
    let local = String::from("@alice:example.org");
    let ev = text_event("@bob:example.org", "hi");
    assert!(on_room_message(&ev, RoomStatus::Left, &local).is_none());
    assert!(on_room_message(&ev, RoomStatus::Invited, &local).is_none());
}

#[test]
fn non_text_events_are_filtered_out() {
    let local = String::from("@alice:example.org");
    let image = RoomEvent {
        sender: String::from("@bob:example.org"),
        content: MessageContent::NonText,
    };
    assert!(on_room_message(&image, RoomStatus::Joined, &local).is_none());
}

#[test]
fn one_response_is_delivered_in_server_order() {
    let local = String::from("@alice:example.org");
    let events = vec![
        text_event("@bob:example.org", "first"),
        text_event("@alice:example.org", "my own echo"),
        RoomEvent { sender: String::from("@carol:example.org"), content: MessageContent::NonText },
        text_event("@carol:example.org", "second"),
    ];
    let out = process_room_events(&events, RoomStatus::Joined, &local);
    let pairs: Vec<(&str, &str)> =
        out.iter().map(|m| (m.sender.as_str(), m.contents.as_str())).collect();
    assert_eq!(
        pairs,
        vec![("@bob:example.org", "first"), ("@carol:example.org", "second")]
    );
}

#[test]
fn room_label_falls_back_to_the_id() {
    assert_eq!(
        room_label(Some(String::from("The Room")), String::from("!r:example.org")),
        "The Room"
    );
    assert_eq!(room_label(None, String::from("!r:example.org")), "!r:example.org");
}

#[test]
fn typing_fills_the_composer() {
    let mut shell = shell_for("@alice:example.org");
    match shell.update(ShellEvent::ComposerTyped(String::from("hel"))) {
        ShellCommand::Idle => {}
        _ => panic!("typing issues no command"),
    }
    assert_eq!(shell.compose_value, "hel");
    assert!(shell.messages.is_empty());
}

#[test]
fn submit_appends_one_local_echo_and_sends() {
    let mut shell = shell_for("@alice:example.org");
    shell.logged_in = true;
    shell.update(ShellEvent::ComposerTyped(String::from("hello")));
    match shell.update(ShellEvent::MessageSubmitted) {
        ShellCommand::SendAndSnap { room_id, contents } => {
            assert_eq!(room_id, "!room:example.org");
            assert_eq!(contents, "hello");
        }
        _ => panic!("a logged-in submit sends and snaps"),
    }
    assert_eq!(shell.messages.len(), 1);
    assert_eq!(shell.messages[0].sender, "@alice:example.org");
    assert_eq!(shell.messages[0].contents, "hello");
    assert_eq!(shell.compose_value, "");
}

#[test]
fn the_echoed_submit_never_appears_twice() {
    let mut shell = shell_for("@alice:example.org");
    shell.logged_in = true;
    shell.update(ShellEvent::ComposerTyped(String::from("hello")));
    shell.update(ShellEvent::MessageSubmitted);
    assert_eq!(shell.messages.len(), 1);

    // The homeserver echoes the message back in the next sync response.
    let echo = text_event("@alice:example.org", "hello");
    let delivered = on_room_message(&echo, RoomStatus::Joined, &shell.username);
    assert!(delivered.is_none());
    assert_eq!(shell.messages.len(), 1);
}

#[test]
fn empty_submits_do_nothing() {
    let mut shell = shell_for("@alice:example.org");
    match shell.update(ShellEvent::MessageSubmitted) {
        ShellCommand::Idle => {}
        _ => panic!("an empty submit is ignored"),
    }
    assert!(shell.messages.is_empty());
}

#[test]
fn submit_before_login_only_echoes_locally() {
    let mut shell = shell_for("@alice:example.org");
    shell.update(ShellEvent::ComposerTyped(String::from("early")));
    match shell.update(ShellEvent::MessageSubmitted) {
        ShellCommand::SnapToEnd => {}
        _ => panic!("without a client the shell only snaps"),
    }
    assert_eq!(shell.messages.len(), 1);
}

#[test]
fn login_starts_the_event_loop_from_the_cursor() {
    let mut shell = shell_for("@alice:example.org");
    match shell.update(ShellEvent::LoggedIn(Some(String::from("T0")))) {
        ShellCommand::StartEventLoop { sync_token } => {
            assert_eq!(sync_token.as_deref(), Some("T0"))
        }
        _ => panic!("login starts the event loop"),
    }
    assert!(shell.logged_in);
    assert_eq!(shell.sync_token.as_deref(), Some("T0"));
}

#[test]
fn failed_login_is_terminal() {
    let mut shell = shell_for("@alice:example.org");
    match shell.update(ShellEvent::LoginFailed) {
        ShellCommand::Idle => {}
        _ => panic!("a failed login issues no command"),
    }
    assert!(shell.login_failed);
}

#[test]
fn delivered_messages_append_and_snap() {
    let mut shell = shell_for("@alice:example.org");
    let m = UiMessage {
        sender: String::from("@bob:example.org"),
        contents: String::from("hi"),
        timestamp_ms: 0,
    };
    match shell.update(ShellEvent::NewMessage(m)) {
        ShellCommand::SnapToEnd => {}
        _ => panic!("a delivered message snaps the scrollback"),
    }
    assert_eq!(shell.messages.len(), 1);
    assert_eq!(shell.messages[0].sender, "@bob:example.org");
}

#[test]
fn a_failed_send_surfaces_and_a_resubmit_clears_it() {
    let mut shell = shell_for("@alice:example.org");
    shell.update(send_outcome_event(false));
    assert!(shell.send_failed);
    shell.update(ShellEvent::ComposerTyped(String::from("again")));
    shell.update(ShellEvent::MessageSubmitted);
    assert!(!shell.send_failed);
}

#[test]
fn a_successful_send_is_a_noop() {
    let mut shell = shell_for("@alice:example.org");
    shell.update(send_outcome_event(true));
    assert!(!shell.send_failed);
    assert!(shell.messages.is_empty());
}

#[test]
fn room_ids_are_validated_before_sending() {
    assert!(validate_room_id(&String::from("!room:example.org")));
    assert!(!validate_room_id(&String::from("room:example.org")));
    assert!(!validate_room_id(&String::from("!roomexample")));
    assert!(!validate_room_id(&String::from("")));
}

#[test]
fn a_stored_session_is_restored_not_relogged() {
    let fs = FullSession {
        client_session: ClientSession {
            homeserver: String::from("https://example.org"),
            db_path: String::from("data/AbCdEfG"),
            passphrase: String::from("0123456789abcdefghijklmnopqrstuv"),
        },
        user_session: UserSession {
            user_id: String::from("@alice:example.org"),
            device_id: String::from("DEVICE01"),
            access_token: String::from("syt_token_123"),
        },
        sync_token: Some(String::from("T0")),
    };
    // What the first run persisted, the second run reads back whole.
    let doc = serialize_full_session(&fs);
    let stored = parse_full_session(&doc).expect("the persisted document parses");
    match plan_login(Some(stored)) {
        LoginPlan::Restore(restored) => {
            assert_eq!(restored.user_session.access_token, "syt_token_123");
            assert_eq!(restored.sync_token.as_deref(), Some("T0"));
        }
        LoginPlan::FreshLogin => panic!("a stored session never leads to a password login"),
    }
}

#[test]
fn no_stored_session_means_a_fresh_login() {
    match plan_login(None) {
        LoginPlan::FreshLogin => {}
        LoginPlan::Restore(_) => panic!("nothing stored, nothing to restore"),
    }
}
