use reochat::errors::BuildError;
use reochat::factory::{
    backoff_delay_ms, build_error_is_transient, derive_homeserver, make_client_session,
    next_build_step, BuildStep, MAX_BUILD_ATTEMPTS,
};
use reochat::rng::generate_store_params;

#[test]
fn homeserver_from_user_id() {
    let url = derive_homeserver("@alice:example.org").expect("the id has a server part");
    assert_eq!(url, "https://example.org");
}

#[test]
fn homeserver_splits_on_the_first_colon() {
    let url = derive_homeserver("@alice:example.org:8448").expect("the id has a server part");
    assert_eq!(url, "https://example.org:8448");
}

#[test]
fn homeserver_with_an_empty_server_part() {
    let url = derive_homeserver("@alice:").expect("a trailing colon still splits");
    assert_eq!(url, "https://");
}

#[test]
fn homeserver_with_a_leading_colon() {
    let url = derive_homeserver(":example.org").expect("a leading colon still splits");
    assert_eq!(url, "https://example.org");
}

#[test]
fn homeserver_needs_a_colon() {
    assert!(derive_homeserver("alice.example.org").is_none());
    assert!(derive_homeserver("").is_none());
}

#[test]
fn store_params_have_the_documented_shape() {
    let (subfolder, passphrase) = generate_store_params();
    assert_eq!(subfolder.chars().count(), 7);
    assert_eq!(passphrase.chars().count(), 32);
    assert!(subfolder.chars().all(|c| c.is_ascii_alphanumeric()));
    assert!(passphrase.chars().all(|c| c.is_ascii_alphanumeric()));
}

#[test]
fn store_params_are_random() {
    // Two draws agreeing on all 39 characters is as good as impossible.
    let (sub1, pass1) = generate_store_params();
    let (sub2, pass2) = generate_store_params();
    assert!(sub1 != sub2 || pass1 != pass2);
}

#[test]
fn client_session_names_fresh_store_parameters() {
    let cs = make_client_session("@alice:example.org", "data").expect("the id has a server part");
    assert_eq!(cs.homeserver, "https://example.org");
    assert!(cs.db_path.starts_with("data/"));
    assert_eq!(cs.db_path.chars().count(), "data/".len() + 7);
    assert!(cs.db_path["data/".len()..].chars().all(|c| c.is_ascii_alphanumeric()));
    assert_eq!(cs.passphrase.chars().count(), 32);
    assert!(cs.passphrase.chars().all(|c| c.is_ascii_alphanumeric()));
}

#[test]
fn client_session_needs_a_server_part() {
    assert!(make_client_session("alice", "data").is_none());
}

#[test]
fn transient_errors_are_the_three_distinguished_ones() {
    assert!(build_error_is_transient(&BuildError::AutoDiscoveryFailed));
    assert!(build_error_is_transient(&BuildError::MalformedUrl));
    assert!(build_error_is_transient(&BuildError::HttpError));
    assert!(!build_error_is_transient(&BuildError::Fatal));
}

#[test]
fn backoff_doubles_and_caps() {
    assert_eq!(backoff_delay_ms(0), 250);
    assert_eq!(backoff_delay_ms(1), 500);
    assert_eq!(backoff_delay_ms(2), 1000);
    assert_eq!(backoff_delay_ms(5), 8000);
    assert_eq!(backoff_delay_ms(6), 16000);
    assert_eq!(backoff_delay_ms(12), 16000);
}

#[test]
fn transient_failures_are_retried_with_backoff() {
    match next_build_step(1, &BuildError::HttpError) {
        BuildStep::Retry { delay_ms } => assert_eq!(delay_ms, 250),
        BuildStep::GiveUp => panic!("the first transient failure is retried"),
    }
    match next_build_step(3, &BuildError::AutoDiscoveryFailed) {
        BuildStep::Retry { delay_ms } => assert_eq!(delay_ms, 1000),
        BuildStep::GiveUp => panic!("a transient failure with attempts left is retried"),
    }
}

#[test]
fn fatal_failures_give_up_at_once() {
    assert_eq!(next_build_step(1, &BuildError::Fatal), BuildStep::GiveUp);
}

#[test]
fn retries_are_bounded() {
    assert_eq!(
        next_build_step(MAX_BUILD_ATTEMPTS, &BuildError::HttpError),
        BuildStep::GiveUp
    );
}
