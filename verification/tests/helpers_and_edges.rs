//! Edge cases for the string helpers, failure messages and bounds.

use livenac::auth::{device_poll_step, AuthError, DeviceNext, DevicePollOutcome};
use livenac::config::{remove_profile, Config, Profile};
use livenac::state::{AppState, Session};
use livenac::strutil::{str_eq, str_has_prefix, trim_end_str};
use livenac::token::Token;

#[test]
fn string_equality_is_character_wise() {
    assert!(str_eq("", ""));
    assert!(str_eq("abc", "abc"));
    assert!(!str_eq("abc", "abd"));
    assert!(!str_eq("abc", "abcd"));
    assert!(str_eq("héllo", "héllo"));
}

#[test]
fn prefix_check() {
    assert!(str_has_prefix("https://x", "https://"));
    assert!(!str_has_prefix("http", "https://"));
    assert!(str_has_prefix("anything", ""));
}

#[test]
fn trailing_whitespace_trimming() {
    assert_eq!(trim_end_str("hello   "), "hello");
    assert_eq!(trim_end_str("hello"), "hello");
    assert_eq!(trim_end_str("a\t\n "), "a");
    assert_eq!(trim_end_str("   "), "");
    assert_eq!(trim_end_str(""), "");
    assert_eq!(trim_end_str("a b"), "a b");
    // A non-breaking space counts as white space.
    assert_eq!(trim_end_str("x\u{a0}"), "x");
}

#[test]
fn auth_error_messages() {
    assert_eq!(AuthError::NoActiveProfile.message(), "No active profile selected.");
    assert_eq!(AuthError::NotFound.message(), "No stored token found.");
    assert_eq!(AuthError::Invalid.message(), "Failed to validate token");
    assert_eq!(
        AuthError::StateMismatch.message(),
        "Authorization response carried an unexpected state token."
    );
    assert_eq!(AuthError::Timeout.message(), "Timed out waiting for authorization.");
    assert_eq!(AuthError::ExchangeFailed.message(), "Failed to get token from device flow");
    assert_eq!(AuthError::ProviderRejected.message(), "The authorization request was denied.");
    assert!(AuthError::PortInUse.message().contains("port 3000"));
}

#[test]
fn slow_down_beyond_expiry_times_out() {
    assert_eq!(
        device_poll_step(DevicePollOutcome::SlowDown, 1795, 0, 1799),
        DeviceNext::Fail(AuthError::Timeout)
    );
    assert_eq!(
        device_poll_step(DevicePollOutcome::SlowDown, u64::MAX, 0, u64::MAX),
        DeviceNext::Fail(AuthError::Timeout)
    );
}

#[test]
fn removing_a_missing_profile_changes_nothing_else() {
    let mut config = Config::default();
    config.profiles.push(Profile { name: String::from("a"), twitch_user_id: None });
    config.active_profile_name = Some(String::from("a"));
    remove_profile(&mut config, "zzz");
    assert_eq!(config.profiles.len(), 1);
    assert_eq!(config.active_profile_name.as_deref(), Some("a"));
}

#[test]
fn send_is_gated_on_channel_and_progress() {
    let mut session = Session::new_session(Token {
        access_token: String::from("t"),
        refresh_token: None,
        login: String::from("alice"),
        user_id: String::from("1"),
    });
    assert!(!session.can_send());
    assert!(session.begin_send(false).is_none());
    session.current_channel = Some(String::from("chan"));
    session.message_to_send = String::from("hi");
    assert!(session.can_send());
    let req = session.begin_send(true).unwrap();
    assert!(matches!(
        req.kind,
        livenac::chat::SendKind::Announcement(Some(livenac::chat::AnnouncementColor::Primary))
    ));
    assert!(!session.can_send());
}

#[test]
fn claim_bootstrap_elsewhere_is_a_no_op() {
    let mut state = AppState::ProfileSelection { error: None };
    assert!(!state.claim_bootstrap());
    assert_eq!(state, AppState::ProfileSelection { error: None });
}
