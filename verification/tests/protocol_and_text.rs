//! The subscription protocol handshake, notification decoding, link
//! splitting, credential-flow decisions and path layout.

use livenac::auth::{
    authorize_url, callback_outcome, check_callback_state, device_poll_step, route_request,
    silent_login_plan, validation_outcome, AuthError, DeviceNext, DevicePollOutcome,
    SilentLoginPlan,
};
use livenac::chat::{validate_message, AnnouncementColor};
use livenac::config::{
    apply_profile_action, first_time_setup_submit, Config, ProfileActionOutcome,
    ProfileManagerAction,
};
use livenac::events::ChatEvent;
use livenac::eventsub::{
    decode_notification, parse_color, EsAction, EventSubClient, Frame, Notification, RawFragment,
};
use livenac::paths::{config_file_path, token_file_path};
use livenac::text::{parse_text_for_urls, TextOrUrl};
use livenac::token::Token;

fn token(login: &str, id: &str) -> Token {
    Token {
        access_token: String::from("tok"),
        refresh_token: None,
        login: String::from(login),
        user_id: String::from(id),
    }
}

fn notification() -> Notification {
    Notification {
        chatter_name: String::from("Bob"),
        color: String::from("#FF8000"),
        fragments: vec![
            RawFragment { text: String::from("hi "), emote_id: None },
            RawFragment { text: String::from("Kappa"), emote_id: Some(String::from("25")) },
        ],
    }
}

#[test]
fn handshake_welcome_then_subscribe_then_stream() {
    let mut client = EventSubClient::new(String::from("1"), String::from("42"));
    client.on_connected();
    let actions = client.handle_frame(
        Frame::Welcome { session_id: String::from("sess-7") },
        100,
    );
    assert_eq!(
        actions,
        vec![EsAction::Subscribe {
            session_id: String::from("sess-7"),
            broadcaster_id: String::from("42"),
            user_id: String::from("1"),
        }]
    );
    assert_eq!(client.session_id.as_deref(), Some("sess-7"));
    let actions = client.on_subscribe_result(Ok(()));
    assert!(actions.is_empty());
    let actions = client.handle_frame(Frame::Notification(notification()), 500);
    assert_eq!(actions.len(), 1);
    match &actions[0] {
        EsAction::Emit(ChatEvent::NewChatMessage(m)) => {
            assert_eq!(m.sender_name, "Bob");
            assert_eq!(m.sender_color, Some((255, 128, 0)));
            assert_eq!(m.timestamp, 500);
        }
        other => panic!("unexpected action {:?}", other),
    }
    assert!(client.handle_frame(Frame::Keepalive, 501).is_empty());
    assert!(client.handle_frame(Frame::Reconnect, 502).is_empty());
    assert!(client.handle_frame(Frame::Revocation, 503).is_empty());
}

#[test]
fn unexpected_first_frame_is_a_protocol_error() {
    let mut client = EventSubClient::new(String::from("1"), String::from("42"));
    client.on_connected();
    let actions = client.handle_frame(Frame::Keepalive, 1);
    assert_eq!(actions.len(), 2);
    assert!(matches!(
        &actions[0],
        EsAction::Emit(ChatEvent::EventSubError(e)) if e == "unexpected first frame"
    ));
    assert_eq!(actions[1], EsAction::Stop);
    // Terminal: further frames do nothing.
    assert!(client.handle_frame(Frame::Keepalive, 2).is_empty());
}

#[test]
fn subscription_rejection_stops_the_machine() {
    let mut client = EventSubClient::new(String::from("1"), String::from("42"));
    client.on_connected();
    client.handle_frame(Frame::Welcome { session_id: String::from("s") }, 0);
    let actions = client.on_subscribe_result(Err(String::from("forbidden")));
    assert_eq!(actions.len(), 2);
    assert!(matches!(
        &actions[0],
        EsAction::Emit(ChatEvent::EventSubError(e)) if e == "forbidden"
    ));
    assert_eq!(actions[1], EsAction::Stop);
}

#[test]
fn closed_connection_surfaces_while_streaming() {
    let mut client = EventSubClient::new(String::from("1"), String::from("42"));
    client.on_connected();
    client.handle_frame(Frame::Welcome { session_id: String::from("s") }, 0);
    client.on_subscribe_result(Ok(()));
    let actions = client.handle_frame(Frame::Closed, 9);
    assert_eq!(actions.len(), 2);
    assert!(matches!(
        &actions[0],
        EsAction::Emit(ChatEvent::EventSubError(e)) if e == "connection closed"
    ));
    assert_eq!(actions[1], EsAction::Stop);
}

#[test]
fn notification_decoding_resolves_emotes() {
    let m = decode_notification(&notification(), 7);
    assert_eq!(m.fragments.len(), 2);
    match &m.fragments[1] {
        livenac::models::MessageFragment::Emote(e) => {
            assert_eq!(e.name, "Kappa");
            assert_eq!(
                e.url,
                "https://static-cdn.jtvnw.net/emoticons/v2/25/default/dark/1.0"
            );
            assert_eq!(e.source, livenac::models::EmoteSource::Twitch);
        }
        other => panic!("unexpected fragment {:?}", other),
    }
}

#[test]
fn color_parsing_is_exact() {
    assert_eq!(parse_color("#FF8000"), Some((255, 128, 0)));
    assert_eq!(parse_color("#00a1b2"), Some((0, 161, 178)));
    // A malformed pair falls back to 255, per component.
    assert_eq!(parse_color("#GG00ZZ"), Some((255, 0, 255)));
    assert_eq!(parse_color("red"), None);
    assert_eq!(parse_color(""), None);
    assert_eq!(parse_color("FF8000 "), None);
}

#[test]
fn link_splitting_keeps_surrounding_text() {
    let segments = parse_text_for_urls("see https://example.com now");
    assert_eq!(
        segments,
        vec![
            TextOrUrl::Text(String::from("see ")),
            TextOrUrl::Url(String::from("https://example.com")),
            TextOrUrl::Text(String::from(" now")),
        ]
    );
}

#[test]
fn bare_hosts_get_a_scheme() {
    let segments = parse_text_for_urls("www.example.com");
    assert_eq!(
        segments,
        vec![TextOrUrl::Url(String::from("http://www.example.com"))]
    );
}

#[test]
fn plain_text_stays_whole() {
    assert_eq!(
        parse_text_for_urls("no links here"),
        vec![TextOrUrl::Text(String::from("no links here"))]
    );
    assert_eq!(parse_text_for_urls(""), Vec::<TextOrUrl>::new());
}

#[test]
fn message_validation_limits() {
    assert!(validate_message("hi").is_ok());
    assert_eq!(
        validate_message("").unwrap_err(),
        "Message cannot be empty"
    );
    let long = "x".repeat(501);
    assert_eq!(
        validate_message(&long),
        Err(String::from("Message too long (max 500 characters)"))
    );
    assert!(validate_message(&"x".repeat(500)).is_ok());
}

#[test]
fn announcement_colors_have_wire_names() {
    assert_eq!(AnnouncementColor::Blue.as_str(), "blue");
    assert_eq!(AnnouncementColor::Green.as_str(), "green");
    assert_eq!(AnnouncementColor::Orange.as_str(), "orange");
    assert_eq!(AnnouncementColor::Purple.as_str(), "purple");
    assert_eq!(AnnouncementColor::Primary.as_str(), "primary");
}

#[test]
fn paths_are_laid_out_per_profile() {
    assert_eq!(
        token_file_path("/home/u/.config", "alice"),
        "/home/u/.config/livenac/profiles/alice/token.json"
    );
    assert_eq!(
        config_file_path("/home/u/.config"),
        "/home/u/.config/livenac/config.json"
    );
}

#[test]
fn validation_outcome_reports_status_and_body() {
    assert!(validation_outcome(200, "").is_ok());
    assert!(validation_outcome(204, "x").is_ok());
    assert_eq!(
        validation_outcome(401, "unauthorized"),
        Err(String::from("Token validation failed with status 401: unauthorized"))
    );
}

#[test]
fn device_flow_polling_decisions() {
    let t = token("alice", "1");
    assert_eq!(
        device_poll_step(DevicePollOutcome::AuthorizationPending, 5, 10, 1800),
        DeviceNext::PollAgain { delay: 5 }
    );
    assert_eq!(
        device_poll_step(DevicePollOutcome::AuthorizationPending, 5, 1799, 1800),
        DeviceNext::Fail(AuthError::Timeout)
    );
    assert_eq!(
        device_poll_step(DevicePollOutcome::SlowDown, 5, 10, 1800),
        DeviceNext::PollAgain { delay: 10 }
    );
    assert_eq!(
        device_poll_step(DevicePollOutcome::Denied, 5, 10, 1800),
        DeviceNext::Fail(AuthError::ProviderRejected)
    );
    assert_eq!(
        device_poll_step(DevicePollOutcome::Expired, 5, 10, 1800),
        DeviceNext::Fail(AuthError::Timeout)
    );
    assert_eq!(
        device_poll_step(DevicePollOutcome::Granted(t.clone()), 5, 10, 1800),
        DeviceNext::Done(t)
    );
    assert_eq!(
        device_poll_step(DevicePollOutcome::TransportError(String::from("dns")), 5, 10, 1800),
        DeviceNext::Fail(AuthError::ExchangeFailed)
    );
}

#[test]
fn callback_state_must_match() {
    assert!(check_callback_state("abc", "abc").is_ok());
    assert_eq!(
        check_callback_state("abc", "abd"),
        Err(AuthError::StateMismatch)
    );
}

#[test]
fn single_use_listener_routes() {
    let ok = route_request("GET", "/");
    assert_eq!(ok.status, 200);
    assert!(ok.body.contains("Login complete"));
    let missing = route_request("GET", "/favicon.ico");
    assert_eq!(missing.status, 404);
    assert_eq!(missing.body, "Not Found");
    assert_eq!(route_request("POST", "/").status, 404);
}

#[test]
fn authorize_url_carries_the_request_and_state() {
    let url = authorize_url("abc", "xyz42").expect("the fixed base parses");
    assert!(url.starts_with("https://id.twitch.tv/oauth2/authorize?"));
    assert!(url.contains("response_type=token"));
    assert!(url.contains("client_id=abc"));
    assert!(url.contains("force_verify=true"));
    assert!(url.contains("scope="));
    assert!(url.contains("state=xyz42"));
}

#[test]
fn callback_outcome_enforces_the_state_token() {
    assert_eq!(
        callback_outcome("xyz", &None, &Some(String::from("tok"))),
        Err(AuthError::StateMismatch)
    );
    assert_eq!(
        callback_outcome("xyz", &Some(String::from("forged")), &Some(String::from("tok"))),
        Err(AuthError::StateMismatch)
    );
    assert_eq!(
        callback_outcome("xyz", &Some(String::from("xyz")), &None),
        Err(AuthError::ExchangeFailed)
    );
    assert_eq!(
        callback_outcome("xyz", &Some(String::from("xyz")), &Some(String::from("tok"))),
        Ok(String::from("tok"))
    );
}

#[test]
fn silent_login_plan_requires_client_id_and_profile() {
    let mut config = Config::default();
    assert!(matches!(
        silent_login_plan(&config),
        SilentLoginPlan::FailFast(m) if m == "Client ID not configured"
    ));
    config.client_id = Some(String::from("abc"));
    assert!(matches!(
        silent_login_plan(&config),
        SilentLoginPlan::FailFast(m) if m == "No active profile selected."
    ));
    livenac::config::add_profile(&mut config, "alice");
    config.active_profile_name = Some(String::from("alice"));
    match silent_login_plan(&config) {
        SilentLoginPlan::Attempt { client_id, profile_name } => {
            assert_eq!(client_id, "abc");
            assert_eq!(profile_name, "alice");
        }
        other => panic!("unexpected plan {:?}", other),
    }
}

#[test]
fn first_time_setup_validates_inputs() {
    let mut config = Config::default();
    assert_eq!(
        first_time_setup_submit(&mut config, &String::new(), &String::from("p")),
        Err(String::from("Client ID cannot be empty."))
    );
    assert_eq!(
        first_time_setup_submit(&mut config, &String::from("abc"), &String::new()),
        Err(String::from("Profile Name cannot be empty."))
    );
    // The client id entered alongside the failed submission is kept.
    assert_eq!(config.client_id.as_deref(), Some("abc"));
    assert!(first_time_setup_submit(&mut config, &String::from("abc"), &String::from("p")).is_ok());
    assert_eq!(config.active_profile_name.as_deref(), Some("p"));
    assert_eq!(
        first_time_setup_submit(&mut config, &String::from("abc"), &String::from("p")),
        Err(String::from("A profile with this name already exists."))
    );
}

#[test]
fn profile_manager_actions() {
    let mut config = Config::default();
    assert_eq!(
        apply_profile_action(&mut config, ProfileManagerAction::Add(String::from("a"))),
        ProfileActionOutcome::Added
    );
    assert_eq!(
        apply_profile_action(&mut config, ProfileManagerAction::Add(String::from("a"))),
        ProfileActionOutcome::AlreadyExists
    );
    assert_eq!(
        apply_profile_action(&mut config, ProfileManagerAction::Login(String::from("a"))),
        ProfileActionOutcome::StartLogin(String::from("a"))
    );
    config.active_profile_name = Some(String::from("a"));
    assert_eq!(
        apply_profile_action(&mut config, ProfileManagerAction::Remove(String::from("a"))),
        ProfileActionOutcome::Removed
    );
    assert!(config.profiles.is_empty());
    assert!(config.active_profile_name.is_none());
}

#[test]
fn active_profile_lookup() {
    let mut config = Config::default();
    assert!(config.get_active_profile().is_none());
    livenac::config::add_profile(&mut config, "a");
    livenac::config::add_profile(&mut config, "b");
    config.active_profile_name = Some(String::from("b"));
    assert_eq!(config.get_active_profile().unwrap().name, "b");
    config.active_profile_name = Some(String::from("missing"));
    assert!(config.get_active_profile().is_none());
}
