//! Scenario tests for the session reducer: the transition table, the chat
//! log cap, and the channel-switch protocol.

use livenac::config::Config;
use livenac::events::{AppEvent, AuthMessage, ChatEvent, Effect};
use livenac::models::{ChatMessage, Emote, EmoteImages, EmoteSource, MessageFragment, TwitchEmote};
use livenac::reducer::reduce;
use livenac::state::{AppState, Session};
use livenac::token::Token;

fn token(login: &str, id: &str) -> Token {
    Token {
        access_token: String::from("secrettoken"),
        refresh_token: None,
        login: String::from(login),
        user_id: String::from(id),
    }
}

fn config_with_client_id() -> Config {
    let mut c = Config::default();
    c.client_id = Some(String::from("abc"));
    c
}

fn message(sender: &str, text: &str) -> ChatMessage {
    ChatMessage {
        sender_name: String::from(sender),
        sender_color: Some((10, 20, 30)),
        fragments: vec![MessageFragment::Text(String::from(text))],
        timestamp: 1000,
    }
}

fn logged_in_state() -> AppState {
    let mut session = Session::new_session(token("alice", "1"));
    session.current_channel = Some(String::from("somechannel"));
    AppState::LoggedIn(session)
}

#[test]
fn config_load_failure_goes_to_setup() {
    let mut state = AppState::Startup { task_spawned: true };
    let mut config = Config::default();
    let effects = reduce(
        &mut state,
        AppEvent::ConfigLoaded(Err(String::from("boom"))),
        &mut config,
    );
    assert!(effects.is_empty());
    match state {
        AppState::FirstTimeSetup { error, .. } => {
            assert_eq!(error.as_deref(), Some("Failed to load config: boom"));
        }
        other => panic!("unexpected state {:?}", other),
    }
}

#[test]
fn config_load_success_schedules_silent_login() {
    let mut state = AppState::Startup { task_spawned: true };
    let mut config = Config::default();
    let effects = reduce(
        &mut state,
        AppEvent::ConfigLoaded(Ok(config_with_client_id())),
        &mut config,
    );
    assert_eq!(config.client_id.as_deref(), Some("abc"));
    assert_eq!(state, AppState::Startup { task_spawned: true });
    assert_eq!(
        effects,
        vec![Effect::StartSilentLogin {
            client_id: Some(String::from("abc")),
            active_profile: None,
        }]
    );
}

#[test]
fn silent_login_failure_without_profiles_goes_to_setup() {
    // ConfigLoaded(Ok(cfg with client id, no profiles)), then a failed
    // silent login, ends in first-time setup.
    let mut state = AppState::Startup { task_spawned: true };
    let mut config = Config::default();
    reduce(
        &mut state,
        AppEvent::ConfigLoaded(Ok(config_with_client_id())),
        &mut config,
    );
    let effects = reduce(
        &mut state,
        AppEvent::SilentLoginComplete(Err(String::from("no token"))),
        &mut config,
    );
    assert!(effects.is_empty());
    assert!(matches!(state, AppState::FirstTimeSetup { .. }));
}

#[test]
fn silent_login_failure_with_profiles_goes_to_profile_selection() {
    let mut state = AppState::Startup { task_spawned: true };
    let mut config = config_with_client_id();
    livenac::config::add_profile(&mut config, "alice");
    let _ = reduce(
        &mut state,
        AppEvent::SilentLoginComplete(Err(String::from("expired"))),
        &mut config,
    );
    assert_eq!(state, AppState::ProfileSelection { error: None });
}

#[test]
fn silent_login_success_creates_profile_named_after_login() {
    // SilentLoginComplete(Ok(token{login:"alice", id:"1"})) with no active
    // profile name ends logged in, with the profile created and active.
    let mut state = AppState::Startup { task_spawned: true };
    let mut config = config_with_client_id();
    assert!(config.active_profile_name.is_none());
    let effects = reduce(
        &mut state,
        AppEvent::SilentLoginComplete(Ok(token("alice", "1"))),
        &mut config,
    );
    match &state {
        AppState::LoggedIn(session) => {
            assert_eq!(session.user_login, "alice");
            assert_eq!(session.user_id, "1");
            assert!(session.chat_messages.is_empty());
            assert!(session.eventsub_task.is_none());
        }
        other => panic!("unexpected state {:?}", other),
    }
    assert_eq!(config.active_profile_name.as_deref(), Some("alice"));
    assert_eq!(config.profiles.len(), 1);
    assert_eq!(config.profiles[0].name, "alice");
    assert_eq!(config.profiles[0].twitch_user_id.as_deref(), Some("1"));
    assert_eq!(effects.len(), 2);
    assert!(matches!(effects[0], Effect::SaveConfig(_)));
    assert_eq!(
        effects[1],
        Effect::FetchGlobalEmotes {
            client_id: String::from("abc"),
            access_token: String::from("secrettoken"),
        }
    );
}

#[test]
fn auth_success_backfills_staged_profile() {
    let mut state = AppState::Startup { task_spawned: true };
    let mut config = config_with_client_id();
    livenac::config::add_profile(&mut config, "main");
    config.active_profile_name = Some(String::from("main"));
    reduce(
        &mut state,
        AppEvent::Auth(AuthMessage::Success(token("alice", "77"))),
        &mut config,
    );
    assert!(matches!(state, AppState::LoggedIn(_)));
    assert_eq!(config.active_profile_name.as_deref(), Some("main"));
    assert_eq!(config.profiles.len(), 1);
    assert_eq!(config.profiles[0].twitch_user_id.as_deref(), Some("77"));
}

#[test]
fn auth_error_returns_to_setup_with_defaults() {
    let mut state = AppState::Startup { task_spawned: true };
    let mut config = config_with_client_id();
    config.client_secret = Some(String::from("shh"));
    config.active_profile_name = None;
    reduce(
        &mut state,
        AppEvent::Auth(AuthMessage::Error(String::from("denied"))),
        &mut config,
    );
    match state {
        AppState::FirstTimeSetup {
            client_id_input,
            client_secret_input,
            error,
            ..
        } => {
            assert_eq!(client_id_input, "abc");
            assert_eq!(client_secret_input, "shh");
            assert_eq!(error.as_deref(), Some("Authentication Failed: denied"));
        }
        other => panic!("unexpected state {:?}", other),
    }
}

#[test]
fn profile_switch_failure_requests_interactive_login() {
    let mut state = logged_in_state();
    let mut config = config_with_client_id();
    reduce(
        &mut state,
        AppEvent::ProfileSwitchSilentLoginComplete(
            Err(String::from("stale")),
            String::from("bob"),
        ),
        &mut config,
    );
    assert_eq!(
        state,
        AppState::RequestingInteractiveLogin { profile_name: String::from("bob") }
    );
}

#[test]
fn unhandled_events_leave_state_untouched() {
    // Chat events apply only while logged in; auth cancellation applies
    // nowhere; a failed emote load applies nowhere.
    let mut config = config_with_client_id();
    let mut state = AppState::ProfileSelection { error: Some(String::from("e")) };
    let effects = reduce(
        &mut state,
        AppEvent::Chat(ChatEvent::MessageSent),
        &mut config,
    );
    assert!(effects.is_empty());
    assert_eq!(state, AppState::ProfileSelection { error: Some(String::from("e")) });

    let effects = reduce(&mut state, AppEvent::AuthCancel, &mut config);
    assert!(effects.is_empty());
    assert_eq!(state, AppState::ProfileSelection { error: Some(String::from("e")) });
}

#[test]
fn emote_load_failure_changes_nothing() {
    // Applying GlobalEmotesLoaded(Err(_)) never mutates global_emotes.
    let mut state = logged_in_state();
    if let AppState::LoggedIn(session) = &mut state {
        session.global_emotes.push(TwitchEmote {
            id: String::from("25"),
            name: String::from("Kappa"),
            images: EmoteImages {
                url_1x: String::from("u1"),
                url_2x: String::from("u2"),
                url_4x: String::from("u4"),
            },
            format: vec![String::from("static")],
            scale: vec![String::from("1.0")],
            theme_mode: vec![String::from("dark")],
        });
    }
    let mut config = config_with_client_id();
    let effects = reduce(
        &mut state,
        AppEvent::GlobalEmotesLoaded(Err(String::from("offline"))),
        &mut config,
    );
    assert!(effects.is_empty());
    match &state {
        AppState::LoggedIn(session) => {
            assert_eq!(session.global_emotes.len(), 1);
            assert_eq!(session.global_emotes[0].name, "Kappa");
        }
        other => panic!("unexpected state {:?}", other),
    }
}

#[test]
fn emote_load_success_replaces_emotes() {
    let mut state = logged_in_state();
    let mut config = config_with_client_id();
    reduce(&mut state, AppEvent::GlobalEmotesLoaded(Ok(Vec::new())), &mut config);
    match &state {
        AppState::LoggedIn(session) => assert!(session.global_emotes.is_empty()),
        other => panic!("unexpected state {:?}", other),
    }
}

#[test]
fn trailing_whitespace_is_trimmed_from_last_text_fragment() {
    // A message whose last fragment is Text("hello   ") is stored with
    // that fragment trimmed to Text("hello").
    let mut state = logged_in_state();
    let mut config = config_with_client_id();
    reduce(
        &mut state,
        AppEvent::Chat(ChatEvent::NewChatMessage(message("bob", "hello   "))),
        &mut config,
    );
    match &state {
        AppState::LoggedIn(session) => {
            assert_eq!(session.chat_messages.len(), 1);
            assert_eq!(
                session.chat_messages[0].fragments,
                vec![MessageFragment::Text(String::from("hello"))]
            );
            assert_eq!(session.users.len(), 1);
            assert_eq!(session.users[0].name, "bob");
        }
        other => panic!("unexpected state {:?}", other),
    }
}

#[test]
fn trailing_emote_fragment_is_left_untouched() {
    let mut state = logged_in_state();
    let mut config = config_with_client_id();
    let emote = Emote {
        name: String::from("Kappa"),
        url: String::from("https://cdn.example/kappa"),
        source: EmoteSource::Twitch,
    };
    let msg = ChatMessage {
        sender_name: String::from("bob"),
        sender_color: None,
        fragments: vec![
            MessageFragment::Text(String::from("hi   ")),
            MessageFragment::Emote(emote.clone()),
        ],
        timestamp: 7,
    };
    reduce(&mut state, AppEvent::Chat(ChatEvent::NewChatMessage(msg)), &mut config);
    match &state {
        AppState::LoggedIn(session) => {
            assert_eq!(
                session.chat_messages[0].fragments,
                vec![
                    MessageFragment::Text(String::from("hi   ")),
                    MessageFragment::Emote(emote),
                ]
            );
        }
        other => panic!("unexpected state {:?}", other),
    }
}

#[test]
fn chat_log_is_capped_at_two_hundred_fifo() {
    // Appending beyond the cap evicts from the front and keeps order.
    let mut state = logged_in_state();
    let mut config = config_with_client_id();
    for i in 0..205 {
        reduce(
            &mut state,
            AppEvent::Chat(ChatEvent::NewChatMessage(message("bob", &format!("m{}", i)))),
            &mut config,
        );
    }
    match &state {
        AppState::LoggedIn(session) => {
            assert_eq!(session.chat_messages.len(), 200);
            assert_eq!(
                session.chat_messages[0].fragments,
                vec![MessageFragment::Text(String::from("m5"))]
            );
            assert_eq!(
                session.chat_messages[199].fragments,
                vec![MessageFragment::Text(String::from("m204"))]
            );
            // One chatter, recorded once.
            assert_eq!(session.users.len(), 1);
        }
        other => panic!("unexpected state {:?}", other),
    }
}

#[test]
fn two_eventsub_errors_keep_channel_and_overwrite_banner() {
    // Two consecutive EventSubError events while logged in leave the
    // current channel untouched and keep only the latest message.
    let mut state = logged_in_state();
    let mut config = config_with_client_id();
    reduce(
        &mut state,
        AppEvent::Chat(ChatEvent::EventSubError(String::from("first"))),
        &mut config,
    );
    reduce(
        &mut state,
        AppEvent::Chat(ChatEvent::EventSubError(String::from("second"))),
        &mut config,
    );
    match &state {
        AppState::LoggedIn(session) => {
            assert_eq!(session.current_channel.as_deref(), Some("somechannel"));
            assert_eq!(
                session.last_error.as_deref(),
                Some("Chat connection error: second")
            );
        }
        other => panic!("unexpected state {:?}", other),
    }
}

#[test]
fn send_lifecycle_clears_flags() {
    let mut state = logged_in_state();
    let mut config = config_with_client_id();
    if let AppState::LoggedIn(session) = &mut state {
        session.message_to_send = String::from("hello");
        let req = session.begin_send(false).expect("a channel is joined");
        assert_eq!(req.channel_login, "somechannel");
        assert_eq!(req.sender_id, "1");
        assert_eq!(req.message, "hello");
        assert!(session.send_in_progress);
    }
    reduce(&mut state, AppEvent::Chat(ChatEvent::MessageSent), &mut config);
    match &state {
        AppState::LoggedIn(session) => {
            assert!(!session.send_in_progress);
            assert!(session.message_to_send.is_empty());
        }
        other => panic!("unexpected state {:?}", other),
    }
}

#[test]
fn send_error_sets_banner() {
    let mut state = logged_in_state();
    let mut config = config_with_client_id();
    reduce(
        &mut state,
        AppEvent::Chat(ChatEvent::MessageSendError(String::from("nope"))),
        &mut config,
    );
    match &state {
        AppState::LoggedIn(session) => {
            assert!(!session.send_in_progress);
            assert_eq!(session.last_error.as_deref(), Some("nope"));
        }
        other => panic!("unexpected state {:?}", other),
    }
}

#[test]
fn channel_switch_cancels_prior_task_before_install() {
    // Switching channel relinquishes the prior task for cancellation, and
    // a new one can only be recorded while none is.
    let mut session = Session::new_session(token("alice", "1"));
    session.install_eventsub_task(41);
    session.chat_messages.push(message("bob", "old"));
    let cancel = session.begin_channel_switch("newchan");
    assert_eq!(cancel, Some(41));
    assert_eq!(session.eventsub_task, None);
    assert!(session.chat_messages.is_empty());
    assert_eq!(session.current_channel.as_deref(), Some("newchan"));
    session.install_eventsub_task(42);
    assert_eq!(session.eventsub_task, Some(42));
}

#[test]
fn bootstrap_is_claimed_once() {
    let mut state = AppState::Startup { task_spawned: false };
    assert!(state.claim_bootstrap());
    assert!(!state.claim_bootstrap());
    assert_eq!(state, AppState::Startup { task_spawned: true });
}

#[test]
fn device_activation_fills_authenticating_screen() {
    let mut config = Config::default();
    let mut state = AppState::Authenticating {
        status_message: String::from("Logging in..."),
        device_flow_info: None,
    };
    reduce(
        &mut state,
        AppEvent::Auth(AuthMessage::AwaitingDeviceActivation {
            uri: String::from("https://www.twitch.tv/activate"),
            user_code: String::from("ABCD1234"),
        }),
        &mut config,
    );
    match state {
        AppState::Authenticating { status_message, device_flow_info } => {
            assert_eq!(status_message, "Please authorize in your browser.");
            let info = device_flow_info.expect("the code is shown");
            assert_eq!(info.uri, "https://www.twitch.tv/activate");
            assert_eq!(info.user_code, "ABCD1234");
        }
        other => panic!("unexpected state {:?}", other),
    }
}
