//! The session reducer: the single consumer of the event bus. It owns the
//! authoritative `AppState` and applies each event as a pure transition,
//! returning the background work to schedule. For every pair of state and
//! event it does not explicitly handle, the event is ignored: no panic, no
//! error, no change.

use crate::config::{spec_attach_login, Config, SpecConfig};
use crate::events::{
    AppEvent, AuthMessage, ChatEvent, Effect, SpecAuthMessage, SpecChatEvent, SpecEffect,
    SpecEvent,
};
use crate::models::{MessageFragment, SpecChatMessage, SpecFragment, SpecUser, User};
use crate::state::{
    spec_new_session, AppState, Session, SpecDeviceFlowInfo, SpecSession, SpecState,
};
use crate::strutil::spec_trim_end;
use crate::token::SpecToken;
use vstd::prelude::*;

verus! {

/// What one reducer step yields: the next state, the next configuration,
/// and the background work to schedule.
#[verifier::ext_equal]
pub ghost struct SpecStep {
    pub state: SpecState,
    pub config: SpecConfig,
    pub effects: Seq<SpecEffect>,
}

/// A step that changes nothing and schedules nothing.
pub open spec fn unchanged(s: SpecState, c: SpecConfig) -> SpecStep {
    SpecStep { state: s, config: c, effects: Seq::empty() }
}

/// The first-time-setup screen with empty inputs and this error.
pub open spec fn fresh_setup(error: Option<Seq<char>>) -> SpecState {
    SpecState::FirstTimeSetup {
        client_id_input: Seq::empty(),
        client_secret_input: Seq::empty(),
        profile_name_input: Seq::empty(),
        error,
    }
}

/// The string an optional string falls back from, or empty.
pub open spec fn or_empty(s: Option<Seq<char>>) -> Seq<char> {
    match s {
        Some(x) => x,
        None => Seq::empty(),
    }
}

/// A message with trailing white space dropped from its last fragment, if
/// that fragment is text; other trailing fragments are left untouched.
pub open spec fn spec_trim_message(m: SpecChatMessage) -> SpecChatMessage {
    if m.fragments.len() > 0 && m.fragments.last() is Text {
        SpecChatMessage {
            fragments: m.fragments.update(
                m.fragments.len() - 1,
                SpecFragment::Text(spec_trim_end(m.fragments.last()->Text_0)),
            ),
            ..m
        }
    } else {
        m
    }
}

/// The user list with this chatter added, unless already present.
pub open spec fn spec_upsert_user(us: Seq<SpecUser>, u: SpecUser) -> Seq<SpecUser> {
    if us.contains(u) {
        us
    } else {
        us.push(u)
    }
}

/// A session after one chat event: new messages are trimmed, their sender
/// recorded, and the log capped at 200 by evicting the oldest; send
/// completions clear the in-progress flag; errors land in the banner.
pub open spec fn spec_apply_chat(sess: SpecSession, ce: SpecChatEvent) -> SpecSession {
    match ce {
        SpecChatEvent::NewChatMessage(m) => {
            let m2 = spec_trim_message(m);
            let u = SpecUser { name: m2.sender_name, color: m2.sender_color };
            let pushed = sess.chat_messages.push(m2);
            SpecSession {
                chat_messages: if pushed.len() > crate::state::chat_cap() {
                    pushed.drop_first()
                } else {
                    pushed
                },
                users: spec_upsert_user(sess.users, u),
                ..sess
            }
        },
        SpecChatEvent::MessageSent => SpecSession {
            send_in_progress: false,
            message_to_send: Seq::empty(),
            ..sess
        },
        SpecChatEvent::MessageSendError(e) => SpecSession {
            send_in_progress: false,
            last_error: Some(e),
            ..sess
        },
        SpecChatEvent::EventSubError(e) => SpecSession {
            last_error: Some("Chat connection error: "@ + e),
            ..sess
        },
    }
}

/// A successful login: the account is attached to the configuration (under
/// `override_name` if one is staged), the configuration persisted, a fresh
/// session entered, and the global emote fetch scheduled when a client id
/// is configured.
pub open spec fn spec_login_success(
    c: SpecConfig,
    t: SpecToken,
    override_name: Option<Seq<char>>,
) -> SpecStep {
    let c1 = match override_name {
        Some(n) => SpecConfig { active_profile_name: Some(n), ..c },
        None => c,
    };
    let c2 = spec_attach_login(c1, t.login, t.user_id);
    SpecStep {
        state: SpecState::LoggedIn(spec_new_session(t)),
        config: c2,
        effects: match c2.client_id {
            Some(id) => seq![
                SpecEffect::SaveConfig(c2),
                SpecEffect::FetchGlobalEmotes { client_id: id, access_token: t.access_token },
            ],
            None => seq![SpecEffect::SaveConfig(c2)],
        },
    }
}

/// The reducer's transition table.
pub open spec fn spec_reduce(s: SpecState, c: SpecConfig, e: SpecEvent) -> SpecStep {
    match e {
        SpecEvent::ConfigLoaded(r) => match r {
            Ok(cfg) => SpecStep {
                state: SpecState::Startup { task_spawned: true },
                config: cfg,
                effects: seq![
                    SpecEffect::StartSilentLogin {
                        client_id: cfg.client_id,
                        active_profile: cfg.active_profile_name,
                    },
                ],
            },
            Err(msg) => SpecStep {
                state: fresh_setup(Some("Failed to load config: "@ + msg)),
                config: c,
                effects: Seq::empty(),
            },
        },
        SpecEvent::SilentLoginComplete(r) => match r {
            Ok(t) => spec_login_success(c, t, None),
            Err(_) => SpecStep {
                state: if c.profiles.len() == 0 {
                    fresh_setup(None)
                } else {
                    SpecState::ProfileSelection { error: None }
                },
                config: c,
                effects: Seq::empty(),
            },
        },
        SpecEvent::ProfileSwitchSilentLoginComplete(r, name) => match r {
            Ok(t) => spec_login_success(c, t, Some(name)),
            Err(_) => SpecStep {
                state: SpecState::RequestingInteractiveLogin { profile_name: name },
                config: c,
                effects: Seq::empty(),
            },
        },
        SpecEvent::Auth(m) => match m {
            SpecAuthMessage::AwaitingDeviceActivation { uri, user_code } => match s {
                SpecState::Authenticating { .. } => SpecStep {
                    state: SpecState::Authenticating {
                        status_message: "Please authorize in your browser."@,
                        device_flow_info: Some(SpecDeviceFlowInfo { uri, user_code }),
                    },
                    config: c,
                    effects: Seq::empty(),
                },
                _ => unchanged(s, c),
            },
            SpecAuthMessage::Success(t) => spec_login_success(c, t, None),
            SpecAuthMessage::Error(msg) => SpecStep {
                state: SpecState::FirstTimeSetup {
                    client_id_input: or_empty(c.client_id),
                    client_secret_input: or_empty(c.client_secret),
                    profile_name_input: or_empty(c.active_profile_name),
                    error: Some("Authentication Failed: "@ + msg),
                },
                config: c,
                effects: Seq::empty(),
            },
        },
        SpecEvent::AuthCancel => unchanged(s, c),
        SpecEvent::AuthFlowStartFailed(msg) => SpecStep {
            state: SpecState::FirstTimeSetup {
                client_id_input: or_empty(c.client_id),
                client_secret_input: Seq::empty(),
                profile_name_input: Seq::empty(),
                error: Some(msg),
            },
            config: c,
            effects: Seq::empty(),
        },
        SpecEvent::Chat(ce) => match s {
            SpecState::LoggedIn(sess) => SpecStep {
                state: SpecState::LoggedIn(spec_apply_chat(sess, ce)),
                config: c,
                effects: Seq::empty(),
            },
            _ => unchanged(s, c),
        },
        SpecEvent::GlobalEmotesLoaded(r) => match (s, r) {
            (SpecState::LoggedIn(sess), Ok(emotes)) => SpecStep {
                state: SpecState::LoggedIn(SpecSession { global_emotes: emotes, ..sess }),
                config: c,
                effects: Seq::empty(),
            },
            _ => unchanged(s, c),
        },
    }
}

/// The pairs of state and event the reducer reacts to; every other pair is
/// ignored.
pub open spec fn handles(s: SpecState, e: SpecEvent) -> bool {
    match e {
        SpecEvent::ConfigLoaded(_) => true,
        SpecEvent::SilentLoginComplete(_) => true,
        SpecEvent::ProfileSwitchSilentLoginComplete(_, _) => true,
        SpecEvent::Auth(m) => match m {
            SpecAuthMessage::AwaitingDeviceActivation { .. } => s is Authenticating,
            _ => true,
        },
        SpecEvent::AuthCancel => false,
        SpecEvent::AuthFlowStartFailed(_) => true,
        SpecEvent::Chat(_) => s is LoggedIn,
        SpecEvent::GlobalEmotesLoaded(r) => s is LoggedIn && r is Ok,
    }
}

/// A pair of state and event the reducer does not handle leaves the state
/// and configuration exactly as they were and schedules nothing.
pub proof fn lemma_unhandled_event_ignored(s: SpecState, c: SpecConfig, e: SpecEvent)
    requires
        !handles(s, e),
    ensures
        spec_reduce(s, c, e) == unchanged(s, c),
{
}

/// A failed global-emote fetch never changes anything: in particular it
/// does not touch `global_emotes`.
pub proof fn lemma_emote_failure_ignored(s: SpecState, c: SpecConfig, msg: Seq<char>)
    ensures
        spec_reduce(s, c, SpecEvent::GlobalEmotesLoaded(Err(msg))) == unchanged(s, c),
{
}

/// Ingesting a chat message keeps the log within the cap, evicts from the
/// front exactly when the cap would be exceeded, and preserves the order of
/// the remaining messages.
pub proof fn lemma_chat_log_bounded_fifo(sess: SpecSession, m: SpecChatMessage)
    requires
        crate::state::session_wf(sess),
    ensures
        ({
            let r = spec_apply_chat(sess, SpecChatEvent::NewChatMessage(m));
            let pushed = sess.chat_messages.push(spec_trim_message(m));
            &&& r.chat_messages.len() <= crate::state::chat_cap()
            &&& r.chat_messages == if pushed.len() > crate::state::chat_cap() {
                pushed.drop_first()
            } else {
                pushed
            }
            &&& pushed.len() > crate::state::chat_cap() ==> forall|k: int|
                0 <= k < r.chat_messages.len() ==> r.chat_messages[k] == pushed[k + 1]
            &&& pushed.len() <= crate::state::chat_cap() ==> r.chat_messages == pushed
        }),
{
}

/// One reducer step preserves the state and configuration invariants, as
/// long as a configuration arriving in `ConfigLoaded` is itself well
/// formed.
pub proof fn lemma_reduce_preserves_wf(s: SpecState, c: SpecConfig, e: SpecEvent)
    requires
        crate::state::state_wf(s),
        crate::config::config_wf(c),
        (match e {
            SpecEvent::ConfigLoaded(r) => (r matches Ok(cfg) ==> crate::config::config_wf(cfg)),
            _ => true,
        }),
    ensures
        crate::state::state_wf(spec_reduce(s, c, e).state),
        crate::config::config_wf(spec_reduce(s, c, e).config),
{
    match e {
        SpecEvent::SilentLoginComplete(r) => match r {
            Ok(t) => {
                lemma_login_success_wf(c, t, None);
            },
            Err(_) => {},
        },
        SpecEvent::ProfileSwitchSilentLoginComplete(r, name) => match r {
            Ok(t) => {
                lemma_login_success_wf(c, t, Some(name));
            },
            Err(_) => {},
        },
        SpecEvent::Auth(m) => match m {
            SpecAuthMessage::Success(t) => {
                lemma_login_success_wf(c, t, None);
            },
            _ => {},
        },
        SpecEvent::Chat(ce) => match s {
            SpecState::LoggedIn(sess) => {
                lemma_apply_chat_wf(sess, ce);
            },
            _ => {},
        },
        _ => {},
    }
}

/// A successful login yields a well-formed configuration and a well-formed
/// fresh session.
pub proof fn lemma_login_success_wf(c: SpecConfig, t: SpecToken, override_name: Option<Seq<char>>)
    requires
        crate::config::names_unique(c.profiles),
    ensures
        crate::state::state_wf(spec_login_success(c, t, override_name).state),
        crate::config::config_wf(spec_login_success(c, t, override_name).config),
{
    let c1 = match override_name {
        Some(n) => SpecConfig { active_profile_name: Some(n), ..c },
        None => c,
    };
    crate::config::lemma_attach_login_wf(c1, t.login, t.user_id);
}

/// Applying a chat event to a well-formed session keeps it well formed.
pub proof fn lemma_apply_chat_wf(sess: SpecSession, ce: SpecChatEvent)
    requires
        crate::state::session_wf(sess),
    ensures
        crate::state::session_wf(spec_apply_chat(sess, ce)),
{
    match ce {
        SpecChatEvent::NewChatMessage(m) => {
            let m2 = spec_trim_message(m);
            let u = SpecUser { name: m2.sender_name, color: m2.sender_color };
            let us2 = spec_upsert_user(sess.users, u);
            if !sess.users.contains(u) {
                assert forall|i: int, j: int| 0 <= i < j < us2.len() implies us2[i]
                    != us2[j] by {
                    if j == us2.len() - 1 {
                        assert(us2[i] == sess.users[i]);
                        assert(!sess.users.contains(u));
                        assert(sess.users[i] != u);
                    }
                }
            }
        },
        _ => {},
    }
}

/// Whether this chatter already appears in the list.
fn user_in(users: &Vec<User>, u: &User) -> (r: bool)
    ensures
        r == users.deep_view().contains(u.deep_view()),
{
    let ghost usv = users.deep_view();
    let mut i: usize = 0;
    while i < users.len()
        invariant
            0 <= i <= users.len(),
            usv == users.deep_view(),
            usv.len() == users.len(),
            forall|k: int| 0 <= k < i ==> usv[k] != u.deep_view(),
        decreases users.len() - i,
    {
        let same_color = match (&users[i].color, &u.color) {
            (Some(a), Some(b)) => a.0 == b.0 && a.1 == b.1 && a.2 == b.2,
            (None, None) => true,
            _ => false,
        };
        if same_color && crate::strutil::str_eq(users[i].name.as_str(), u.name.as_str()) {
            proof {
                assert(usv[i as int] =~= u.deep_view());
            }
            return true;
        }
        proof {
            assert(usv[i as int] != u.deep_view());
        }
        i = i + 1;
    }
    proof {
        if usv.contains(u.deep_view()) {
            let w = choose|w: int| 0 <= w < usv.len() && usv[w] == u.deep_view();
        }
    }
    false
}

/// Applies one chat event to a live session.
fn apply_chat(sess: &mut Session, ce: ChatEvent)
    ensures
        final(sess).deep_view() == spec_apply_chat(old(sess).deep_view(), ce.deep_view()),
{
    let ghost s0 = sess.deep_view();
    let ghost cev = ce.deep_view();
    match ce {
        ChatEvent::NewChatMessage(mut m) => {
            let ghost mv = m.deep_view();
            let n = m.fragments.len();
            if n > 0 {
                let is_text = match &m.fragments[n - 1] {
                    MessageFragment::Text(_) => true,
                    MessageFragment::Emote(_) => false,
                };
                if is_text {
                    let trimmed = match &m.fragments[n - 1] {
                        MessageFragment::Text(t) => crate::strutil::trim_end_str(t.as_str()),
                        MessageFragment::Emote(_) => String::new(),
                    };
                    let slot = vstd::std_specs::vec::vec_index_mut(&mut m.fragments, n - 1);
                    *slot = MessageFragment::Text(trimmed);
                }
            }
            proof {
                assert(m.deep_view() =~= spec_trim_message(mv));
            }
            let u = User {
                name: crate::config::clone_string(&m.sender_name),
                color: m.sender_color,
            };
            let ghost uv = u.deep_view();
            proof {
                assert(uv =~= (SpecUser {
                    name: spec_trim_message(mv).sender_name,
                    color: spec_trim_message(mv).sender_color,
                }));
            }
            if !user_in(&sess.users, &u) {
                sess.users.push(u);
                proof {
                    assert(sess.users.deep_view() =~= spec_upsert_user(s0.users, uv));
                }
            }
            sess.chat_messages.push(m);
            if sess.chat_messages.len() > 200 {
                sess.chat_messages.remove(0);
                proof {
                    assert(sess.chat_messages.deep_view() =~= s0.chat_messages.push(
                        spec_trim_message(mv),
                    ).drop_first());
                }
            } else {
                proof {
                    assert(sess.chat_messages.deep_view() =~= s0.chat_messages.push(
                        spec_trim_message(mv),
                    ));
                }
            }
            proof {
                assert(sess.deep_view() =~= spec_apply_chat(s0, cev));
            }
        },
        ChatEvent::MessageSent => {
            sess.send_in_progress = false;
            sess.message_to_send = String::new();
            proof {
                assert(sess.deep_view() =~= spec_apply_chat(s0, cev));
            }
        },
        ChatEvent::MessageSendError(e) => {
            sess.send_in_progress = false;
            sess.last_error = Some(e);
            proof {
                assert(sess.deep_view() =~= spec_apply_chat(s0, cev));
            }
        },
        ChatEvent::EventSubError(e) => {
            sess.last_error = Some(String::from_str("Chat connection error: ").concat(e.as_str()));
            proof {
                assert(sess.deep_view() =~= spec_apply_chat(s0, cev));
            }
        },
    }
}

/// An empty effect list.
fn no_effects() -> (r: Vec<Effect>)
    ensures
        r.deep_view() == Seq::<SpecEffect>::empty(),
{
    let r: Vec<Effect> = Vec::new();
    proof {
        assert(r.deep_view() =~= Seq::<SpecEffect>::empty());
    }
    r
}

/// A copy of the optional string, or the empty string.
fn opt_or_empty(o: &Option<String>) -> (r: String)
    ensures
        r@ == or_empty(o.deep_view()),
{
    match o {
        Some(s) => crate::config::clone_string(s),
        None => String::new(),
    }
}

/// Enters a live session after a successful login: stages the override
/// profile name if given, attaches the account to the configuration, and
/// schedules the save and the emote fetch.
fn login_success(
    state: &mut AppState,
    config: &mut Config,
    token: crate::token::Token,
    override_name: Option<String>,
) -> (effects: Vec<Effect>)
    ensures
        ({
            let step = spec_login_success(
                old(config).deep_view(),
                token.deep_view(),
                override_name.deep_view(),
            );
            &&& final(state).deep_view() == step.state
            &&& final(config).deep_view() == step.config
            &&& effects.deep_view() == step.effects
        }),
{
    let ghost step = spec_login_success(
        config.deep_view(),
        token.deep_view(),
        override_name.deep_view(),
    );
    match override_name {
        Some(n) => {
            config.active_profile_name = Some(n);
        },
        None => {},
    }
    crate::config::attach_login(config, token.login.as_str(), token.user_id.as_str());
    proof {
        assert(config.deep_view() =~= step.config);
    }
    let mut effects: Vec<Effect> = Vec::new();
    effects.push(Effect::SaveConfig(config.clone_config()));
    match &config.client_id {
        Some(id) => {
            effects.push(
                Effect::FetchGlobalEmotes {
                    client_id: crate::config::clone_string(id),
                    access_token: crate::config::clone_string(&token.access_token),
                },
            );
        },
        None => {},
    }
    proof {
        assert(effects.deep_view() =~= step.effects);
    }
    *state = AppState::LoggedIn(Session::new_session(token));
    effects
}

/// Applies one event to the state and configuration, returning the
/// background work to schedule. Total and non-blocking; events that do not
/// apply to the current state are ignored unchanged.
pub fn reduce(state: &mut AppState, event: AppEvent, config: &mut Config) -> (effects: Vec<
    Effect,
>)
    ensures
        final(state).deep_view() == spec_reduce(
            old(state).deep_view(),
            old(config).deep_view(),
            event.deep_view(),
        ).state,
        final(config).deep_view() == spec_reduce(
            old(state).deep_view(),
            old(config).deep_view(),
            event.deep_view(),
        ).config,
        effects.deep_view() == spec_reduce(
            old(state).deep_view(),
            old(config).deep_view(),
            event.deep_view(),
        ).effects,
        !handles(old(state).deep_view(), event.deep_view()) ==> *final(state) == *old(state)
            && *final(config) == *old(config),
{
    let ghost s0 = state.deep_view();
    let ghost c0 = config.deep_view();
    let ghost ev = event.deep_view();
    let ghost step = spec_reduce(s0, c0, ev);
    match event {
        AppEvent::ConfigLoaded(result) => match result {
            Ok(cfg) => {
                *config = cfg;
                *state = AppState::Startup { task_spawned: true };
                let mut effects: Vec<Effect> = Vec::new();
                effects.push(
                    Effect::StartSilentLogin {
                        client_id: crate::config::clone_opt_string(&config.client_id),
                        active_profile: crate::config::clone_opt_string(
                            &config.active_profile_name,
                        ),
                    },
                );
                proof {
                    assert(effects.deep_view() =~= step.effects);
                }
                effects
            },
            Err(msg) => {
                *state = AppState::FirstTimeSetup {
                    client_id_input: String::new(),
                    client_secret_input: String::new(),
                    profile_name_input: String::new(),
                    error: Some(
                        String::from_str("Failed to load config: ").concat(msg.as_str()),
                    ),
                };
                proof {
                    assert(state.deep_view() =~= step.state);
                    assert(step.effects =~= Seq::<SpecEffect>::empty());
                }
                no_effects()
            },
        },
        AppEvent::SilentLoginComplete(result) => match result {
            Ok(token) => login_success(state, config, token, None),
            Err(_) => {
                if config.profiles.is_empty() {
                    *state = AppState::FirstTimeSetup {
                        client_id_input: String::new(),
                        client_secret_input: String::new(),
                        profile_name_input: String::new(),
                        error: None,
                    };
                } else {
                    *state = AppState::ProfileSelection { error: None };
                }
                proof {
                    assert(state.deep_view() =~= step.state);
                    assert(step.effects =~= Seq::<SpecEffect>::empty());
                }
                no_effects()
            },
        },
        AppEvent::ProfileSwitchSilentLoginComplete(result, profile_name) => match result {
            Ok(token) => login_success(state, config, token, Some(profile_name)),
            Err(_) => {
                *state = AppState::RequestingInteractiveLogin { profile_name };
                proof {
                    assert(state.deep_view() =~= step.state);
                    assert(step.effects =~= Seq::<SpecEffect>::empty());
                }
                no_effects()
            },
        },
        AppEvent::Auth(msg) => match msg {
            AuthMessage::AwaitingDeviceActivation { uri, user_code } => {
                let in_device_flow = match state {
                    AppState::Authenticating { .. } => true,
                    _ => false,
                };
                if in_device_flow {
                    *state = AppState::Authenticating {
                        status_message: String::from_str("Please authorize in your browser."),
                        device_flow_info: Some(
                            crate::state::DeviceFlowInfo { uri, user_code },
                        ),
                    };
                }
                proof {
                    assert(state.deep_view() =~= step.state);
                    assert(step.effects =~= Seq::<SpecEffect>::empty());
                }
                no_effects()
            },
            AuthMessage::Success(token) => login_success(state, config, token, None),
            AuthMessage::Error(err) => {
                *state = AppState::FirstTimeSetup {
                    client_id_input: opt_or_empty(&config.client_id),
                    client_secret_input: opt_or_empty(&config.client_secret),
                    profile_name_input: opt_or_empty(&config.active_profile_name),
                    error: Some(
                        String::from_str("Authentication Failed: ").concat(err.as_str()),
                    ),
                };
                proof {
                    assert(state.deep_view() =~= step.state);
                    assert(step.effects =~= Seq::<SpecEffect>::empty());
                }
                no_effects()
            },
        },
        AppEvent::AuthCancel => {
            proof {
                assert(step.effects =~= Seq::<SpecEffect>::empty());
            }
            no_effects()
        },
        AppEvent::AuthFlowStartFailed(err) => {
            *state = AppState::FirstTimeSetup {
                client_id_input: opt_or_empty(&config.client_id),
                client_secret_input: String::new(),
                profile_name_input: String::new(),
                error: Some(err),
            };
            proof {
                assert(state.deep_view() =~= step.state);
                assert(step.effects =~= Seq::<SpecEffect>::empty());
            }
            no_effects()
        },
        AppEvent::Chat(chat_event) => {
            match state {
                AppState::LoggedIn(sess) => {
                    apply_chat(sess, chat_event);
                },
                _ => {},
            }
            proof {
                assert(state.deep_view() =~= step.state);
                assert(step.effects =~= Seq::<SpecEffect>::empty());
            }
            no_effects()
        },
        AppEvent::GlobalEmotesLoaded(result) => {
            match state {
                AppState::LoggedIn(sess) => match result {
                    Ok(emotes) => {
                        sess.global_emotes = emotes;
                        proof {
                            assert(sess.deep_view() =~= (SpecSession {
                                global_emotes: sess.global_emotes.deep_view(),
                                ..s0->LoggedIn_0
                            }));
                        }
                    },
                    Err(_) => {},
                },
                _ => {},
            }
            proof {
                assert(state.deep_view() =~= step.state);
                assert(step.effects =~= Seq::<SpecEffect>::empty());
            }
            no_effects()
        },
    }
}

} // verus!
