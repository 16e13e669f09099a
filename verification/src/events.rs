//! The event bus payloads: the closed union of everything the reducer can
//! react to, and the effects it schedules in return.

use crate::config::{Config, SpecConfig};
use crate::models::{ChatMessage, SpecChatMessage, SpecTwitchEmote, TwitchEmote};
use crate::token::{SpecToken, Token};
use vstd::prelude::*;

verus! {

/// What a credential acquisition task reports back.
#[derive(Clone, Debug, PartialEq)]
pub enum AuthMessage {
    /// The device flow started; show the verification URI and code.
    AwaitingDeviceActivation { uri: String, user_code: String },
    /// Authentication succeeded with this token.
    Success(Token),
    /// Authentication failed for this human-readable reason.
    Error(String),
}

#[verifier::ext_equal]
pub ghost enum SpecAuthMessage {
    AwaitingDeviceActivation { uri: Seq<char>, user_code: Seq<char> },
    Success(SpecToken),
    Error(Seq<char>),
}

impl DeepView for AuthMessage {
    type V = SpecAuthMessage;

    open spec fn deep_view(&self) -> SpecAuthMessage {
        match self {
            AuthMessage::AwaitingDeviceActivation { uri, user_code } => {
                SpecAuthMessage::AwaitingDeviceActivation {
                    uri: uri.deep_view(),
                    user_code: user_code.deep_view(),
                }
            },
            AuthMessage::Success(t) => SpecAuthMessage::Success(t.deep_view()),
            AuthMessage::Error(e) => SpecAuthMessage::Error(e.deep_view()),
        }
    }
}

/// What the live chat machinery reports back.
#[derive(Clone, Debug, PartialEq)]
pub enum ChatEvent {
    NewChatMessage(ChatMessage),
    MessageSent,
    MessageSendError(String),
    EventSubError(String),
}

#[verifier::ext_equal]
pub ghost enum SpecChatEvent {
    NewChatMessage(SpecChatMessage),
    MessageSent,
    MessageSendError(Seq<char>),
    EventSubError(Seq<char>),
}

impl DeepView for ChatEvent {
    type V = SpecChatEvent;

    open spec fn deep_view(&self) -> SpecChatEvent {
        match self {
            ChatEvent::NewChatMessage(m) => SpecChatEvent::NewChatMessage(m.deep_view()),
            ChatEvent::MessageSent => SpecChatEvent::MessageSent,
            ChatEvent::MessageSendError(e) => SpecChatEvent::MessageSendError(e.deep_view()),
            ChatEvent::EventSubError(e) => SpecChatEvent::EventSubError(e.deep_view()),
        }
    }
}

/// The closed union of events delivered to the reducer. Fallible background
/// work arrives already classified, its error as a human-readable string.
#[derive(Debug, PartialEq)]
pub enum AppEvent {
    ConfigLoaded(Result<Config, String>),
    SilentLoginComplete(Result<Token, String>),
    ProfileSwitchSilentLoginComplete(Result<Token, String>, String),
    Auth(AuthMessage),
    AuthCancel,
    AuthFlowStartFailed(String),
    Chat(ChatEvent),
    GlobalEmotesLoaded(Result<Vec<TwitchEmote>, String>),
}

#[verifier::ext_equal]
pub ghost enum SpecEvent {
    ConfigLoaded(Result<SpecConfig, Seq<char>>),
    SilentLoginComplete(Result<SpecToken, Seq<char>>),
    ProfileSwitchSilentLoginComplete(Result<SpecToken, Seq<char>>, Seq<char>),
    Auth(SpecAuthMessage),
    AuthCancel,
    AuthFlowStartFailed(Seq<char>),
    Chat(SpecChatEvent),
    GlobalEmotesLoaded(Result<Seq<SpecTwitchEmote>, Seq<char>>),
}

impl DeepView for AppEvent {
    type V = SpecEvent;

    open spec fn deep_view(&self) -> SpecEvent {
        match self {
            AppEvent::ConfigLoaded(r) => SpecEvent::ConfigLoaded(
                match r {
                    Ok(c) => Ok(c.deep_view()),
                    Err(e) => Err(e.deep_view()),
                },
            ),
            AppEvent::SilentLoginComplete(r) => SpecEvent::SilentLoginComplete(
                match r {
                    Ok(t) => Ok(t.deep_view()),
                    Err(e) => Err(e.deep_view()),
                },
            ),
            AppEvent::ProfileSwitchSilentLoginComplete(r, name) => {
                SpecEvent::ProfileSwitchSilentLoginComplete(
                    match r {
                        Ok(t) => Ok(t.deep_view()),
                        Err(e) => Err(e.deep_view()),
                    },
                    name.deep_view(),
                )
            },
            AppEvent::Auth(m) => SpecEvent::Auth(m.deep_view()),
            AppEvent::AuthCancel => SpecEvent::AuthCancel,
            AppEvent::AuthFlowStartFailed(e) => SpecEvent::AuthFlowStartFailed(e.deep_view()),
            AppEvent::Chat(c) => SpecEvent::Chat(c.deep_view()),
            AppEvent::GlobalEmotesLoaded(r) => SpecEvent::GlobalEmotesLoaded(
                match r {
                    Ok(es) => Ok(es.deep_view()),
                    Err(e) => Err(e.deep_view()),
                },
            ),
        }
    }
}

/// Background work the reducer schedules; the shell performs it and reports
/// the outcome back as events.
#[derive(Clone, Debug, PartialEq)]
pub enum Effect {
    /// Attempt a silent login with the stored credential of the active
    /// profile, reporting `SilentLoginComplete`.
    StartSilentLogin { client_id: Option<String>, active_profile: Option<String> },
    /// Persist this configuration.
    SaveConfig(Config),
    /// Fetch the global emote listing, reporting `GlobalEmotesLoaded`.
    FetchGlobalEmotes { client_id: String, access_token: String },
}

#[verifier::ext_equal]
pub ghost enum SpecEffect {
    StartSilentLogin { client_id: Option<Seq<char>>, active_profile: Option<Seq<char>> },
    SaveConfig(SpecConfig),
    FetchGlobalEmotes { client_id: Seq<char>, access_token: Seq<char> },
}

impl DeepView for Effect {
    type V = SpecEffect;

    open spec fn deep_view(&self) -> SpecEffect {
        match self {
            Effect::StartSilentLogin { client_id, active_profile } => {
                SpecEffect::StartSilentLogin {
                    client_id: client_id.deep_view(),
                    active_profile: active_profile.deep_view(),
                }
            },
            Effect::SaveConfig(c) => SpecEffect::SaveConfig(c.deep_view()),
            Effect::FetchGlobalEmotes { client_id, access_token } => {
                SpecEffect::FetchGlobalEmotes {
                    client_id: client_id.deep_view(),
                    access_token: access_token.deep_view(),
                }
            },
        }
    }
}

} // verus!
