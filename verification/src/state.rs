//! The application state: exactly one variant of `AppState` is active at a
//! time, owned by the reducer. The live-session fields and the operations
//! the shell performs on them (channel switching, send gating) live here.

use crate::chat::{ChatClient, SendKind, SendRequest, SpecSendRequest};
use crate::models::{ChatMessage, SpecChatMessage, SpecTwitchEmote, SpecUser, TwitchEmote, User};
use crate::token::{SpecToken, Token};
use vstd::prelude::*;

verus! {

/// The verification URI and code shown while a device flow waits.
#[derive(Clone, Debug, PartialEq)]
pub struct DeviceFlowInfo {
    pub uri: String,
    pub user_code: String,
}

#[verifier::ext_equal]
pub ghost struct SpecDeviceFlowInfo {
    pub uri: Seq<char>,
    pub user_code: Seq<char>,
}

impl DeepView for DeviceFlowInfo {
    type V = SpecDeviceFlowInfo;

    open spec fn deep_view(&self) -> SpecDeviceFlowInfo {
        SpecDeviceFlowInfo { uri: self.uri.deep_view(), user_code: self.user_code.deep_view() }
    }
}

/// Everything a live, logged-in session carries.
#[derive(Debug, PartialEq)]
pub struct Session {
    pub token: Token,
    pub user_id: String,
    pub user_login: String,
    pub channel_to_join: String,
    pub current_channel: Option<String>,
    pub message_to_send: String,
    pub chat_messages: Vec<ChatMessage>,
    pub users: Vec<User>,
    pub global_emotes: Vec<TwitchEmote>,
    pub chat_client: ChatClient,
    pub send_in_progress: bool,
    pub last_error: Option<String>,
    /// The identifier of the running subscription-protocol task, if any.
    pub eventsub_task: Option<u64>,
}

#[verifier::ext_equal]
pub ghost struct SpecSession {
    pub token: SpecToken,
    pub user_id: Seq<char>,
    pub user_login: Seq<char>,
    pub channel_to_join: Seq<char>,
    pub current_channel: Option<Seq<char>>,
    pub message_to_send: Seq<char>,
    pub chat_messages: Seq<SpecChatMessage>,
    pub users: Seq<SpecUser>,
    pub global_emotes: Seq<SpecTwitchEmote>,
    pub send_in_progress: bool,
    pub last_error: Option<Seq<char>>,
    pub eventsub_task: Option<u64>,
}

impl DeepView for Session {
    type V = SpecSession;

    open spec fn deep_view(&self) -> SpecSession {
        SpecSession {
            token: self.token.deep_view(),
            user_id: self.user_id.deep_view(),
            user_login: self.user_login.deep_view(),
            channel_to_join: self.channel_to_join.deep_view(),
            current_channel: self.current_channel.deep_view(),
            message_to_send: self.message_to_send.deep_view(),
            chat_messages: self.chat_messages.deep_view(),
            users: self.users.deep_view(),
            global_emotes: self.global_emotes.deep_view(),
            send_in_progress: self.send_in_progress,
            last_error: self.last_error.deep_view(),
            eventsub_task: self.eventsub_task,
        }
    }
}

/// The application lifecycle; exactly one variant is ever active.
#[derive(Debug, PartialEq)]
pub enum AppState {
    /// Initial; the flag prevents double-dispatch of the bootstrap task.
    Startup { task_spawned: bool },
    /// Collecting credentials because none usable exist.
    FirstTimeSetup {
        client_id_input: String,
        client_secret_input: String,
        profile_name_input: String,
        error: Option<String>,
    },
    /// Logged out with profiles available; prompting a manual login.
    ProfileSelection { error: Option<String> },
    /// An interactive login for this profile is being started.
    RequestingInteractiveLogin { profile_name: String },
    /// The browser flow ran; waiting for the user to paste the token.
    WaitingForToken { profile_name: Option<String>, token_input: String, error: Option<String> },
    /// A device flow is underway.
    Authenticating { status_message: String, device_flow_info: Option<DeviceFlowInfo> },
    /// A live session.
    LoggedIn(Session),
}

#[verifier::ext_equal]
pub ghost enum SpecState {
    Startup { task_spawned: bool },
    FirstTimeSetup {
        client_id_input: Seq<char>,
        client_secret_input: Seq<char>,
        profile_name_input: Seq<char>,
        error: Option<Seq<char>>,
    },
    ProfileSelection { error: Option<Seq<char>> },
    RequestingInteractiveLogin { profile_name: Seq<char> },
    WaitingForToken {
        profile_name: Option<Seq<char>>,
        token_input: Seq<char>,
        error: Option<Seq<char>>,
    },
    Authenticating { status_message: Seq<char>, device_flow_info: Option<SpecDeviceFlowInfo> },
    LoggedIn(SpecSession),
}

impl DeepView for AppState {
    type V = SpecState;

    open spec fn deep_view(&self) -> SpecState {
        match self {
            AppState::Startup { task_spawned } => SpecState::Startup {
                task_spawned: *task_spawned,
            },
            AppState::FirstTimeSetup {
                client_id_input,
                client_secret_input,
                profile_name_input,
                error,
            } => SpecState::FirstTimeSetup {
                client_id_input: client_id_input.deep_view(),
                client_secret_input: client_secret_input.deep_view(),
                profile_name_input: profile_name_input.deep_view(),
                error: error.deep_view(),
            },
            AppState::ProfileSelection { error } => SpecState::ProfileSelection {
                error: error.deep_view(),
            },
            AppState::RequestingInteractiveLogin { profile_name } => {
                SpecState::RequestingInteractiveLogin { profile_name: profile_name.deep_view() }
            },
            AppState::WaitingForToken { profile_name, token_input, error } => {
                SpecState::WaitingForToken {
                    profile_name: profile_name.deep_view(),
                    token_input: token_input.deep_view(),
                    error: error.deep_view(),
                }
            },
            AppState::Authenticating { status_message, device_flow_info } => {
                SpecState::Authenticating {
                    status_message: status_message.deep_view(),
                    device_flow_info: device_flow_info.deep_view(),
                }
            },
            AppState::LoggedIn(s) => SpecState::LoggedIn(s.deep_view()),
        }
    }
}

/// The cap on retained chat messages.
pub open spec fn chat_cap() -> int {
    200
}

/// No chatter appears twice in the user list.
pub open spec fn users_unique(us: Seq<SpecUser>) -> bool {
    forall|i: int, j: int| 0 <= i < j < us.len() ==> us[i] != us[j]
}

/// The session invariant: at most 200 retained messages, no duplicate
/// users.
pub open spec fn session_wf(s: SpecSession) -> bool {
    &&& s.chat_messages.len() <= chat_cap()
    &&& users_unique(s.users)
}

/// The state invariant: a live session is well formed.
pub open spec fn state_wf(s: SpecState) -> bool {
    match s {
        SpecState::LoggedIn(sess) => session_wf(sess),
        _ => true,
    }
}

/// The empty session a fresh login enters with.
pub open spec fn spec_new_session(t: SpecToken) -> SpecSession {
    SpecSession {
        token: t,
        user_id: t.user_id,
        user_login: t.login,
        channel_to_join: Seq::empty(),
        current_channel: None,
        message_to_send: Seq::empty(),
        chat_messages: Seq::empty(),
        users: Seq::empty(),
        global_emotes: Seq::empty(),
        send_in_progress: false,
        last_error: None,
        eventsub_task: None,
    }
}

impl Session {
    /// The session a fresh login enters with: empty chat, no channel, no
    /// running subscription task.
    pub fn new_session(token: Token) -> (r: Session)
        ensures
            r.deep_view() == spec_new_session(token.deep_view()),
    {
        let user_id = crate::config::clone_string(&token.user_id);
        let user_login = crate::config::clone_string(&token.login);
        let r = Session {
            token,
            user_id,
            user_login,
            channel_to_join: String::new(),
            current_channel: None,
            message_to_send: String::new(),
            chat_messages: Vec::new(),
            users: Vec::new(),
            global_emotes: Vec::new(),
            chat_client: ChatClient::new(),
            send_in_progress: false,
            last_error: None,
            eventsub_task: None,
        };
        proof {
            assert(r.deep_view() =~= spec_new_session(r.token.deep_view()));
        }
        r
    }

    /// Prepares a switch to the named channel: the chat log is cleared, the
    /// channel recorded, and any running subscription task is relinquished.
    /// The returned identifier, if any, is the prior task; the caller must
    /// cancel it before installing a new one, and `install_eventsub_task`
    /// refuses an installation while one is still recorded.
    pub fn begin_channel_switch(&mut self, channel: &str) -> (cancel: Option<u64>)
        ensures
            cancel == old(self).deep_view().eventsub_task,
            final(self).deep_view() == (SpecSession {
                chat_messages: Seq::empty(),
                current_channel: Some(channel@),
                eventsub_task: None,
                ..old(self).deep_view()
            }),
            session_wf(old(self).deep_view()) ==> session_wf(final(self).deep_view()),
    {
        let prior = self.eventsub_task;
        self.eventsub_task = None;
        self.chat_messages.clear();
        self.current_channel = Some(String::from_str(channel));
        proof {
            assert(self.deep_view() =~= (SpecSession {
                chat_messages: Seq::empty(),
                current_channel: Some(channel@),
                eventsub_task: None,
                ..old(self).deep_view()
            }));
        }
        prior
    }

    /// Records a freshly spawned subscription-protocol task. A prior task
    /// must have been relinquished and cancelled first: no two tasks are
    /// ever recorded at once.
    pub fn install_eventsub_task(&mut self, task: u64)
        requires
            old(self).deep_view().eventsub_task is None,
        ensures
            final(self).deep_view() == (SpecSession {
                eventsub_task: Some(task),
                ..old(self).deep_view()
            }),
            session_wf(old(self).deep_view()) ==> session_wf(final(self).deep_view()),
    {
        self.eventsub_task = Some(task);
        proof {
            assert(self.deep_view() =~= (SpecSession {
                eventsub_task: Some(task),
                ..old(self).deep_view()
            }));
        }
    }

    /// Whether the send controls are usable: something to send, a joined
    /// channel, and no send already running.
    pub fn can_send(&self) -> (r: bool)
        ensures
            r == spec_can_send(self.deep_view()),
    {
        !self.message_to_send.as_str().is_empty() && self.current_channel.is_some()
            && !self.send_in_progress
    }

    /// Starts an outbound send: marks the send as running, clears the error
    /// banner, and hands back the request the transport should perform.
    /// Returns nothing when no channel is joined.
    pub fn begin_send(&mut self, is_announcement: bool) -> (r: Option<SendRequest>)
        ensures
            old(self).deep_view().current_channel is None ==> r is None && *final(self)
                == *old(self),
            old(self).deep_view().current_channel matches Some(ch) ==> {
                &&& final(self).deep_view() == (SpecSession {
                    send_in_progress: true,
                    last_error: None,
                    ..old(self).deep_view()
                })
                &&& r matches Some(req) && req.deep_view() == (SpecSendRequest {
                    channel_login: ch,
                    sender_id: old(self).deep_view().user_id,
                    message: old(self).deep_view().message_to_send,
                    kind: if is_announcement {
                        SendKind::Announcement(Some(crate::chat::AnnouncementColor::Primary))
                    } else {
                        SendKind::Chat
                    },
                })
            },
            session_wf(old(self).deep_view()) ==> session_wf(final(self).deep_view()),
    {
        let channel = match &self.current_channel {
            Some(c) => crate::config::clone_string(c),
            None => {
                return None;
            },
        };
        self.send_in_progress = true;
        self.last_error = None;
        let req = SendRequest {
            channel_login: channel,
            sender_id: crate::config::clone_string(&self.user_id),
            message: crate::config::clone_string(&self.message_to_send),
            kind: if is_announcement {
                SendKind::Announcement(Some(crate::chat::AnnouncementColor::Primary))
            } else {
                SendKind::Chat
            },
        };
        proof {
            assert(self.deep_view() =~= (SpecSession {
                send_in_progress: true,
                last_error: None,
                ..old(self).deep_view()
            }));
        }
        Some(req)
    }
}

/// Whether the send controls are usable.
pub open spec fn spec_can_send(s: SpecSession) -> bool {
    s.message_to_send.len() > 0 && s.current_channel is Some && !s.send_in_progress
}

impl AppState {
    /// Claims the bootstrap dispatch: returns whether the caller should
    /// spawn the bootstrap task, and ensures it is only claimed once.
    pub fn claim_bootstrap(&mut self) -> (spawn: bool)
        ensures
            spawn == (old(self).deep_view() matches SpecState::Startup { task_spawned } && !task_spawned),
            old(self).deep_view() is Startup ==> final(self).deep_view()
                == (SpecState::Startup { task_spawned: true }),
            !(old(self).deep_view() is Startup) ==> *final(self) == *old(self),
            state_wf(old(self).deep_view()) ==> state_wf(final(self).deep_view()),
    {
        match self {
            AppState::Startup { task_spawned } => {
                let was = *task_spawned;
                *task_spawned = true;
                !was
            },
            _ => false,
        }
    }
}

} // verus!
