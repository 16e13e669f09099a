//! The realtime subscription protocol client: one instance per joined
//! channel, driving connect, welcome, subscribe and streaming. The shell
//! owns the socket and the REST side channel; it hands decoded frames in
//! as plain values and performs the actions handed back.

use crate::events::{ChatEvent, SpecChatEvent};
use crate::models::{ChatMessage, Emote, EmoteSource, MessageFragment, SpecChatMessage, SpecFragment};
use vstd::prelude::*;

verus! {

/// Where in the welcome/subscribe handshake the client stands.
#[derive(Clone, Copy, Debug, PartialEq, Eq, Structural)]
pub enum EsPhase {
    /// The socket is being opened.
    Connecting,
    /// The socket is open; the first frame must be a welcome.
    AwaitingWelcome,
    /// The create-subscription request is in flight.
    Subscribing,
    /// Notifications are flowing.
    Streaming,
    /// Terminal; the owning task exits and is never resumed.
    Closed,
}

impl DeepView for EsPhase {
    type V = EsPhase;

    open spec fn deep_view(&self) -> EsPhase {
        *self
    }
}

/// One fragment of an inbound chat notification, as the wire carries it:
/// text, with the emote id set when it references an emote.
#[derive(Clone, Debug, PartialEq)]
pub struct RawFragment {
    pub text: String,
    pub emote_id: Option<String>,
}

#[verifier::ext_equal]
pub ghost struct SpecRawFragment {
    pub text: Seq<char>,
    pub emote_id: Option<Seq<char>>,
}

impl DeepView for RawFragment {
    type V = SpecRawFragment;

    open spec fn deep_view(&self) -> SpecRawFragment {
        SpecRawFragment { text: self.text.deep_view(), emote_id: self.emote_id.deep_view() }
    }
}

/// The fields of a chat-message notification the client consumes.
#[derive(Clone, Debug, PartialEq)]
pub struct Notification {
    pub chatter_name: String,
    /// The chatter's colour as the wire gives it, `#RRGGBB` or otherwise.
    pub color: String,
    pub fragments: Vec<RawFragment>,
}

#[verifier::ext_equal]
pub ghost struct SpecNotification {
    pub chatter_name: Seq<char>,
    pub color: Seq<char>,
    pub fragments: Seq<SpecRawFragment>,
}

impl DeepView for Notification {
    type V = SpecNotification;

    open spec fn deep_view(&self) -> SpecNotification {
        SpecNotification {
            chatter_name: self.chatter_name.deep_view(),
            color: self.color.deep_view(),
            fragments: self.fragments.deep_view(),
        }
    }
}

/// One inbound frame, already decoded from its JSON envelope by kind.
#[derive(Clone, Debug, PartialEq)]
pub enum Frame {
    /// The first frame on a new connection, carrying the session id.
    Welcome { session_id: String },
    /// A chat-message notification.
    Notification(Notification),
    /// A liveness probe; a no-op.
    Keepalive,
    /// The server asks to move; the reference behaviour only notes it and
    /// does not reconnect.
    Reconnect,
    /// A subscription was revoked; the connection continues.
    Revocation,
    /// The connection closed, or an unrecognized frame arrived.
    Closed,
}

#[verifier::ext_equal]
pub ghost enum SpecFrame {
    Welcome { session_id: Seq<char> },
    Notification(SpecNotification),
    Keepalive,
    Reconnect,
    Revocation,
    Closed,
}

impl DeepView for Frame {
    type V = SpecFrame;

    open spec fn deep_view(&self) -> SpecFrame {
        match self {
            Frame::Welcome { session_id } => SpecFrame::Welcome {
                session_id: session_id.deep_view(),
            },
            Frame::Notification(n) => SpecFrame::Notification(n.deep_view()),
            Frame::Keepalive => SpecFrame::Keepalive,
            Frame::Reconnect => SpecFrame::Reconnect,
            Frame::Revocation => SpecFrame::Revocation,
            Frame::Closed => SpecFrame::Closed,
        }
    }
}

/// What the shell must do after a frame is handled.
#[derive(Clone, Debug, PartialEq)]
pub enum EsAction {
    /// Issue the create-subscription request over the REST side channel,
    /// binding the session as transport and these ids as parameters.
    Subscribe { session_id: String, broadcaster_id: String, user_id: String },
    /// Forward this event to the event bus.
    Emit(ChatEvent),
    /// Tear the connection down; the task exits.
    Stop,
}

#[verifier::ext_equal]
pub ghost enum SpecEsAction {
    Subscribe { session_id: Seq<char>, broadcaster_id: Seq<char>, user_id: Seq<char> },
    Emit(SpecChatEvent),
    Stop,
}

impl DeepView for EsAction {
    type V = SpecEsAction;

    open spec fn deep_view(&self) -> SpecEsAction {
        match self {
            EsAction::Subscribe { session_id, broadcaster_id, user_id } => {
                SpecEsAction::Subscribe {
                    session_id: session_id.deep_view(),
                    broadcaster_id: broadcaster_id.deep_view(),
                    user_id: user_id.deep_view(),
                }
            },
            EsAction::Emit(e) => SpecEsAction::Emit(e.deep_view()),
            EsAction::Stop => SpecEsAction::Stop,
        }
    }
}

/// The protocol client for one joined channel.
#[derive(Debug, PartialEq)]
pub struct EventSubClient {
    pub user_id: String,
    pub broadcaster_id: String,
    pub session_id: Option<String>,
    pub phase: EsPhase,
}

#[verifier::ext_equal]
pub ghost struct SpecEventSub {
    pub user_id: Seq<char>,
    pub broadcaster_id: Seq<char>,
    pub session_id: Option<Seq<char>>,
    pub phase: EsPhase,
}

impl DeepView for EventSubClient {
    type V = SpecEventSub;

    open spec fn deep_view(&self) -> SpecEventSub {
        SpecEventSub {
            user_id: self.user_id.deep_view(),
            broadcaster_id: self.broadcaster_id.deep_view(),
            session_id: self.session_id.deep_view(),
            phase: self.phase,
        }
    }
}

// ---- colour and fragment decoding ----

/// Whether this character is a hexadecimal digit.
pub open spec fn is_hex(c: char) -> bool {
    ('0' <= c <= '9') || ('a' <= c <= 'f') || ('A' <= c <= 'F')
}

/// The value of a hexadecimal digit.
pub open spec fn hex_val(c: char) -> int {
    if '0' <= c <= '9' {
        c as int - '0' as int
    } else if 'a' <= c <= 'f' {
        10 + c as int - 'a' as int
    } else {
        10 + c as int - 'A' as int
    }
}

/// One colour component from two characters: their hexadecimal value, or
/// 255 when either is not a hexadecimal digit.
pub open spec fn spec_hex_pair(hi: char, lo: char) -> u8 {
    if is_hex(hi) && is_hex(lo) {
        (16 * hex_val(hi) + hex_val(lo)) as u8
    } else {
        255
    }
}

/// The colour a wire string denotes: `#RRGGBB`, exactly seven characters
/// with a leading `#`, is converted; anything else is treated as absent.
pub open spec fn spec_parse_color(s: Seq<char>) -> Option<(u8, u8, u8)> {
    if s.len() == 7 && s[0] == '#' {
        Some(
            (
                spec_hex_pair(s[1], s[2]),
                spec_hex_pair(s[3], s[4]),
                spec_hex_pair(s[5], s[6]),
            ),
        )
    } else {
        None
    }
}

/// The value of one hexadecimal digit, or nothing.
fn hex_digit(c: char) -> (r: Option<u8>)
    ensures
        r is Some <==> is_hex(c),
        r matches Some(v) ==> v as int == hex_val(c),
{
    let n = c as u32;
    if n >= 0x30 && n <= 0x39 {
        Some((n - 0x30) as u8)
    } else if n >= 0x61 && n <= 0x66 {
        Some((10 + n - 0x61) as u8)
    } else if n >= 0x41 && n <= 0x46 {
        Some((10 + n - 0x41) as u8)
    } else {
        None
    }
}

/// One colour component from two characters.
fn hex_pair(hi: char, lo: char) -> (r: u8)
    ensures
        r == spec_hex_pair(hi, lo),
{
    match (hex_digit(hi), hex_digit(lo)) {
        (Some(h), Some(l)) => 16 * h + l,
        _ => 255,
    }
}

/// Converts a wire colour string to an RGB triple, if it has the
/// `#RRGGBB` shape.
pub fn parse_color(s: &str) -> (r: Option<(u8, u8, u8)>)
    ensures
        r == spec_parse_color(s@),
{
    if s.unicode_len() != 7 {
        return None;
    }
    if s.get_char(0) != '#' {
        return None;
    }
    Some(
        (
            hex_pair(s.get_char(1), s.get_char(2)),
            hex_pair(s.get_char(3), s.get_char(4)),
            hex_pair(s.get_char(5), s.get_char(6)),
        ),
    )
}

/// The CDN image URL for an emote id.
pub open spec fn spec_emote_url(id: Seq<char>) -> Seq<char> {
    "https://static-cdn.jtvnw.net/emoticons/v2/"@ + id + "/default/dark/1.0"@
}

/// One decoded fragment: literal text, or an emote resolved to its CDN
/// image URL.
pub open spec fn spec_decode_fragment(f: SpecRawFragment) -> SpecFragment {
    match f.emote_id {
        Some(id) => SpecFragment::Emote(
            crate::models::SpecEmote {
                name: f.text,
                url: spec_emote_url(id),
                source: EmoteSource::Twitch,
            },
        ),
        None => SpecFragment::Text(f.text),
    }
}

/// The chat message a notification decodes to, stamped with `now`.
pub open spec fn spec_decode_notification(n: SpecNotification, now: i64) -> SpecChatMessage {
    SpecChatMessage {
        sender_name: n.chatter_name,
        sender_color: spec_parse_color(n.color),
        fragments: n.fragments.map_values(|f: SpecRawFragment| spec_decode_fragment(f)),
        timestamp: now,
    }
}

/// Decodes a chat-message notification: display name, optional colour,
/// and the ordered fragments with emotes resolved to CDN URLs.
pub fn decode_notification(n: &Notification, now: i64) -> (r: ChatMessage)
    ensures
        r.deep_view() == spec_decode_notification(n.deep_view(), now),
{
    let ghost nv = n.deep_view();
    let mut fragments: Vec<MessageFragment> = Vec::new();
    let mut i: usize = 0;
    proof {
        assert(fragments.deep_view() =~= nv.fragments.map_values(
            |f: SpecRawFragment| spec_decode_fragment(f),
        ).take(0));
    }
    while i < n.fragments.len()
        invariant
            0 <= i <= n.fragments.len(),
            nv == n.deep_view(),
            nv.fragments.len() == n.fragments.len(),
            fragments.deep_view() == nv.fragments.map_values(
                |f: SpecRawFragment| spec_decode_fragment(f),
            ).take(i as int),
        decreases n.fragments.len() - i,
    {
        let raw = &n.fragments[i];
        let decoded = match &raw.emote_id {
            Some(id) => {
                let url = String::from_str("https://static-cdn.jtvnw.net/emoticons/v2/").concat(
                    id.as_str(),
                ).concat("/default/dark/1.0");
                MessageFragment::Emote(
                    Emote {
                        name: crate::config::clone_string(&raw.text),
                        url,
                        source: EmoteSource::Twitch,
                    },
                )
            },
            None => MessageFragment::Text(crate::config::clone_string(&raw.text)),
        };
        let ghost before = fragments.deep_view();
        fragments.push(decoded);
        proof {
            let mapped = nv.fragments.map_values(|f: SpecRawFragment| spec_decode_fragment(f));
            assert(nv.fragments[i as int] == n.fragments@[i as int].deep_view());
            assert(mapped[i as int] == spec_decode_fragment(nv.fragments[i as int]));
            assert(fragments.deep_view() =~= before.push(spec_decode_fragment(
                nv.fragments[i as int],
            )));
            assert(fragments.deep_view() =~= mapped.take(i + 1));
        }
        i = i + 1;
    }
    proof {
        let mapped = nv.fragments.map_values(|f: SpecRawFragment| spec_decode_fragment(f));
        assert(mapped.take(nv.fragments.len() as int) =~= mapped);
    }
    let r = ChatMessage {
        sender_name: crate::config::clone_string(&n.chatter_name),
        sender_color: parse_color(n.color.as_str()),
        fragments,
        timestamp: now,
    };
    proof {
        assert(r.deep_view() =~= spec_decode_notification(nv, now));
    }
    r
}

// ---- the handshake state machine ----

/// The state after one frame, and the actions to perform.
#[verifier::ext_equal]
pub ghost struct SpecEsStep {
    pub client: SpecEventSub,
    pub actions: Seq<SpecEsAction>,
}

/// The transition table for inbound frames. While the welcome is awaited,
/// only a welcome is accepted: any other first frame is a protocol error.
/// While streaming, notifications are decoded and forwarded, keepalives,
/// reconnects and revocations are let pass, and a closed connection
/// surfaces as an error that ends the task.
pub open spec fn spec_handle_frame(c: SpecEventSub, frame: SpecFrame, now: i64) -> SpecEsStep {
    match c.phase {
        EsPhase::AwaitingWelcome => match frame {
            SpecFrame::Welcome { session_id } => SpecEsStep {
                client: SpecEventSub {
                    session_id: Some(session_id),
                    phase: EsPhase::Subscribing,
                    ..c
                },
                actions: seq![
                    SpecEsAction::Subscribe {
                        session_id: session_id,
                        broadcaster_id: c.broadcaster_id,
                        user_id: c.user_id,
                    },
                ],
            },
            _ => SpecEsStep {
                client: SpecEventSub { phase: EsPhase::Closed, ..c },
                actions: seq![
                    SpecEsAction::Emit(SpecChatEvent::EventSubError("unexpected first frame"@)),
                    SpecEsAction::Stop,
                ],
            },
        },
        EsPhase::Streaming => match frame {
            SpecFrame::Notification(n) => SpecEsStep {
                client: c,
                actions: seq![
                    SpecEsAction::Emit(
                        SpecChatEvent::NewChatMessage(spec_decode_notification(n, now)),
                    ),
                ],
            },
            SpecFrame::Closed => SpecEsStep {
                client: SpecEventSub { phase: EsPhase::Closed, ..c },
                actions: seq![
                    SpecEsAction::Emit(SpecChatEvent::EventSubError("connection closed"@)),
                    SpecEsAction::Stop,
                ],
            },
            _ => SpecEsStep { client: c, actions: Seq::empty() },
        },
        EsPhase::Subscribing => match frame {
            SpecFrame::Closed => SpecEsStep {
                client: SpecEventSub { phase: EsPhase::Closed, ..c },
                actions: seq![
                    SpecEsAction::Emit(SpecChatEvent::EventSubError("connection closed"@)),
                    SpecEsAction::Stop,
                ],
            },
            _ => SpecEsStep { client: c, actions: Seq::empty() },
        },
        _ => SpecEsStep { client: c, actions: Seq::empty() },
    }
}

impl EventSubClient {
    /// A fresh client for one channel, about to open its socket.
    pub fn new(user_id: String, broadcaster_id: String) -> (r: EventSubClient)
        ensures
            r.deep_view() == (SpecEventSub {
                user_id: user_id.deep_view(),
                broadcaster_id: broadcaster_id.deep_view(),
                session_id: None,
                phase: EsPhase::Connecting,
            }),
    {
        EventSubClient { user_id, broadcaster_id, session_id: None, phase: EsPhase::Connecting }
    }

    /// The socket opened: the next inbound frame must be the welcome.
    pub fn on_connected(&mut self)
        ensures
            final(self).deep_view() == (SpecEventSub {
                phase: if old(self).phase is Connecting {
                    EsPhase::AwaitingWelcome
                } else {
                    old(self).phase
                },
                ..old(self).deep_view()
            }),
    {
        if match self.phase {
            EsPhase::Connecting => true,
            _ => false,
        } {
            self.phase = EsPhase::AwaitingWelcome;
        }
        proof {
            assert(self.deep_view() =~= (SpecEventSub {
                phase: if old(self).phase is Connecting {
                    EsPhase::AwaitingWelcome
                } else {
                    old(self).phase
                },
                ..old(self).deep_view()
            }));
        }
    }

    /// Handles one inbound frame, returning the actions to perform, in
    /// order.
    pub fn handle_frame(&mut self, frame: Frame, now: i64) -> (actions: Vec<EsAction>)
        ensures
            final(self).deep_view() == spec_handle_frame(
                old(self).deep_view(),
                frame.deep_view(),
                now,
            ).client,
            actions.deep_view() == spec_handle_frame(
                old(self).deep_view(),
                frame.deep_view(),
                now,
            ).actions,
    {
        let ghost c0 = self.deep_view();
        let ghost fv = frame.deep_view();
        let ghost step = spec_handle_frame(c0, fv, now);
        let mut actions: Vec<EsAction> = Vec::new();
        match self.phase {
            EsPhase::AwaitingWelcome => match frame {
                Frame::Welcome { session_id } => {
                    let sid = crate::config::clone_string(&session_id);
                    actions.push(
                        EsAction::Subscribe {
                            session_id: crate::config::clone_string(&session_id),
                            broadcaster_id: crate::config::clone_string(&self.broadcaster_id),
                            user_id: crate::config::clone_string(&self.user_id),
                        },
                    );
                    self.session_id = Some(sid);
                    self.phase = EsPhase::Subscribing;
                },
                _ => {
                    actions.push(
                        EsAction::Emit(
                            ChatEvent::EventSubError(String::from_str("unexpected first frame")),
                        ),
                    );
                    actions.push(EsAction::Stop);
                    self.phase = EsPhase::Closed;
                },
            },
            EsPhase::Streaming => match frame {
                Frame::Notification(n) => {
                    let msg = decode_notification(&n, now);
                    actions.push(EsAction::Emit(ChatEvent::NewChatMessage(msg)));
                },
                Frame::Closed => {
                    actions.push(
                        EsAction::Emit(
                            ChatEvent::EventSubError(String::from_str("connection closed")),
                        ),
                    );
                    actions.push(EsAction::Stop);
                    self.phase = EsPhase::Closed;
                },
                _ => {},
            },
            EsPhase::Subscribing => match frame {
                Frame::Closed => {
                    actions.push(
                        EsAction::Emit(
                            ChatEvent::EventSubError(String::from_str("connection closed")),
                        ),
                    );
                    actions.push(EsAction::Stop);
                    self.phase = EsPhase::Closed;
                },
                _ => {},
            },
            _ => {},
        }
        proof {
            assert(self.deep_view() =~= step.client);
            assert(actions.deep_view() =~= step.actions);
        }
        actions
    }

    /// Records the outcome of the create-subscription request: on success
    /// notifications start flowing; on failure the error surfaces and the
    /// machine stops, with no retry here — retrying is the channel-switch
    /// gesture in the shell.
    pub fn on_subscribe_result(&mut self, outcome: Result<(), String>) -> (actions: Vec<EsAction>)
        ensures
            old(self).phase is Subscribing && outcome is Ok ==> final(self).deep_view() == (
            SpecEventSub { phase: EsPhase::Streaming, ..old(self).deep_view() })
                && actions.deep_view() == Seq::<SpecEsAction>::empty(),
            old(self).phase is Subscribing && outcome is Err ==> final(self).deep_view() == (
            SpecEventSub { phase: EsPhase::Closed, ..old(self).deep_view() }) && actions.deep_view()
                == seq![
                SpecEsAction::Emit(SpecChatEvent::EventSubError(outcome->Err_0.deep_view())),
                SpecEsAction::Stop,
            ],
            !(old(self).phase is Subscribing) ==> *final(self) == *old(self) && actions.deep_view()
                == Seq::<SpecEsAction>::empty(),
    {
        let mut actions: Vec<EsAction> = Vec::new();
        let in_subscribing = match self.phase {
            EsPhase::Subscribing => true,
            _ => false,
        };
        if in_subscribing {
            match outcome {
                Ok(()) => {
                    self.phase = EsPhase::Streaming;
                    proof {
                        assert(self.deep_view() =~= (SpecEventSub {
                            phase: EsPhase::Streaming,
                            ..old(self).deep_view()
                        }));
                        assert(actions.deep_view() =~= Seq::<SpecEsAction>::empty());
                    }
                },
                Err(e) => {
                    actions.push(EsAction::Emit(ChatEvent::EventSubError(e)));
                    actions.push(EsAction::Stop);
                    self.phase = EsPhase::Closed;
                    proof {
                        assert(self.deep_view() =~= (SpecEventSub {
                            phase: EsPhase::Closed,
                            ..old(self).deep_view()
                        }));
                        assert(actions.deep_view() =~= seq![
                            SpecEsAction::Emit(
                                SpecChatEvent::EventSubError(actions@[0].deep_view()->Emit_0->EventSubError_0),
                            ),
                            SpecEsAction::Stop,
                        ]);
                    }
                },
            }
        } else {
            proof {
                assert(actions.deep_view() =~= Seq::<SpecEsAction>::empty());
            }
        }
        actions
    }
}

} // verus!
