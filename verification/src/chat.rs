//! Outbound chat: message validation and the two-variant send request the
//! session hands to the REST transport.

use vstd::prelude::*;
use vstd::string::StringSliceAdditionalSpecFns;

verus! {

/// A handle standing for the HTTP transport a session sends through; the
/// shell owns the actual client.
#[derive(Clone, Debug, PartialEq)]
pub struct ChatClient {
    _private: bool,
}

impl DeepView for ChatClient {
    type V = bool;

    open spec fn deep_view(&self) -> bool {
        true
    }
}

impl ChatClient {
    pub fn new() -> (r: ChatClient)
        ensures
            r.deep_view() == true,
    {
        ChatClient { _private: true }
    }
}

/// The colour tag an announcement may carry.
#[derive(Clone, Copy, Debug, PartialEq, Eq, Structural)]
pub enum AnnouncementColor {
    Blue,
    Green,
    Orange,
    Purple,
    Primary,
}

impl DeepView for AnnouncementColor {
    type V = AnnouncementColor;

    open spec fn deep_view(&self) -> AnnouncementColor {
        *self
    }
}

impl AnnouncementColor {
    /// The wire name of this colour.
    pub fn as_str(&self) -> (r: &'static str)
        ensures
            r@ == spec_color_str(*self),
    {
        match self {
            AnnouncementColor::Blue => "blue",
            AnnouncementColor::Green => "green",
            AnnouncementColor::Orange => "orange",
            AnnouncementColor::Purple => "purple",
            AnnouncementColor::Primary => "primary",
        }
    }
}

/// The wire name of each announcement colour.
pub open spec fn spec_color_str(c: AnnouncementColor) -> Seq<char> {
    match c {
        AnnouncementColor::Blue => "blue"@,
        AnnouncementColor::Green => "green"@,
        AnnouncementColor::Orange => "orange"@,
        AnnouncementColor::Purple => "purple"@,
        AnnouncementColor::Primary => "primary"@,
    }
}

/// Whether a message may be sent: non-empty and at most 500 bytes.
pub open spec fn spec_message_ok(m: &str) -> bool {
    0 < m.spec_bytes().len() <= 500
}

/// Checks the platform's limits on an outbound message: it must not be
/// empty and must not exceed 500 bytes.
pub fn validate_message(message: &str) -> (r: Result<(), String>)
    ensures
        r is Ok <==> spec_message_ok(message),
        message.spec_bytes().len() == 0 ==> (r matches Err(e) && e@ == "Message cannot be empty"@),
        message.spec_bytes().len() > 500 ==> (r matches Err(e) && e@
            == "Message too long (max 500 characters)"@),
{
    let bytes = message.as_bytes();
    if bytes.len() == 0 {
        return Err(String::from_str("Message cannot be empty"));
    }
    if bytes.len() > 500 {
        return Err(String::from_str("Message too long (max 500 characters)"));
    }
    Ok(())
}

/// Which endpoint an outbound send should use.
#[derive(Clone, Debug, PartialEq)]
pub enum SendKind {
    /// An ordinary chat message.
    Chat,
    /// An announcement, with an optional colour tag.
    Announcement(Option<AnnouncementColor>),
}

impl DeepView for SendKind {
    type V = SendKind;

    open spec fn deep_view(&self) -> SendKind {
        *self
    }
}

/// One outbound send: the broadcaster and sender it is addressed with, the
/// message body, and which endpoint to use.
#[derive(Clone, Debug, PartialEq)]
pub struct SendRequest {
    pub channel_login: String,
    pub sender_id: String,
    pub message: String,
    pub kind: SendKind,
}

#[verifier::ext_equal]
pub ghost struct SpecSendRequest {
    pub channel_login: Seq<char>,
    pub sender_id: Seq<char>,
    pub message: Seq<char>,
    pub kind: SendKind,
}

impl DeepView for SendRequest {
    type V = SpecSendRequest;

    open spec fn deep_view(&self) -> SpecSendRequest {
        SpecSendRequest {
            channel_login: self.channel_login.deep_view(),
            sender_id: self.sender_id.deep_view(),
            message: self.message.deep_view(),
            kind: self.kind,
        }
    }
}

} // verus!
