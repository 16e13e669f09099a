//! The chat data model: emotes, message fragments, chat messages and users.
//!
//! Each executable type has a ghost mirror (its `DeepView`) over `Seq<char>`
//! and plain values; every contract in the crate speaks of those mirrors.

use vstd::prelude::*;

verus! {

/// Which emote provider a resolved emote came from.
#[derive(Clone, Copy, Debug, PartialEq, Eq, Structural)]
pub enum EmoteSource {
    Twitch,
    Bttv,
    Ffz,
    Stv,
}

impl DeepView for EmoteSource {
    type V = EmoteSource;

    open spec fn deep_view(&self) -> EmoteSource {
        *self
    }
}

/// An emote reference resolved to a CDN image URL.
#[derive(Clone, Debug, PartialEq)]
pub struct Emote {
    pub name: String,
    pub url: String,
    pub source: EmoteSource,
}

#[verifier::ext_equal]
pub ghost struct SpecEmote {
    pub name: Seq<char>,
    pub url: Seq<char>,
    pub source: EmoteSource,
}

impl DeepView for Emote {
    type V = SpecEmote;

    open spec fn deep_view(&self) -> SpecEmote {
        SpecEmote { name: self.name.deep_view(), url: self.url.deep_view(), source: self.source }
    }
}

/// One atomic piece of a chat message: literal text or a resolved emote.
#[derive(Clone, Debug, PartialEq)]
pub enum MessageFragment {
    Text(String),
    Emote(Emote),
}

#[verifier::ext_equal]
pub ghost enum SpecFragment {
    Text(Seq<char>),
    Emote(SpecEmote),
}

impl DeepView for MessageFragment {
    type V = SpecFragment;

    open spec fn deep_view(&self) -> SpecFragment {
        match self {
            MessageFragment::Text(t) => SpecFragment::Text(t.deep_view()),
            MessageFragment::Emote(e) => SpecFragment::Emote(e.deep_view()),
        }
    }
}

/// A decoded chat message; the timestamp is seconds since the Unix epoch.
#[derive(Clone, Debug, PartialEq)]
pub struct ChatMessage {
    pub sender_name: String,
    pub sender_color: Option<(u8, u8, u8)>,
    pub fragments: Vec<MessageFragment>,
    pub timestamp: i64,
}

#[verifier::ext_equal]
pub ghost struct SpecChatMessage {
    pub sender_name: Seq<char>,
    pub sender_color: Option<(u8, u8, u8)>,
    pub fragments: Seq<SpecFragment>,
    pub timestamp: i64,
}

impl DeepView for ChatMessage {
    type V = SpecChatMessage;

    open spec fn deep_view(&self) -> SpecChatMessage {
        SpecChatMessage {
            sender_name: self.sender_name.deep_view(),
            sender_color: self.sender_color,
            fragments: self.fragments.deep_view(),
            timestamp: self.timestamp,
        }
    }
}

/// A chatter, identified by display name and colour.
#[derive(Clone, Debug, PartialEq, Eq, Hash)]
pub struct User {
    pub name: String,
    pub color: Option<(u8, u8, u8)>,
}

#[verifier::ext_equal]
pub ghost struct SpecUser {
    pub name: Seq<char>,
    pub color: Option<(u8, u8, u8)>,
}

impl DeepView for User {
    type V = SpecUser;

    open spec fn deep_view(&self) -> SpecUser {
        SpecUser { name: self.name.deep_view(), color: self.color }
    }
}

/// The image URLs offered for one global emote.
#[derive(Clone, Debug, PartialEq)]
pub struct EmoteImages {
    pub url_1x: String,
    pub url_2x: String,
    pub url_4x: String,
}

#[verifier::ext_equal]
pub ghost struct SpecEmoteImages {
    pub url_1x: Seq<char>,
    pub url_2x: Seq<char>,
    pub url_4x: Seq<char>,
}

impl DeepView for EmoteImages {
    type V = SpecEmoteImages;

    open spec fn deep_view(&self) -> SpecEmoteImages {
        SpecEmoteImages {
            url_1x: self.url_1x.deep_view(),
            url_2x: self.url_2x.deep_view(),
            url_4x: self.url_4x.deep_view(),
        }
    }
}

/// A global emote as the platform's emote listing reports it.
#[derive(Clone, Debug, PartialEq)]
pub struct TwitchEmote {
    pub id: String,
    pub name: String,
    pub images: EmoteImages,
    pub format: Vec<String>,
    pub scale: Vec<String>,
    pub theme_mode: Vec<String>,
}

#[verifier::ext_equal]
pub ghost struct SpecTwitchEmote {
    pub id: Seq<char>,
    pub name: Seq<char>,
    pub images: SpecEmoteImages,
    pub format: Seq<Seq<char>>,
    pub scale: Seq<Seq<char>>,
    pub theme_mode: Seq<Seq<char>>,
}

impl DeepView for TwitchEmote {
    type V = SpecTwitchEmote;

    open spec fn deep_view(&self) -> SpecTwitchEmote {
        SpecTwitchEmote {
            id: self.id.deep_view(),
            name: self.name.deep_view(),
            images: self.images.deep_view(),
            format: self.format.deep_view(),
            scale: self.scale.deep_view(),
            theme_mode: self.theme_mode.deep_view(),
        }
    }
}

} // verus!
