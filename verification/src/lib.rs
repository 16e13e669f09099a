//! A realtime chat client core for a streaming platform.
//!
//! The crate is organised around one typed event channel: background work
//! (credential acquisition, the realtime subscription protocol, outbound
//! sends) reports its outcome as events, and a single session reducer owns
//! the application state and applies each event as a pure transition.
//! Everything that decides or computes lives here, verified; the shell that
//! performs I/O hands plain values in and out.

pub mod auth;
pub mod chat;
pub mod codec;
pub mod config;
pub mod events;
pub mod eventsub;
pub mod models;
pub mod paths;
pub mod reducer;
pub mod state;
pub mod strutil;
pub mod text;
pub mod token;
