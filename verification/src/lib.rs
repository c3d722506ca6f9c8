//! Lobby/session orchestrator for a multiplayer game's social layer.
//!
//! The crate models the shared session directory (lobbies, per-user lobby
//! pointers, the active-lobby index, game sessions and transient in-match
//! state) and verifies the party-formation state machine that mutates it:
//! lobby creation, invitations, leaving, kicking, leadership changes and
//! game-session provisioning, together with the event fanout envelopes that
//! notify connected clients of every change.

pub mod assoc;
pub mod auth;
pub mod commands;
pub mod directory;
pub mod events;
pub mod friends;
pub mod keys;
pub mod laws;
pub mod model;
pub mod numfmt;
pub mod registry;
pub mod text;
