//! The core of a chat server: guilds with channels, whose histories are kept in blocks of
//! fifty messages, behind sign-up, sign-in and sessions that expire.
//!
//! `framing` and `connection` carry payloads over a byte stream. `dispatch` answers a
//! request with the stores at hand: `session`, `user` and `server_store`, through
//! `handler` and `server_handler`. `exchange` decides a request for a document store that
//! is somewhere else, from what that store answers to look-ups; `local` proves that both
//! ways come to the same.

pub mod authentication;
pub mod configs;
pub mod connection;
pub mod dispatch;
pub mod error;
pub mod exchange;
pub mod framing;
pub mod handler;
pub mod id;
pub mod keyed;
pub mod local;
pub mod messages;
pub mod server_handler;
pub mod server_store;
pub mod session;
mod text;
pub mod user;
