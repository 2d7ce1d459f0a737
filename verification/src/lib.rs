//! A real-time multiplayer quiz engine.
//!
//! A manager creates a game for a quiz and shares its invite code; players
//! join and answer timed questions. This crate holds the engine of such a
//! server, every part of it with a machine-checked contract:
//!
//! - [`types`] and [`message`]: the data model and the messages, each with
//!   the mathematical view that the contracts speak of;
//! - [`session`]: the state of a game and the model of every transition;
//! - [`engine`]: the executable session, which does what the model says;
//! - [`registry`]: the indices of live sessions, invite codes and sockets;
//! - [`game`] and [`invite`]: the creation of sessions and invite codes;
//! - [`router`]: what a connection does with each message of its client;
//! - [`scoring`] and [`ranking`]: points and ranks;
//! - [`preservation`] and [`laws`]: what holds of every session and of the
//!   engine as a whole.
//!
//! The engine neither sleeps nor sends. A step takes a command, or the
//! firing of the session's timer, together with a reading of the host's
//! clock, and returns the events to publish and what to do with the timer;
//! the host carries that out.

pub mod audit;
pub mod auth;
pub mod command;
pub mod config;
pub mod engine;
pub mod game;
pub mod images;
pub mod invite;
pub mod laws;
pub mod lookup;
pub mod message;
pub mod preservation;
pub mod ranking;
pub mod registry;
pub mod roster;
pub mod router;
pub mod scoring;
pub mod session;
pub mod text;
pub mod types;
