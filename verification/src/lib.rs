//! Decision core of a moderation engine for a federated chat protocol.
//!
//! The crate holds the logic that decides *whether* and *how* to moderate:
//! entity pattern matching, rule aggregation across rule rooms, severity-based
//! conflict resolution, the power-level rewrite that implements muting, the
//! invite-acceptance state machine with bounded exponential backoff, and the
//! parsing of moderation commands. Everything that talks to the network, the
//! file system or the terminal lives outside this crate and hands plain values
//! in and out.

pub mod command;
pub mod config;
pub mod enforce;
pub mod entity;
pub mod invite;
pub mod login;
pub mod rules;
pub mod text;
