//! A verified core for a Minecraft server discovery and monitoring worker.
//!
//! The crate covers the random IPv4 sampler, the wire codec for the subset of
//! the Minecraft Java protocol needed for status and login probes, the login
//! classification state machine, the chat-component text model, and a model of
//! the relational store with the upsert semantics the worker relies on.

pub mod chat;
pub mod codec;
pub mod error;
pub mod json;
pub mod login;
pub mod packets;
pub mod sampler;
pub mod schedule;
pub mod status;
pub mod store;
pub mod varint;
