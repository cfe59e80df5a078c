//! An SMTP admission gateway: the protocol engine, the admission rules and the
//! relay transaction, as verified state machines over plain values.

pub mod admission;
pub mod command;
pub mod config;
pub mod domain;
pub mod lookup;
pub mod ratelimit;
pub mod reader;
pub mod relay;
pub mod session;
pub mod text;
