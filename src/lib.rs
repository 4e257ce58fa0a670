//! The core of a graphical login greeter.
//!
//! The greeter talks to a login broker over a local socket: it creates a
//! session for a user, answers the broker's authentication prompts, and asks
//! the broker to start the chosen session. This crate holds the logic of that
//! conversation and the data that the greeter presents:
//!
//! - [`protocol`], [`wire`] and [`codec`]: the messages, their framing and
//!   their bytes;
//! - [`client`]: the session state machine, one request in flight at a time;
//! - [`dispatch`]: how the greeter reacts to each response;
//! - [`demo`]: a scripted stand-in for the broker;
//! - [`sysutil`], [`desktop`], [`cache`], [`config`]: users, sessions, the
//!   remembered choices and the settings;
//! - [`text`], [`assoc`], [`common`]: helpers over text and string-keyed
//!   entries.

pub mod protocol;
pub mod wire;
pub mod codec;
pub mod client;
pub mod dispatch;
pub mod demo;
pub mod text;
pub mod assoc;
pub mod common;
pub mod sysutil;
pub mod desktop;
pub mod cache;
pub mod config;
