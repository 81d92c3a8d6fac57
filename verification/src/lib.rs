//! A supervised, message-driven actor core: bounded mailboxes, a typed
//! address registry plan, a token-bucket rate-limit coordinator, a
//! persistence dispatcher with watcher fan-out, and a two-phase
//! build/wiring protocol with cooperative shutdown.
//!
//! The modules here hold the decision logic of the runtime: what a mailbox
//! accepts, when an actor loop stops, how many tokens a bucket holds, which
//! watchers fire, and what the builder reserves and starts. The asynchronous
//! shell that carries these decisions onto an executor lives outside the
//! library and consults these functions for every choice it makes.

pub mod actor;
pub mod builder;
pub mod command;
pub mod common;
pub mod mailbox;
pub mod rate;
pub mod records;
pub mod registry;
pub mod stealth;
pub mod store;
pub mod supervise;
pub mod system;
pub mod table;
pub mod text;
pub mod web;
