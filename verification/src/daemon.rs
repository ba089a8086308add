//! The daemon: what it knows of flows, sessions, triggers and chat intents, and
//! what it decides.
pub mod access;
pub mod answers;
pub mod audit;
pub mod chat;
pub mod flows;
pub mod launch;
pub mod limits;
pub mod policy;
pub mod registry;
pub mod sessions;
pub mod settings;
pub mod tasks;
pub mod trigger;
pub mod turns;
