//! Session and state engine for a chat-based number-guessing game.
//!
//! The crate models per-(chat, user) game sessions, an adaptive difficulty
//! ladder that tightens the attempts budget after each win and resets it
//! after repeated losses, and snapshot encoding for the persisted adaptive
//! state. The chat transport around it only parses commands, renders
//! outcomes into text and moves snapshot files to and from disk.

pub mod config;
pub mod game;
pub mod keys;
pub mod ladder;
pub mod lang;
pub mod maps;
pub mod outcome;
pub mod persist;
pub mod rng;
pub mod store;
