//! The egg-claiming counterpart: its reply grammar and classifier.

pub mod bot;
pub mod parser;
pub mod patterns;
