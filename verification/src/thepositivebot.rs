//! The cookie-claiming counterpart: its reply grammars, ranks and
//! classifier.

pub mod bot;
pub mod claimcookie;
pub mod patterns;
pub mod rank;
