//! Automated play of chat-based currency-claiming minigames.
//!
//! The library holds the verified core: the reply grammars of the counterpart
//! bots, the classification of replies into typed outcomes, the correlation of
//! an interleaved message stream back to one outstanding request, and the
//! retry / scheduling decisions.  Transport, HTTP and configuration stay in
//! the surrounding application.

pub mod bot;
pub mod leavesbot;
pub mod okayegbot;
pub mod secrettoken;
pub mod text;
pub mod thepositivebot;
pub mod timestamp;
pub mod toggle;

pub use leavesbot::bot::LeafBot;
pub use okayegbot::bot::EgBot;
pub use secrettoken::Token;
pub use thepositivebot::bot::CookieBot;
pub use timestamp::Timestamp;
pub use toggle::Toggle;
