//! Coordination core of a chat bot: the per-group roll-call registry, the
//! countdown arithmetic behind the timer commands, and the request texts of
//! the speech services.

pub mod roll_call;
pub mod registry;
pub mod tts;
pub mod countdown;
