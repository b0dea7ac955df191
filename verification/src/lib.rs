//! Building blocks of a Misskey bot: command parsing of mention texts,
//! the retry policy of the send gate, the decisions of the cron scheduler
//! and the in-memory part of the JSON key-value store.

pub mod router;
pub mod text;
pub mod gate;
pub mod scheduler;
pub mod store;
