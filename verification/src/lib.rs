//! The dispatch core of a webhook-driven chat bot: it resolves inbound events
//! to registered actions, keeps each user's conversation state between turns,
//! and never lets two events of one user be handled at the same time.

pub mod action;
pub mod cli;
pub mod codec;
pub mod data;
pub mod generic;
pub mod payload;
pub mod quick_replies;
pub mod request_handler;
pub mod services;
pub mod session;
pub mod text;
