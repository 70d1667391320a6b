//! A mail server that speaks SMTP: the rules of both ends of the conversation, without the
//! sockets.

pub mod address;
pub mod calls;
pub mod cli;
pub mod conduct;
pub mod delivery;
pub mod email;
pub mod laws;
pub mod protocol;
pub mod reading;
pub mod rules;
pub mod sender;
pub mod server;
pub mod session;
pub mod text;
pub mod verb;
pub mod wording;
