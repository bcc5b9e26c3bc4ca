//! Account, login and routing logic of a small game SDK / dispatch server.
pub mod decimal;
pub mod digest;
pub mod text;
pub mod account;
pub mod reply;
pub mod login;
pub mod session;
pub mod routing;
pub mod dispatch;
pub mod laws;
