pub mod login;
pub mod pong;
