pub mod handshake;
pub mod login_start;
pub mod ping;
