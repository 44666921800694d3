pub mod common;
pub mod handshake;
pub mod packet;
pub mod ping;
pub mod response;
pub mod server;
