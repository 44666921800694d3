pub mod config;
pub mod net;
pub mod packet;
pub mod reader;
pub mod server;
pub mod session;
