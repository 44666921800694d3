pub mod packet;
pub mod request;
pub mod response;
