pub mod response;
pub mod server;
