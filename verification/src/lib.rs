pub mod bytes;
pub mod connection;
pub mod encoding;
pub mod laws;
pub mod reader;
pub mod request;
pub mod response;
pub mod route;
pub mod server;
pub mod status;
pub mod store;
pub mod table;
