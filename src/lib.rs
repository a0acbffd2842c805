pub mod text;
pub mod network;
pub mod config;
pub mod server_config;
pub mod message_type;
pub mod describe;
pub mod payload;
pub mod framer;
pub mod framer_laws;
pub mod socks5;
pub mod connection;
pub mod ids;
