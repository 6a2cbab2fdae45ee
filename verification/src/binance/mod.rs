pub mod api;
pub mod client;
pub mod data_stream;
pub mod websocket;
