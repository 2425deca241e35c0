pub mod orderbook;
pub mod symbol;
pub mod text;
pub mod websocket;
