pub mod depth;
pub mod error;
pub mod orderbook;
