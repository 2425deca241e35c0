pub mod bbo;
pub mod orderbook;
pub mod serde;
pub mod trade;
