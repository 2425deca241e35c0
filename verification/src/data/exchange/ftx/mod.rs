pub mod bbo;
pub mod serde;
pub mod trade;
