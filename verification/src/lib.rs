pub mod api;
pub mod decimal;
pub mod util;
pub mod data;
pub mod market_api;
pub mod message;
pub mod structs;
