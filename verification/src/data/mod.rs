pub mod controller;
pub mod exchange;
pub mod mbp_handler;
pub mod orderbook;
