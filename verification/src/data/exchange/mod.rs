pub mod binance;
pub mod ftx;
