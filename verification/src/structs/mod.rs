pub mod exchange;
pub mod instrument;
pub mod market_price;
pub mod price;
pub mod quotes;
pub mod trades;
pub mod symbol;
