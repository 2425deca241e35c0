pub mod market_listener;
