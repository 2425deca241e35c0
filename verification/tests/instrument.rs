use proper_market::market_api::exchange::Exchange as ApiExchange;
use proper_market::structs::exchange::Exchange;
use proper_market::structs::instrument::{Instrument, InstrumentType};
use proper_market::structs::symbol::{Symbol, SymbolType};
use proper_market::util::symbol::{asset_to_str, split_currency_quote, str_to_asset, try_str_to_asset};
use proper_market::util::text::{
    contains_char, contains_str, parse_u32, split_str, str_eq, u32_to_string,
};

#[test]
fn instrument_text_of_spot() {
    let i = Instrument::from_str("binance:btc_usdt").unwrap();
    assert_eq!(i.exchange, ApiExchange::binance);
    assert_eq!(&i.base, b"btc\0\0\0");
    assert_eq!(&i.quote, b"usdt\0\0");
    assert_eq!(i.instrument_type, InstrumentType::Spot);
    assert_eq!(i.to_string(), "binance:btc\0\0\0_usdt\0\0-0");
}

#[test]
fn instrument_text_of_futures() {
    let i = Instrument::from_str("ftx:BTC_usd-1").unwrap();
    assert_eq!(i.exchange, ApiExchange::ftx);
    assert_eq!(&i.base, b"btc\0\0\0");
    assert_eq!(i.instrument_type, InstrumentType::Future(None));
    let j = Instrument::from_str("ftx:eth_usd-1_1640995200").unwrap();
    assert_eq!(j.instrument_type, InstrumentType::Future(Some(1640995200)));
    assert_eq!(j.to_string(), "ftx:eth\0\0\0_usd\0\0\0-1_1640995200");
    let k = Instrument::from_str("ftx:eth_usd-0").unwrap();
    assert_eq!(k.instrument_type, InstrumentType::Spot);
}

#[test]
fn instrument_text_refused() {
    assert_eq!(Instrument::from_str("btc_usdt"), Err(()));
    assert_eq!(Instrument::from_str("binance:btcusdt"), Err(()));
    assert_eq!(Instrument::from_str("kraken:btc_usd"), Err(()));
    assert_eq!(Instrument::from_str("ftx:btc_usd-2"), Err(()));
    assert_eq!(Instrument::from_str("ftx:btc_usd-1_x"), Err(()));
    assert_eq!(Instrument::from_str("ftx:btc_usd-1_4294967296"), Err(()));
    assert_eq!(Instrument::try_from_str("binance:toolongname_usdt"), None);
    assert_eq!(Instrument::try_from_str("kraken:toolongname_usdt"), Some(Err(())));
    assert_eq!(
        Instrument::try_from_str("binance:eth_btc"),
        Some(Instrument::from_str("binance:eth_btc"))
    );
}

#[test]
fn symbol_text() {
    let s = Symbol::from_str("ftx:btc_usd-1_7").unwrap();
    assert_eq!(s.exchange, ApiExchange::ftx);
    assert_eq!(s.symbol_type, SymbolType::Future(Some(7)));
    assert_eq!(s.to_string(), "ftx:btc\0\0\0_usd\0\0\0-1_7");
    assert_eq!(Symbol::try_from_str("ftx:a_b-3"), Some(Err(())));
}

#[test]
fn exchange_names() {
    assert_eq!(Exchange::from_name("binance"), Some(Exchange::Binance));
    assert_eq!(Exchange::from_name("ftx"), Some(Exchange::Ftx));
    assert_eq!(Exchange::from_name("Binance"), None);
    assert_eq!(Exchange::Ftx.name(), "ftx");
    assert_eq!(Exchange::from_api(Exchange::Binance.to_api()), Exchange::Binance);
}

#[test]
fn asset_codes() {
    assert_eq!(&str_to_asset("USDT"), b"usdt\0\0");
    assert_eq!(asset_to_str(&str_to_asset("BtC1")), "btc1");
    assert_eq!(asset_to_str(&str_to_asset("A-b_C!")), "a-b_c!");
    assert_eq!(asset_to_str(&str_to_asset("")), "");
    assert_eq!(asset_to_str(b"eth\0\0\0"), "eth");
    assert_eq!(asset_to_str(b"abcdef"), "abcdef");
    assert_eq!(try_str_to_asset("abcdefg"), None);
    assert_eq!(try_str_to_asset("Éa"), Some(*b"\xc3\xa9a\0\0\0"));
}

#[test]
fn symbols_split_at_their_quote() {
    assert_eq!(split_currency_quote("BTCUSDT", &["USDT"]), Some(("BTC", "USDT")));
    assert_eq!(split_currency_quote("ETHBTC", &["USDT", "BTC"]), Some(("ETH", "BTC")));
    assert_eq!(split_currency_quote("ETHBTC", &["USDT"]), None);
}

#[test]
fn text_helpers() {
    assert_eq!(parse_u32("42"), Some(42));
    assert_eq!(parse_u32("+7"), Some(7));
    assert_eq!(parse_u32("4294967295"), Some(u32::MAX));
    assert_eq!(parse_u32("4294967296"), None);
    assert_eq!(parse_u32(""), None);
    assert_eq!(parse_u32("-1"), None);
    assert_eq!(u32_to_string(0), "0");
    assert_eq!(u32_to_string(1640995200), "1640995200");
    assert_eq!(split_str("a-b--c", '-'), vec!["a", "b", "", "c"]);
    assert!(str_eq("abc", "abc"));
    assert!(!str_eq("abc", "abd"));
    assert!(contains_char("BTC-PERP", '-'));
    assert!(!contains_char("BTC/USD", '-'));
    assert!(contains_str("BTC-MOVE-move", "move"));
    assert!(!contains_str("BTC-MOVE", "move"));
    assert!(contains_str("x", ""));
}

#[test]
fn standard_library_calls() {
    assert_eq!(&str_to_asset("BtC"), b"btc\0\0\0");
    assert_eq!(try_str_to_asset("ÄÖ"), Some(*b"\xc3\xa4\xc3\xb6\0\0"));
    assert_eq!(asset_to_str(b"usd\0\0\0"), "usd");
    assert_eq!(asset_to_str(b"\xc3\xa4\0\0\0\0"), "ä");
}
