use proper_market::data::controller::{instruments_of, needs_restart, spot_instruments};
use proper_market::data::exchange::binance;
use proper_market::data::exchange::ftx;
use proper_market::data::exchange::ftx::trade::FtxTrade;
use proper_market::decimal::Decimal;
use proper_market::market_api::exchange::Exchange as ApiExchange;
use proper_market::message::Message;
use proper_market::structs::instrument::{Instrument, InstrumentType};

fn inst(s: &str) -> Instrument {
    Instrument::from_str(s).unwrap()
}

#[test]
fn binance_symbols() {
    let i = binance::serde::de_inst("BTCUSDT").unwrap();
    assert_eq!(i, inst("binance:btc_usdt"));
    assert_eq!(binance::serde::de_inst("ETHBTC"), None);
    assert!(binance::serde::de_inst_takes("ETHBTC"));
    assert!(!binance::serde::de_inst_takes("BTC"));
    assert!(!binance::serde::de_inst_takes("TOOLONGNAMEUSDT"));
    assert_eq!(&binance::serde::de_ccy("BNB"), b"bnb\0\0\0");
    assert_eq!(binance::serde::se_ccy(b"btc\0\0\0"), "btc");
    assert_eq!(binance::serde::se_inst(&inst("binance:btc_usdt")), "btcusdt");
}

#[test]
fn binance_stream_links() {
    let a = inst("binance:btc_usdt");
    let b = inst("binance:eth_usdt");
    assert_eq!(
        binance::serde::get_spot_bbo_links("wss://stream.binance.com:9443", &[&a, &b]),
        vec!["wss://stream.binance.com:9443/stream?streams=btcusdt@bookTicker/ethusdt@bookTicker"]
    );
    assert_eq!(binance::serde::get_spot_trade_links("wss://x", &[&a]), vec!["wss://x/stream?streams=btcusdt@trade"]);
    assert_eq!(binance::serde::get_spot_trade_links("wss://x", &[]), vec!["wss://x/stream?streams="]);
}

#[test]
fn ftx_markets() {
    assert_eq!(ftx::serde::de_inst("BTC/USD").unwrap(), inst("ftx:btc_usd"));
    assert_eq!(ftx::serde::de_inst("BTC-PERP").unwrap(), inst("ftx:btc_usd-1"));
    let dated = ftx::serde::de_inst("BTC-0325").unwrap();
    assert_eq!(dated.instrument_type, InstrumentType::Future(Some(0)));
    assert_eq!(&dated.quote, b"usd\0\0\0");
    let other = ftx::serde::de_inst("ETH-BTC").unwrap();
    assert_eq!(other.instrument_type, InstrumentType::Future(None));
    assert_eq!(&other.quote, b"btc\0\0\0");
    assert_eq!(ftx::serde::de_inst("BTC-MOVE-move"), None);
    assert_eq!(ftx::serde::de_inst("BTCUSD"), None);
    assert!(!ftx::serde::de_inst_takes("BTC-"));
    assert!(ftx::serde::de_inst_takes("BTC-MOVE-move"));
}

#[test]
fn ftx_market_names() {
    assert_eq!(ftx::serde::se_inst(&inst("ftx:btc_usd")), "btc/usd");
    assert_eq!(ftx::serde::se_inst(&inst("ftx:btc_usd-1")), "btc-PERP");
    assert_eq!(ftx::serde::se_inst(&inst("ftx:btc_usd-1_1648166400")), "btc-0325");
    assert_eq!(ftx::serde::se_inst(&inst("ftx:btc_usd-1_0")), "btc-0101");
    assert_eq!(ftx::serde::se_inst(&inst("ftx:btc_usd-1_951782400")), "btc-0229");
    assert_eq!(ftx::serde::se_inst(&inst("ftx:btc_usd-1_1640995199")), "btc-1231");
    assert_eq!(ftx::serde::se_inst(&inst("ftx:btc_usd-1_4294967295")), "btc-0207");
    let state = ftx::bbo::State { insts: vec![inst("ftx:btc_usd-1")] };
    assert_eq!(
        state.init_messages(),
        vec![r#"{"op":"subscribe","channel":"ticker","market":"btc-PERP"}"#]
    );
    let state = ftx::trade::State { insts: vec![inst("ftx:btc_usd"), inst("ftx:eth_usd")] };
    assert_eq!(
        state.init_messages(),
        vec![
            r#"{"op":"subscribe","channel":"trades","market":"btc/usd"}"#,
            r#"{"op":"subscribe","channel":"trades","market":"eth/usd"}"#
        ]
    );
}

#[test]
fn binance_trades_are_numbered_within_their_millisecond() {
    let mut state = binance::trade::State::default();
    let price = Decimal::new(30000, 0);
    let qty = Decimal::new(5, 1);
    let first = binance::trade::on_trade(&mut state, 1, "BTCUSDT", 1000, price, qty, false).unwrap();
    let second = binance::trade::on_trade(&mut state, 2, "BTCUSDT", 1000, price, qty, true).unwrap();
    let third = binance::trade::on_trade(&mut state, 3, "BTCUSDT", 1001, price, qty, true).unwrap();
    let stamps: Vec<(u64, i128)> = [first, second, third]
        .into_iter()
        .map(|m| match m {
            Message::TradesMsg(t) => (t.trades[0].timestamp, t.trades[0].size.mantissa()),
            _ => panic!("trades expected"),
        })
        .collect();
    assert_eq!(stamps, vec![(1000000000, 5), (1000000001, -5), (1001000000, -5)]);
    assert_eq!(state.last_ts, Some((1001, 0)));
    assert!(binance::trade::on_trade(&mut state, 4, "ETHBTC", 1001, price, qty, true).is_none());
    assert_eq!(state.last_ts, Some((1001, 0)));
}

#[test]
fn binance_book_ticker_is_a_snapshot_of_best_levels() {
    let m = binance::bbo::on_book_ticker(7, "ETHUSDT", Decimal::new(20, 0), Decimal::new(3, 0), Decimal::new(21, 0), Decimal::new(4, 0))
        .unwrap();
    match m {
        Message::QuotesMsg(q) => {
            assert_eq!(q.symbol, inst("binance:eth_usdt"));
            assert_eq!(q.market_timestamp, 7);
            assert_eq!(q.timestamp, None);
            assert!(q.is_snapshot && q.is_l1);
            assert_eq!(q.depths[0].size, Decimal::new(-3, 0));
            assert_eq!(q.depths[1].price, Decimal::new(21, 0));
            assert_eq!(q.depths[1].size, Decimal::new(4, 0));
        }
        _ => panic!("quotes expected"),
    }
}

fn ftx_trade(side: &str, time: &str) -> FtxTrade {
    FtxTrade {
        price: Decimal::new(38380, 0),
        size: Decimal::new(2, 4),
        side: side.to_string(),
        time: time.to_string(),
    }
}

#[test]
fn ftx_trades_take_their_place_as_nanoseconds() {
    let data = vec![
        ftx_trade("sell", "2022-03-15T09:05:05.234634+00:00"),
        ftx_trade("buy", "2022-03-15T09:05:05.234634+00:00"),
    ];
    let m = ftx::trade::on_trades(9, "BTC-PERP", data).unwrap().unwrap();
    match m {
        Message::TradesMsg(t) => {
            assert_eq!(t.symbol, inst("ftx:btc_usd-1"));
            assert_eq!(t.market_timestamp, 9);
            assert_eq!(t.trades[0].timestamp, 1647335105234634000);
            assert_eq!(t.trades[1].timestamp, 1647335105234634001);
            assert_eq!(t.trades[0].size.mantissa(), 2);
            assert_eq!(t.trades[1].size.mantissa(), -2);
        }
        _ => panic!("trades expected"),
    }
    assert!(matches!(ftx::trade::on_trades(9, "BTCUSD", vec![ftx_trade("buy", "x")]), Ok(None)));
    assert!(matches!(ftx::trade::on_trades(9, "BTC/USD", vec![ftx_trade("buy", "not a time")]), Err(())));
}

#[test]
fn ftx_ticker_is_a_snapshot_of_best_levels() {
    let m = ftx::bbo::on_ticker(1, "ETH/USD", 5, Decimal::new(1, 0), Decimal::new(2, 0), Decimal::new(3, 0), Decimal::new(4, 0)).unwrap();
    match m {
        Message::QuotesMsg(q) => {
            assert_eq!(q.symbol, inst("ftx:eth_usd"));
            assert_eq!(q.timestamp, Some(5));
            assert_eq!(q.depths[0].size, Decimal::new(2, 0));
        }
        _ => panic!("quotes expected"),
    }
    assert!(ftx::bbo::on_ticker(1, "ETHUSD", 5, Decimal::new(1, 0), Decimal::new(2, 0), Decimal::new(3, 0), Decimal::new(4, 0)).is_none());
}

#[test]
fn instruments_by_exchange_and_kind() {
    let all = vec![inst("binance:btc_usdt"), inst("ftx:btc_usd-1"), inst("ftx:eth_usd"), inst("binance:eth_btc-1")];
    assert_eq!(instruments_of(&all, ApiExchange::ftx), vec![all[1], all[2]]);
    assert_eq!(spot_instruments(&all), vec![all[0], all[2]]);
}

#[test]
fn streams_restart_when_their_instruments_change() {
    let a = inst("ftx:btc_usd");
    let b = inst("ftx:eth_usd");
    let c = inst("ftx:btc_usd-1");
    assert!(!needs_restart(&[a, b], &[b, a]));
    assert!(!needs_restart(&[a, b, a], &[b, a]));
    assert!(!needs_restart(&[], &[]));
    assert!(needs_restart(&[a, b], &[a]));
    assert!(needs_restart(&[a], &[a, c]));
    assert!(needs_restart(&[], &[a]));
}

#[test]
fn instruments_with_text_are_readable() {
    assert!(ftx::serde::instrument_readable(&inst("ftx:btc_usd")));
    let mut i = inst("ftx:btc_usd");
    i.base = [0xff, 0, 0, 0, 0, 0];
    assert!(!ftx::serde::instrument_readable(&i));
    i.base = *b"\xc3\xa4\0\0\0\0";
    assert!(ftx::serde::instrument_readable(&i));
}

#[test]
fn an_ftx_update_with_good_times_always_gives_trades() {
    let data = vec![ftx_trade("sell", "2021-01-01T00:00:00+00:00")];
    assert!(matches!(ftx::trade::on_trades(3, "ETH/USD", data), Ok(Some(Message::TradesMsg(_)))));
}

#[test]
fn binance_trade_timestamps_fit_below_the_largest_millisecond() {
    let mut state = binance::trade::State { last_ts: None };
    assert!(binance::trade::trade_fits(&state, 1000));
    let top = u64::MAX / 1_000_000;
    assert!(binance::trade::trade_fits(&state, top));
    assert!(!binance::trade::trade_fits(&state, top + 1));
    state.last_ts = Some((top, u64::MAX % 1_000_000));
    assert!(!binance::trade::trade_fits(&state, top));
    state.last_ts = Some((top, u64::MAX % 1_000_000 - 1));
    assert!(binance::trade::trade_fits(&state, top));
}
