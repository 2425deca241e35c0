use proper_market::decimal::Decimal;
use proper_market::message::{decode_message, marshal_message, try_decode_message, Message};
use proper_market::structs::instrument::{Instrument, InstrumentType};
use proper_market::structs::market_price::{
    decode_market_price, encode_market_price, is_decodable_market_price, marshal_market_price,
    MarketPrice,
};
use proper_market::structs::quotes::{
    decode_quotes, encode_quotes, is_decodable_quotes, marshal_quotes, Depth, Quotes,
};
use proper_market::structs::trades::{decode_trades, is_decodable_trades, marshal_trades, Trade, Trades};

/// `a + b` as `rust_decimal` adds them.
fn add(a: Decimal, b: i64) -> Decimal {
    let x = rust_decimal::Decimal::from_i128_with_scale(a.mantissa(), a.scale()) + rust_decimal::Decimal::from(b);
    Decimal::from_i128_with_scale(x.mantissa(), x.scale())
}

fn btc_usdt() -> Instrument {
    Instrument::from_str("binance:btc_usdt").unwrap()
}

#[test]
fn encode() {
    let test_data = vec![
        Quotes {
            symbol: Instrument::from_str("binance:btc_usdt").unwrap(),
            market_timestamp: 123456789,
            timestamp: Some(123456789),
            is_snapshot: true,
            is_l1: true,
            depths: vec![
                Depth { price: Decimal::new(20000, 0), size: Decimal::new(-1, 0) },
                Depth { price: Decimal::new(21000, 0), size: Decimal::new(1, 0) },
            ],
        },
        Quotes {
            symbol: Instrument::from_str("binance:eth_usdt").unwrap(),
            market_timestamp: 123456789,
            timestamp: Some(123456789),
            is_snapshot: true,
            is_l1: false,
            depths: {
                let mut depths = vec![];
                let p = Decimal::new(20000, 0);
                let s = Decimal::new(-1, 0);
                for i in 0..10 {
                    depths.push(Depth { price: add(p, i), size: add(s, 2 * i) });
                }
                depths
            },
        },
    ];

    let test_data = test_data.into_iter().map(|d| marshal_quotes(d)).collect::<Vec<_>>();

    let test_data = test_data
        .into_iter()
        .map(|u| {
            if let Message::QuotesMsg(m) = decode_message(&u) {
                m
            } else {
                panic!("decode_message failed");
            }
        })
        .collect::<Vec<_>>();

    assert_eq!(test_data[1].depths[1].price, Decimal::new(20001, 0));
}

#[test]
fn quotes_read_back_field_by_field() {
    let q = Quotes {
        symbol: btc_usdt(),
        market_timestamp: 42,
        timestamp: Some(7),
        is_snapshot: false,
        is_l1: true,
        depths: vec![
            Depth { price: Decimal::new(12345, 2), size: Decimal::new(-3, 1) },
            Depth { price: Decimal::new(12346, 2), size: Decimal::new(5, 0) },
        ],
    };
    let bytes = marshal_quotes(q.clone());
    assert_eq!(bytes.len(), 8 + 35 + 3 + 18 * 2);
    assert!(is_decodable_quotes(&bytes));
    let got = decode_quotes(&bytes);
    assert_eq!(got.symbol, q.symbol);
    assert_eq!(got.market_timestamp, 42);
    assert_eq!(got.timestamp, Some(7));
    assert!(!got.is_snapshot);
    assert!(got.is_l1);
    assert_eq!(got.depths.len(), 2);
    assert_eq!(got.depths[0].price.mantissa(), 12345);
    assert_eq!(got.depths[0].price.scale(), 2);
    assert_eq!(got.depths[0].size.mantissa(), -3);
    assert_eq!(got.depths[1].size.scale(), 0);
}

#[test]
fn quotes_message_layout() {
    let q = Quotes {
        symbol: btc_usdt(),
        market_timestamp: 1,
        timestamp: None,
        is_snapshot: true,
        is_l1: true,
        depths: vec![Depth { price: Decimal::new(1, 0), size: Decimal::new(2, 0) }],
    };
    let bytes = marshal_quotes(q);
    // header: block length 35, template 1, schema 1, version 1
    assert_eq!(&bytes[0..8], &[35, 0, 1, 0, 1, 0, 1, 0]);
    // instrument: binance, quote, base, spot
    assert_eq!(bytes[8], 0);
    assert_eq!(&bytes[9..15], b"usdt\0\0");
    assert_eq!(&bytes[15..21], b"btc\0\0\0");
    assert_eq!(bytes[21], 0);
    // a timestamp of none is left as the buffer was
    assert_eq!(&bytes[34..42], &[0; 8]);
    // flags: snapshot and best levels
    assert_eq!(bytes[42], 3);
    // group: block length 18, one level
    assert_eq!(&bytes[43..46], &[18, 0, 1]);
    assert_eq!(&bytes[46..55], &[1, 0, 0, 0, 0, 0, 0, 0, 0]);
    assert_eq!(&bytes[55..64], &[2, 0, 0, 0, 0, 0, 0, 0, 0]);
}

#[test]
fn encoding_writes_over_the_start_of_a_buffer() {
    let q = Quotes {
        symbol: btc_usdt(),
        market_timestamp: 5,
        timestamp: Some(6),
        is_snapshot: true,
        is_l1: false,
        depths: vec![],
    };
    let mut buffer = vec![0xaau8; 50];
    encode_quotes(&mut buffer, q);
    assert_eq!(buffer.len(), 50);
    assert_eq!(&bytes_at(&buffer, 43, 3), &[18, 0, 0]);
    assert_eq!(&buffer[46..50], &[0xaa; 4]);
    let got = decode_quotes(&buffer);
    assert_eq!(got.depths.len(), 0);
    assert_eq!(got.timestamp, Some(6));
}

fn bytes_at(b: &[u8], at: usize, n: usize) -> Vec<u8> {
    b[at..at + n].to_vec()
}

#[test]
fn truncated_quotes_are_not_decodable() {
    let q = Quotes {
        symbol: btc_usdt(),
        market_timestamp: 1,
        timestamp: Some(1),
        is_snapshot: true,
        is_l1: true,
        depths: vec![Depth { price: Decimal::new(1, 0), size: Decimal::new(2, 0) }],
    };
    let bytes = marshal_quotes(q);
    assert!(!is_decodable_quotes(&bytes[..bytes.len() - 1]));
    assert!(try_decode_message(&bytes[..bytes.len() - 1]).is_none());
    let mut bad_scale = bytes.clone();
    bad_scale[46 + 8] = 29;
    assert!(!is_decodable_quotes(&bad_scale));
    let mut bad_type = bytes.clone();
    bad_type[21] = 2;
    assert!(!is_decodable_quotes(&bad_type));
}

#[test]
fn market_price_round_trip() {
    let mp = MarketPrice {
        symbol: Instrument::from_str("ftx:btc_usd-1_1640995200").unwrap(),
        market_timestamp: 10,
        timestamp: Some(11),
        bid_price: Decimal::new(4700001, 2),
        bid_size: Decimal::new(-15, 1),
        ask_price: Decimal::new(4700002, 2),
        ask_size: Decimal::new(2, 0),
    };
    let bytes = marshal_market_price(mp);
    assert_eq!(bytes.len(), 78);
    assert!(is_decodable_market_price(&bytes));
    let got = decode_market_price(&bytes);
    assert_eq!(got.symbol, mp.symbol);
    assert_eq!(got.symbol.instrument_type, InstrumentType::Future(Some(1640995200)));
    assert_eq!(got.market_timestamp, 10);
    assert_eq!(got.timestamp, Some(11));
    assert_eq!(got.bid_price.mantissa(), 4700001);
    assert_eq!(got.bid_size.mantissa(), -15);
    assert_eq!(got.ask_price.scale(), 2);
    assert_eq!(got.ask_size.mantissa(), 2);
}

#[test]
fn market_price_without_timestamp_reads_what_the_buffer_held() {
    let mp = MarketPrice {
        symbol: btc_usdt(),
        market_timestamp: 10,
        timestamp: None,
        bid_price: Decimal::new(1, 0),
        bid_size: Decimal::new(1, 0),
        ask_price: Decimal::new(2, 0),
        ask_size: Decimal::new(1, 0),
    };
    let mut buffer = vec![0xffu8; 78];
    encode_market_price(&mut buffer, mp);
    assert_eq!(decode_market_price(&buffer).timestamp, None);
    let zeroed = marshal_market_price(mp);
    assert_eq!(decode_market_price(&zeroed).timestamp, Some(0));
}

#[test]
fn trades_round_trip() {
    let ts = Trades {
        symbol: btc_usdt(),
        market_timestamp: 99,
        trades: vec![
            Trade { price: Decimal::new(30000, 0), size: Decimal::new(-25, 3), timestamp: 1000000 },
            Trade { price: Decimal::new(30001, 0), size: Decimal::new(1, 0), timestamp: 1000001 },
            Trade { price: Decimal::new(30002, 1), size: Decimal::new(7, 0), timestamp: 2000000 },
        ],
    };
    let bytes = marshal_trades(ts.clone());
    assert_eq!(bytes.len(), 8 + 26 + 3 + 26 * 3);
    assert_eq!(&bytes[0..8], &[26, 0, 2, 0, 1, 0, 1, 0]);
    assert!(is_decodable_trades(&bytes));
    let got = decode_trades(&bytes);
    assert_eq!(got.symbol, ts.symbol);
    assert_eq!(got.market_timestamp, 99);
    assert_eq!(got.trades.len(), 3);
    for k in 0..3 {
        assert_eq!(got.trades[k].price.mantissa(), ts.trades[k].price.mantissa());
        assert_eq!(got.trades[k].price.scale(), ts.trades[k].price.scale());
        assert_eq!(got.trades[k].size.mantissa(), ts.trades[k].size.mantissa());
        assert_eq!(got.trades[k].size.scale(), ts.trades[k].size.scale());
        assert_eq!(got.trades[k].timestamp, ts.trades[k].timestamp);
    }
}

#[test]
fn messages_are_told_apart_by_their_template() {
    let ts = Trades { symbol: btc_usdt(), market_timestamp: 1, trades: vec![] };
    let bytes = marshal_message(Message::TradesMsg(ts));
    assert!(matches!(decode_message(&bytes), Message::TradesMsg(_)));
    match try_decode_message(&bytes) {
        Some(Message::TradesMsg(t)) => assert_eq!(t.market_timestamp, 1),
        _ => panic!("trades expected"),
    }
    let mut unknown = bytes.clone();
    unknown[2] = 3;
    assert!(try_decode_message(&unknown).is_none());
    assert!(try_decode_message(&[1, 2, 3]).is_none());
}

#[test]
fn a_mantissa_beyond_64_bits_is_cut() {
    let big = Decimal::from_i128_with_scale(1i128 << 70, 0);
    let q = Quotes {
        symbol: btc_usdt(),
        market_timestamp: 1,
        timestamp: Some(1),
        is_snapshot: true,
        is_l1: true,
        depths: vec![Depth { price: big, size: Decimal::new(1, 0) }],
    };
    let got = decode_quotes(&marshal_quotes(q));
    assert_eq!(got.depths[0].price.mantissa(), 0);
}

#[test]
fn past_255_levels_the_count_wraps_and_the_last_level_stays() {
    let depths: Vec<Depth> = (0..258)
        .map(|i| Depth { price: Decimal::new(1000 + i, 0), size: Decimal::new(1, 0) })
        .collect();
    let q = Quotes { symbol: btc_usdt(), market_timestamp: 5, timestamp: Some(6), is_snapshot: true, is_l1: false, depths };
    let bytes = marshal_quotes(q);
    assert_eq!(bytes.len(), 8 + 35 + 3 + 18 * 258);
    assert_eq!(&bytes[43..46], &[18, 0, 2]);
    let got = decode_quotes(&bytes);
    assert_eq!(got.depths.len(), 2);
    assert_eq!(got.depths[0].price.mantissa(), 1000);
    assert_eq!(got.depths[1].price.mantissa(), 1257);
    assert!(bytes[46 + 36..].iter().all(|b| *b == 0));
}

#[test]
fn past_255_trades_the_count_wraps_and_the_last_trade_stays() {
    let trades: Vec<Trade> = (0..300)
        .map(|i| Trade { price: Decimal::new(i, 0), size: Decimal::new(1, 0), timestamp: i as u64 })
        .collect();
    let ts = Trades { symbol: btc_usdt(), market_timestamp: 1, trades };
    let bytes = marshal_message(Message::TradesMsg(ts));
    assert_eq!(bytes.len(), 8 + 26 + 3 + 26 * 300);
    match decode_message(&bytes) {
        Message::TradesMsg(t) => {
            assert_eq!(t.trades.len(), 44);
            assert_eq!(t.trades[42].timestamp, 42);
            assert_eq!(t.trades[43].timestamp, 299);
            assert_eq!(t.trades[43].price.mantissa(), 299);
        }
        _ => panic!("trades expected"),
    }
}
