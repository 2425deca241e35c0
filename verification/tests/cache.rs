use proper_market::api::market_listener::{MarketListener, MarketListenerTrait};
use proper_market::data::exchange::binance::orderbook::{FullbookSeqNum, MbpCache, UpdateSeqNum};
use proper_market::data::mbp_handler::{CacheError, MbpCache as CacheOps};
use proper_market::data::orderbook::{MbpFullbook, MbpUpdate, VerificationStatus};
use proper_market::decimal::Decimal;
use proper_market::message::Message;
use proper_market::structs::instrument::Instrument;
use proper_market::structs::quotes::Quotes;
use proper_market::structs::trades::Trades;
use proper_market::util::orderbook::depth::MbpDepth;
use proper_market::util::websocket::{is_slow, next_step, Action, Event, Phase};

fn level(price: i64, size: i64) -> MbpDepth {
    MbpDepth { price: Decimal::new(price, 0), size: Decimal::new(size, 0) }
}

fn book(seq_num: u64, levels: Vec<MbpDepth>) -> MbpFullbook<FullbookSeqNum> {
    MbpFullbook { depths: levels, verification_status: FullbookSeqNum::new(seq_num) }
}

fn update(first: u64, last: u64, levels: Vec<MbpDepth>) -> MbpUpdate<UpdateSeqNum> {
    MbpUpdate { depths: levels, verification_update: UpdateSeqNum::new(first, last) }
}

fn built(c: &MbpCache) -> (u64, Vec<(i128, i128)>) {
    match c {
        MbpCache::BuiltBook(b) => (
            b.verification_status.seq_num(),
            b.depths.iter().map(|d| (d.price.mantissa(), d.size.mantissa())).collect(),
        ),
        MbpCache::BuildingBook(_) => panic!("built book expected"),
    }
}

#[test]
fn seq_num_check() {
    let levels = vec![level(1, 1)];
    let mut s = FullbookSeqNum::new(10);
    assert_eq!(FullbookSeqNum::verify(&levels, &mut s, &mut UpdateSeqNum::new(10, 12)), Some(false));
    assert_eq!(FullbookSeqNum::verify(&levels, &mut s, &mut UpdateSeqNum::new(5, 12)), None);
    assert_eq!(s.seq_num(), 10);
    assert_eq!(FullbookSeqNum::verify(&levels, &mut s, &mut UpdateSeqNum::new(5, 8)), Some(true));
    assert_eq!(s.seq_num(), 8);
}

#[test]
fn building_cache_keeps_updates() {
    let mut c = MbpCache::new_update(update(1, 2, vec![level(1, 1)]));
    assert!(!c.is_book_built());
    for k in 0..1000u64 {
        assert_eq!(c.process_update(update(3 + k, 3 + k, vec![])), Ok(()));
    }
    assert_eq!(c.process_update(update(5000, 5000, vec![])), Err(CacheError::TooManyUpdates));
}

#[test]
fn built_book_takes_updates_that_follow_it() {
    let mut c = MbpCache::new_response(book(10, vec![level(1, 1), level(3, -1)]));
    assert!(c.is_book_built());
    // no newer than the book: discarded
    assert_eq!(c.process_update(update(9, 10, vec![level(2, 5)])), Ok(()));
    assert_eq!(built(&c), (10, vec![(1, 1), (3, -1)]));
    // right after the book: applied; its check does not pass, so the book keeps its id
    assert_eq!(c.process_update(update(11, 12, vec![level(2, 5)])), Ok(()));
    assert_eq!(built(&c), (10, vec![(1, 1), (2, 5), (3, -1)]));
    // spanning the book: applied
    assert_eq!(c.process_update(update(10, 14, vec![level(1, 0)])), Ok(()));
    assert_eq!(built(&c), (10, vec![(2, 5), (3, -1)]));
    // a gap: refused
    assert_eq!(c.process_update(update(16, 17, vec![])), Err(CacheError::SeqNumMismatch));
    assert_eq!(built(&c).0, 10);
}

#[test]
fn snapshot_replaces_an_older_book() {
    let c = MbpCache::new_response(book(10, vec![level(1, 1)]));
    assert!(matches!(c.process_response(book(9, vec![])), Ok(None)));
    let newer = c.process_response(book(11, vec![level(2, 2)])).unwrap().unwrap();
    assert_eq!(built(&newer), (11, vec![(2, 2)]));
}

#[test]
fn snapshot_replays_cached_updates() {
    let mut c = MbpCache::new_update(update(5, 7, vec![level(1, 1)]));
    assert_eq!(c.process_update(update(6, 9, vec![level(2, 2)])), Ok(()));
    // older than the first update: ignored
    assert!(matches!(c.process_response(book(4, vec![])), Ok(None)));
    // at least as new as the last update: taken as it is
    let taken = c.process_response(book(9, vec![level(9, 9)])).unwrap().unwrap();
    assert_eq!(built(&taken), (9, vec![(9, 9)]));
    // in between: the updates from the one spanning it are applied
    let replayed = c.process_response(book(7, vec![level(9, 9)])).unwrap().unwrap();
    assert_eq!(built(&replayed), (7, vec![(2, 2), (9, 9)]));
}

#[test]
fn replay_stops_at_a_gap() {
    let mut c = MbpCache::new_update(update(5, 7, vec![level(1, 1)]));
    assert_eq!(c.process_update(update(8, 9, vec![level(2, 2)])), Ok(()));
    assert_eq!(c.process_update(update(10, 12, vec![level(3, 3)])), Ok(()));
    assert!(matches!(c.process_response(book(8, vec![])), Err(CacheError::SeqNumMismatch)));
}

#[test]
fn snapshot_without_a_spanning_update_fails() {
    let mut c = MbpCache::new_update(update(5, 7, vec![]));
    assert_eq!(c.process_update(update(9, 12, vec![])), Ok(()));
    assert!(matches!(c.process_response(book(7, vec![])), Err(CacheError::UpdateNotFound)));
    assert_eq!(CacheError::UpdateNotFound.message(), "cache.seq_num < resp.seq_num but not found");
}

struct Counter {
    quotes: usize,
    trades: usize,
}

impl MarketListenerTrait for Counter {
    fn on_quotes(&mut self, _msg: Quotes) {
        self.quotes += 1;
    }
    fn on_trades(&mut self, _msg: Trades) {
        self.trades += 1;
    }
}

#[test]
fn listener_is_told_by_kind() {
    let mut l = MarketListener { inner: Counter { quotes: 0, trades: 0 } };
    let symbol = Instrument::from_str("binance:btc_usdt").unwrap();
    l.on_msg(Message::TradesMsg(Trades { symbol, market_timestamp: 0, trades: vec![] }));
    l.on_msg(Message::TradesMsg(Trades { symbol, market_timestamp: 1, trades: vec![] }));
    l.on_msg(Message::QuotesMsg(Quotes {
        symbol,
        market_timestamp: 0,
        timestamp: None,
        is_snapshot: true,
        is_l1: true,
        depths: vec![],
    }));
    assert_eq!((l.inner.quotes, l.inner.trades), (1, 2));
}

#[test]
fn websocket_session_steps() {
    assert_eq!(next_step(Phase::Connecting, Event::Connected), (Phase::Open, Action::SendInitMessages));
    assert_eq!(next_step(Phase::Connecting, Event::ConnectFailed), (Phase::Connecting, Action::RetryLater));
    assert_eq!(next_step(Phase::Open, Event::Received), (Phase::Open, Action::Handle));
    assert_eq!(next_step(Phase::Open, Event::ControlReceived), (Phase::Open, Action::Handle));
    assert_eq!(next_step(Phase::Open, Event::ReadFailed), (Phase::Connecting, Action::Reconnect));
    assert_eq!(next_step(Phase::Open, Event::ControlEnded), (Phase::Connecting, Action::Reconnect));
    assert!(!is_slow(1_000_000));
    assert!(is_slow(1_000_001));
}
