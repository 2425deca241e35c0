//! The trade stream of a Binance spot instrument: each trade becomes a trades
//! message of one trade, its size signed by the side that took, its timestamp
//! in nanoseconds told apart from other trades of the same millisecond.
use crate::data::exchange::binance::serde::{de_inst, de_inst_accepts, is_inst_of, usdt};
use crate::decimal::{abs_i128, Decimal};
use crate::message::Message;
use crate::structs::trades::{Trade, Trades};
use crate::util::symbol::ends_with;
use vstd::prelude::*;
use vstd::string::StringSliceAdditionalSpecFns;
use vstd::utf8::encode_utf8;

verus! {

/// The state of a trade stream: the millisecond timestamp of the last trade,
/// and its number among the trades of that millisecond.
pub struct State {
    pub last_ts: Option<(u64, u64)>,
}

impl Default for State {
    fn default() -> (s: State)
        ensures
            s.last_ts is None,
    {
        State { last_ts: None }
    }
}

/// The number of a trade at `trade_ts` among the trades of its millisecond:
/// one more than the last trade's when it has the same timestamp, else 0.
pub open spec fn next_number(last_ts: Option<(u64, u64)>, trade_ts: u64) -> int {
    match last_ts {
        Some((ts, n)) => if ts == trade_ts {
            n + 1
        } else {
            0
        },
        None => 0,
    }
}

/// The nanosecond timestamp of a trade: its millisecond, then its number.
pub open spec fn trade_nanos(trade_ts: u64, n: int) -> int {
    trade_ts * 1_000_000 + n
}

/// The size of a trade: the quantity, positive when the buyer took (the
/// buyer was not the maker), negative otherwise.
pub open spec fn taker_signed(quantity: Decimal, buyer_is_maker: bool) -> int {
    if buyer_is_maker {
        -abs_i128(quantity.spec_mantissa())
    } else {
        abs_i128(quantity.spec_mantissa())
    }
}

/// Handles a trade of the stream received at `time_recv` (nanoseconds): `None`,
/// with the state as it was, when the symbol names no spot instrument; else the
/// trades message of the trade, and the state moves to the trade's millisecond
/// and number.
pub fn on_trade(
    state: &mut State,
    time_recv: u64,
    symbol: &str,
    trade_ts: u64,
    price: Decimal,
    quantity: Decimal,
    buyer_is_maker: bool,
) -> (m: Option<Message>)
    requires
        de_inst_accepts(symbol.spec_bytes()),
        ends_with(symbol.spec_bytes(), encode_utf8(usdt())) ==> trade_nanos(
            trade_ts,
            next_number(old(state).last_ts, trade_ts),
        ) <= u64::MAX,
    ensures
        m is Some <==> ends_with(symbol.spec_bytes(), encode_utf8(usdt())),
        m is None ==> *final(state) == *old(state),
        m matches Some(msg) ==> {
            let n = next_number(old(state).last_ts, trade_ts);
            &&& final(state).last_ts == Some((trade_ts, n as u64))
            &&& msg matches Message::TradesMsg(t) && {
                &&& is_inst_of(symbol.spec_bytes(), t.symbol)
                &&& t.market_timestamp == time_recv
                &&& t.trades@.len() == 1
                &&& t.trades@[0].price == price
                &&& t.trades@[0].size.spec_mantissa() == taker_signed(quantity, buyer_is_maker)
                &&& t.trades@[0].size.spec_scale() == quantity.spec_scale()
                &&& t.trades@[0].timestamp == trade_nanos(trade_ts, n)
            }
        },
{
    let symbol = match de_inst(symbol) {
        Some(s) => s,
        None => {
            return None;
        },
    };
    let mut quantity = quantity;
    quantity.set_sign_positive(!buyer_is_maker);
    let new_n = match state.last_ts {
        Some((last_ts, n)) => if last_ts == trade_ts {
            n + 1
        } else {
            0
        },
        None => 0,
    };
    state.last_ts = Some((trade_ts, new_n));
    Some(
        Message::TradesMsg(
            Trades {
                symbol,
                market_timestamp: time_recv,
                trades: vec![Trade { price, size: quantity, timestamp: trade_ts * 1_000_000 + new_n }],
            },
        ),
    )
}

/// Whether the nanosecond timestamp of a trade at `trade_ts` fits in 64 bits,
/// with the number that the state gives it.
pub fn trade_fits(state: &State, trade_ts: u64) -> (r: bool)
    ensures
        r == (trade_nanos(trade_ts, next_number(state.last_ts, trade_ts)) <= u64::MAX),
{
    let n: u128 = match state.last_ts {
        Some((last_ts, n)) => if last_ts == trade_ts {
            n as u128 + 1
        } else {
            0
        },
        None => 0,
    };
    let total: u128 = trade_ts as u128 * 1_000_000 + n;
    total <= u64::MAX as u128
}

/// Successive trades of a stream get increasing timestamps, as long as their
/// milliseconds do not go back and no millisecond holds a million trades.
pub proof fn lemma_trade_nanos_increase(last_ts: u64, n: u64, trade_ts: u64)
    requires
        last_ts <= trade_ts,
        n + 1 < 1_000_000,
    ensures
        trade_nanos(trade_ts, next_number(Some((last_ts, n)), trade_ts)) > trade_nanos(
            last_ts,
            n as int,
        ),
        next_number(Some((last_ts, n)), trade_ts) < 1_000_000,
{
}

} // verus!
