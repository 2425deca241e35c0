//! The best-bid-and-offer stream of a Binance spot instrument: each update
//! becomes a quotes message of the best levels.
use crate::data::exchange::binance::serde::{de_inst, de_inst_accepts, is_inst_of, usdt};
use crate::decimal::Decimal;
use crate::message::Message;
use crate::structs::quotes::{Depth, Quotes};
use crate::util::symbol::ends_with;
use vstd::prelude::*;
use vstd::string::StringSliceAdditionalSpecFns;
use vstd::utf8::encode_utf8;

verus! {

/// Handles an update of the best bid and offer received at `time_recv`
/// (nanoseconds): `None` when the symbol names no spot instrument; else a
/// snapshot of the best levels, the bid with its size made negative, then the ask.
pub fn on_book_ticker(
    time_recv: u64,
    symbol: &str,
    bid: Decimal,
    bid_size: Decimal,
    ask: Decimal,
    ask_size: Decimal,
) -> (m: Option<Message>)
    requires
        de_inst_accepts(symbol.spec_bytes()),
    ensures
        m is Some <==> ends_with(symbol.spec_bytes(), encode_utf8(usdt())),
        m matches Some(msg) ==> msg matches Message::QuotesMsg(q) && {
            &&& is_inst_of(symbol.spec_bytes(), q.symbol)
            &&& q.market_timestamp == time_recv
            &&& q.timestamp is None
            &&& q.is_snapshot
            &&& q.is_l1
            &&& q.depths@.len() == 2
            &&& q.depths@[0].price == bid
            &&& q.depths@[0].size.spec_mantissa() == -bid_size.spec_mantissa()
            &&& q.depths@[0].size.spec_scale() == bid_size.spec_scale()
            &&& q.depths@[1].price == ask
            &&& q.depths@[1].size == ask_size
        },
{
    let symbol = match de_inst(symbol) {
        Some(s) => s,
        None => {
            return None;
        },
    };
    Some(
        Message::QuotesMsg(
            Quotes {
                symbol,
                market_timestamp: time_recv,
                timestamp: None,
                is_snapshot: true,
                is_l1: true,
                depths: vec![
                    Depth { price: bid, size: bid_size.neg() },
                    Depth { price: ask, size: ask_size },
                ],
            },
        ),
    )
}

} // verus!
