//! The ticker channel of an FTX market: each update becomes a quotes message
//! of the best levels.
use crate::data::exchange::ftx::serde::{
    assets_readable, de_inst, de_inst_accepts, is_inst_of, spec_market_parts,
    spec_subscribe_message, subscribe_messages,
};
use crate::structs::instrument::Instrument;
use crate::decimal::Decimal;
use crate::message::Message;
use crate::structs::quotes::{Depth, Quotes};
use vstd::prelude::*;

verus! {

/// Handles a ticker update of `market` received at `time_recv`, both times in
/// nanoseconds: `None` when the name says no instrument; else a snapshot of the
/// best levels, the bid then the ask, each with its size.
pub fn on_ticker(
    time_recv: u64,
    market: &str,
    time: u64,
    bid: Decimal,
    bid_size: Decimal,
    ask: Decimal,
    ask_size: Decimal,
) -> (m: Option<Message>)
    requires
        de_inst_accepts(market@),
    ensures
        m is Some <==> spec_market_parts(market@) is Some,
        m matches Some(msg) ==> msg matches Message::QuotesMsg(q) && {
            &&& is_inst_of(spec_market_parts(market@).unwrap(), q.symbol)
            &&& q.market_timestamp == time_recv
            &&& q.timestamp == Some(time)
            &&& q.is_snapshot
            &&& q.is_l1
            &&& q.depths@.len() == 2
            &&& q.depths@[0].price == bid
            &&& q.depths@[0].size == bid_size
            &&& q.depths@[1].price == ask
            &&& q.depths@[1].size == ask_size
        },
{
    let symbol = match de_inst(market) {
        Some(s) => s,
        None => {
            return None;
        },
    };
    Some(
        Message::QuotesMsg(
            Quotes {
                symbol,
                market_timestamp: time_recv,
                timestamp: Some(time),
                is_snapshot: true,
                is_l1: true,
                depths: vec![
                    Depth { price: bid, size: bid_size },
                    Depth { price: ask, size: ask_size },
                ],
            },
        ),
    )
}

/// The state of the ticker channel: the instruments subscribed to.
pub struct State {
    pub insts: Vec<Instrument>,
}

impl State {
    /// The messages that subscribe to the ticker of each instrument, sent once connected.
    pub fn init_messages(&self) -> (r: Vec<String>)
        requires
            forall|k: int| 0 <= k < self.insts@.len() ==> assets_readable(#[trigger] self.insts@[k]),
        ensures
            r@.len() == self.insts@.len(),
            forall|k: int|
                0 <= k < self.insts@.len() ==> (#[trigger] r@[k])@ == spec_subscribe_message(
                    "ticker"@,
                    self.insts@[k],
                ),
    {
        subscribe_messages("ticker", &self.insts)
    }
}

} // verus!
