//! The trades channel of an FTX market: each update becomes a trades message,
//! sizes signed by the side that took, timestamps in nanoseconds told apart by
//! adding each trade's place in the update.
use crate::data::exchange::ftx::serde::{
    assets_readable, de_inst, de_inst_accepts, is_inst_of, spec_market_parts,
    spec_subscribe_message, subscribe_messages,
};
use crate::structs::instrument::Instrument;
use crate::decimal::{abs_i128, Decimal};
use crate::message::Message;
use crate::structs::trades::{Trade, Trades};
use crate::util::text::str_eq;
use vstd::prelude::*;

verus! {

/// A trade as the channel sends it.
pub struct FtxTrade {
    pub price: Decimal,
    pub size: Decimal,
    /// `buy` when the buyer took.
    pub side: String,
    /// RFC 3339.
    pub time: String,
}

/// The nanoseconds since the epoch of an RFC 3339 time, or `None` when the text
/// is not one or the time does not fit.
pub uninterp spec fn rfc3339_nanos_of(s: Seq<char>) -> Option<i64>;

/// Parses with `chrono::DateTime::parse_from_rfc3339` and takes
/// `timestamp_nanos_opt`. The claim is that the result depends on the text
/// alone; which time a text gives is not stated.
#[verifier::external_body]
fn rfc3339_nanos(s: &str) -> (r: Option<i64>)
    ensures
        r == rfc3339_nanos_of(s@),
{
    match chrono::DateTime::parse_from_rfc3339(s) {
        Ok(t) => t.timestamp_nanos_opt(),
        Err(_) => None,
    }
}

/// The timestamp of trade `k` of an update: its time, in nanoseconds taken as
/// `u64`, plus `k`.
pub open spec fn trade_time(t: FtxTrade, k: int) -> int {
    (rfc3339_nanos_of(t.time@).unwrap() as u64) + k
}

/// Whether every trade of an update has a time, and its timestamp fits.
pub open spec fn times_ok(data: Seq<FtxTrade>) -> bool {
    forall|k: int|
        0 <= k < data.len() ==> {
            &&& rfc3339_nanos_of((#[trigger] data[k]).time@) is Some
            &&& trade_time(data[k], k) <= u64::MAX
        }
}

/// The size of a trade: positive unless the buyer took, then negative.
pub open spec fn side_signed(t: FtxTrade) -> int {
    if t.side@ != "buy"@ {
        abs_i128(t.size.spec_mantissa())
    } else {
        -abs_i128(t.size.spec_mantissa())
    }
}

/// Handles an update of the trades of `market`, received at `time_recv`
/// (nanoseconds): `Ok(None)` when the name says no instrument; `Err` when a
/// trade has no time or its timestamp does not fit; else, always, the trades
/// message.
pub fn on_trades(time_recv: u64, market: &str, data: Vec<FtxTrade>) -> (r: Result<Option<Message>, ()>)
    requires
        de_inst_accepts(market@),
    ensures
        spec_market_parts(market@) is None ==> r == Ok::<Option<Message>, ()>(None),
        spec_market_parts(market@) is Some ==> (r is Err <==> !times_ok(data@)),
        spec_market_parts(market@) is Some ==> (r matches Ok(Some(_)) <==> times_ok(data@)),
        r matches Ok(Some(msg)) ==> msg matches Message::TradesMsg(t) && {
            &&& is_inst_of(spec_market_parts(market@).unwrap(), t.symbol)
            &&& t.market_timestamp == time_recv
            &&& t.trades@.len() == data@.len()
            &&& forall|k: int|
                0 <= k < data@.len() ==> {
                    &&& (#[trigger] t.trades@[k]).price == data@[k].price
                    &&& t.trades@[k].size.spec_mantissa() == side_signed(data@[k])
                    &&& t.trades@[k].size.spec_scale() == data@[k].size.spec_scale()
                    &&& t.trades@[k].timestamp == trade_time(data@[k], k)
                }
        },
{
    let symbol = match de_inst(market) {
        Some(s) => s,
        None => {
            return Ok(None);
        },
    };
    let mut trades: Vec<Trade> = Vec::new();
    let mut n: usize = 0;
    while n < data.len()
        invariant
            spec_market_parts(market@) is Some,
            n <= data@.len(),
            trades@.len() == n,
            forall|k: int|
                0 <= k < n ==> {
                    &&& rfc3339_nanos_of((#[trigger] data@[k]).time@) is Some
                    &&& trade_time(data@[k], k) <= u64::MAX
                    &&& trades@[k].price == data@[k].price
                    &&& trades@[k].size.spec_mantissa() == side_signed(data@[k])
                    &&& trades@[k].size.spec_scale() == data@[k].size.spec_scale()
                    &&& trades@[k].timestamp == trade_time(data@[k], k)
                },
        decreases data@.len() - n,
    {
        let t = &data[n];
        let nanos = match rfc3339_nanos(t.time.as_str()) {
            Some(v) => v,
            None => {
                return Err(());
            },
        };
        let timestamp = #[verifier::truncate] (nanos as u64);
        if timestamp > u64::MAX - n as u64 {
            return Err(());
        }
        let mut size = t.size;
        size.set_sign_positive(!str_eq(t.side.as_str(), "buy"));
        trades.push(Trade { price: t.price, size, timestamp: timestamp + n as u64 });
        n += 1;
    }
    Ok(Some(Message::TradesMsg(Trades { symbol, market_timestamp: time_recv, trades })))
}

/// The state of the trades channel: the instruments subscribed to.
pub struct State {
    pub insts: Vec<Instrument>,
}

impl State {
    /// The messages that subscribe to the trades of each instrument, sent once connected.
    pub fn init_messages(&self) -> (r: Vec<String>)
        requires
            forall|k: int| 0 <= k < self.insts@.len() ==> assets_readable(#[trigger] self.insts@[k]),
        ensures
            r@.len() == self.insts@.len(),
            forall|k: int|
                0 <= k < self.insts@.len() ==> (#[trigger] r@[k])@ == spec_subscribe_message(
                    "trades"@,
                    self.insts@[k],
                ),
    {
        subscribe_messages("trades", &self.insts)
    }
}

/// Trades of one update with the same time get increasing timestamps, by
/// their places in the update.
pub proof fn lemma_same_time_increasing(a: FtxTrade, b: FtxTrade, j: int, k: int)
    requires
        a.time@ == b.time@,
        j < k,
    ensures
        trade_time(a, j) < trade_time(b, k),
{
}

} // verus!
