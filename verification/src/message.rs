//! A market message: quotes or trades, told apart by the schema, version and
//! template of the message header.
use crate::market_api::message_header_codec::MessageHeaderDecoder;
use crate::market_api::{u16_at, zeros, ReadBuf};
use crate::structs::quotes::{
    decode_quotes, decodes_quotes, is_decodable_quotes, lemma_quotes_decodable,
    lemma_quotes_roundtrip, marshal_quotes, marshaled_quotes, depths_writable, quotes_bytes, quotes_decodable, quotes_length, Quotes,
};
use crate::structs::trades::{
    decode_trades, decodes_trades, is_decodable_trades, lemma_trades_decodable,
    lemma_trades_roundtrip, marshal_trades, marshaled_trades, trades_writable, trades_decodable, trades_length, trades_msg_bytes,
    Trades,
};
use crate::structs::instrument::expiry_reads_back;
use crate::structs::price::dec_fits;
use crate::market_api::bbo_msg_codec::timestamp_reads_back;
use vstd::prelude::*;

verus! {

#[derive(Debug, Clone)]
pub enum Message {
    QuotesMsg(Quotes),
    TradesMsg(Trades),
}

/// The schema, version and template of the message header at the start of `b`.
pub open spec fn header_ids(b: Seq<u8>) -> (u16, u16, u16) {
    (u16_at(b, 4), u16_at(b, 6), u16_at(b, 2))
}

/// Whether the message in `b` is one that decoding knows, and can be decoded:
/// quotes have template 1 and trades template 2, both of schema 1, version 1.
pub open spec fn message_decodable(b: Seq<u8>) -> bool {
    &&& b.len() >= 8
    &&& {
        ||| header_ids(b) == (1u16, 1u16, 1u16) && quotes_decodable(b)
        ||| header_ids(b) == (1u16, 1u16, 2u16) && trades_decodable(b)
    }
}

/// Whether `m` is what the message in `b` holds.
pub open spec fn decodes_message(b: Seq<u8>, m: Message) -> bool {
    match m {
        Message::QuotesMsg(q) => header_ids(b) == (1u16, 1u16, 1u16) && decodes_quotes(b, q),
        Message::TradesMsg(t) => header_ids(b) == (1u16, 1u16, 2u16) && decodes_trades(b, t),
    }
}

/// The bytes of a message: its quotes or trades message in zeroed bytes of
/// the length of all its entries, the group keeping as many entries as its
/// one-byte count says.
pub open spec fn message_bytes(m: Message) -> Seq<u8> {
    match m {
        Message::QuotesMsg(q) => marshaled_quotes(q),
        Message::TradesMsg(t) => marshaled_trades(t),
    }
}

/// Whether a message can be written: past 255 entries, a group's count must
/// not wrap to zero, and the bytes must fit in memory.
pub open spec fn message_writable(m: Message) -> bool {
    match m {
        Message::QuotesMsg(q) => depths_writable(q.depths@.len() as int) && quotes_length(
            q.depths@.len() as int,
        ) <= usize::MAX,
        Message::TradesMsg(t) => trades_writable(t.trades@.len() as int) && trades_length(
            t.trades@.len() as int,
        ) <= usize::MAX,
    }
}

/// A message whose groups fit their count is written whole: its bytes are its
/// quotes or trades message in zeroed bytes of its length.
pub proof fn lemma_fitting_message_bytes(m: Message)
    requires
        message_fits(m),
    ensures
        message_writable(m),
        message_bytes(m) == match m {
            Message::QuotesMsg(q) => quotes_bytes(zeros(quotes_length(q.depths@.len() as int)), q),
            Message::TradesMsg(t) => trades_msg_bytes(zeros(trades_length(t.trades@.len() as int)), t),
        },
{
}

/// Whether a message can be written: a group counts its entries in one byte.
pub open spec fn message_fits(m: Message) -> bool {
    match m {
        Message::QuotesMsg(q) => q.depths@.len() <= 255,
        Message::TradesMsg(t) => t.trades@.len() <= 255,
    }
}

/// Reads the message at the start of `v`, by its header.
pub fn decode_message(v: &[u8]) -> (m: Message)
    requires
        message_decodable(v@),
    ensures
        decodes_message(v@, m),
{
    let buf = ReadBuf::new(v);
    proof {
        buf.lemma_reader();
    }
    let header = MessageHeaderDecoder::default().wrap(buf, 0);
    let template_id = header.template_id();
    let schema_id = header.schema_id();
    let version = header.version();
    match (schema_id, version, template_id) {
        (1, 1, 1) => Message::QuotesMsg(decode_quotes(v)),
        (1, 1, 2) => Message::TradesMsg(decode_trades(v)),
        _ => vstd::pervasive::unreached(),
    }
}

/// Reads the message at the start of `v`: `None` when it is not one that
/// decoding knows, or cannot be decoded.
pub fn try_decode_message(v: &[u8]) -> (m: Option<Message>)
    ensures
        m is Some <==> message_decodable(v@),
        m matches Some(x) ==> decodes_message(v@, x),
{
    if v.len() < 8 {
        return None;
    }
    let buf = ReadBuf::new(v);
    let ids = (buf.get_u16_at(4), buf.get_u16_at(6), buf.get_u16_at(2));
    let known = match ids {
        (1, 1, 1) => is_decodable_quotes(v),
        (1, 1, 2) => is_decodable_trades(v),
        _ => false,
    };
    if known {
        Some(decode_message(v))
    } else {
        None
    }
}

/// The bytes of `m`.
pub fn marshal_message(m: Message) -> (v: Vec<u8>)
    requires
        message_writable(m),
    ensures
        v@ == message_bytes(m),
{
    match m {
        Message::QuotesMsg(q) => marshal_quotes(q),
        Message::TradesMsg(t) => marshal_trades(t),
    }
}

/// Decoding accepts the bytes of every message that fits.
pub proof fn lemma_message_decodable(m: Message)
    requires
        message_fits(m),
        match m {
            Message::QuotesMsg(q) => forall|k: int|
                0 <= k < q.depths@.len() ==> (#[trigger] q.depths@[k]).price.wf()
                    && q.depths@[k].size.wf(),
            Message::TradesMsg(t) => forall|k: int|
                0 <= k < t.trades@.len() ==> (#[trigger] t.trades@[k]).price.wf()
                    && t.trades@[k].size.wf(),
        },
    ensures
        message_decodable(message_bytes(m)),
{
    lemma_fitting_message_bytes(m);
    match m {
        Message::QuotesMsg(q) => {
            lemma_quotes_decodable(zeros(quotes_length(q.depths@.len() as int)), q);
            crate::structs::quotes::lemma_quotes_ids(zeros(quotes_length(q.depths@.len() as int)), q);
        },
        Message::TradesMsg(t) => {
            lemma_trades_decodable(zeros(trades_length(t.trades@.len() as int)), t);
            crate::structs::trades::lemma_trades_ids(zeros(trades_length(t.trades@.len() as int)), t);
        },
    }
}

/// Decoding the bytes of a message gives it back: quotes as quotes and trades
/// as trades, with their fields, when the timestamp is known and not the value
/// that stands for none, an instrument that is a future has a known expiry that
/// is not that value either, and the mantissas fit in 64 bits.
pub proof fn lemma_message_roundtrip(m: Message, got: Message)
    requires
        message_fits(m),
        match m {
            Message::QuotesMsg(q) => {
                &&& forall|k: int|
                    0 <= k < q.depths@.len() ==> {
                        &&& (#[trigger] q.depths@[k]).price.wf()
                        &&& q.depths@[k].size.wf()
                        &&& dec_fits(q.depths@[k].price)
                        &&& dec_fits(q.depths@[k].size)
                    }
                &&& expiry_reads_back(zeros(quotes_length(q.depths@.len() as int)), 8, q.symbol)
                &&& timestamp_reads_back(
                    zeros(quotes_length(q.depths@.len() as int)),
                    34,
                    q.timestamp,
                )
            },
            Message::TradesMsg(t) => {
                &&& forall|k: int|
                    0 <= k < t.trades@.len() ==> {
                        &&& (#[trigger] t.trades@[k]).price.wf()
                        &&& t.trades@[k].size.wf()
                        &&& dec_fits(t.trades@[k].price)
                        &&& dec_fits(t.trades@[k].size)
                    }
                &&& expiry_reads_back(zeros(trades_length(t.trades@.len() as int)), 8, t.symbol)
            },
        },
        decodes_message(message_bytes(m), got),
    ensures
        match (m, got) {
            (Message::QuotesMsg(q), Message::QuotesMsg(g)) => {
                &&& g.symbol == q.symbol
                &&& g.market_timestamp == q.market_timestamp
                &&& g.timestamp == q.timestamp
                &&& g.is_snapshot == q.is_snapshot
                &&& g.is_l1 == q.is_l1
                &&& g.depths@ == q.depths@
            },
            (Message::TradesMsg(t), Message::TradesMsg(g)) => {
                &&& g.symbol == t.symbol
                &&& g.market_timestamp == t.market_timestamp
                &&& g.trades@ == t.trades@
            },
            _ => false,
        },
{
    lemma_fitting_message_bytes(m);
    match m {
        Message::QuotesMsg(q) => {
            let b = zeros(quotes_length(q.depths@.len() as int));
            crate::structs::quotes::lemma_quotes_ids(b, q);
            if let Message::QuotesMsg(g) = got {
                lemma_quotes_roundtrip(b, q, g);
            }
        },
        Message::TradesMsg(t) => {
            let b = zeros(trades_length(t.trades@.len() as int));
            crate::structs::trades::lemma_trades_ids(b, t);
            if let Message::TradesMsg(g) = got {
                lemma_trades_roundtrip(b, t, g);
            }
        },
    }
}

} // verus!
