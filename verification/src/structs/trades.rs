//! Trades of an instrument, and the trades message that carries them: a
//! message header, the instrument, the market timestamp, then the group of
//! trades, each a price, a size and a timestamp.
use crate::decimal::Decimal;
use crate::market_api::message_header_codec::{self, MessageHeaderDecoder};
use crate::market_api::trade_msg_codec::{
    TradeMsgDecoder, TradeMsgEncoder, TradesDecoder, TradesEncoder, SBE_BLOCK_LENGTH,
    SBE_SCHEMA_ID, SBE_SCHEMA_VERSION, SBE_TEMPLATE_ID,
};
use crate::market_api::{
    header_bytes, lemma_encodings_len, lemma_header_bytes_len, lemma_header_read_back, lemma_same_region, lemma_splice,
    lemma_splice_concat, lemma_splice_keeps, lemma_wrote_twice, splice, u16_at, u16_bytes, u64_at,
    u64_bytes, wrote, zeros, Decoder, Encoder, ReadBuf, Reader, WriteBuf, Writer,
};
use crate::structs::instrument::{
    decode_instrument, decodes_instrument, encode_instrument, expiry_reads_back,
    instrument_encoding, instrument_type_known, lemma_instrument_encoding_len,
    lemma_instrument_roundtrip, Instrument,
};
use crate::structs::price::{
    dec_bytes, dec_fits, dec_scale_ok, decode_dec, decodes_dec, encode_dec, lemma_dec_read_back,
    lemma_dec_scale_back,
};
use vstd::prelude::*;
use vstd::wrapping::usize_specs::wrapping_add;

verus! {

#[derive(Debug, Clone)]
pub struct Trades {
    pub symbol: Instrument,
    pub market_timestamp: u64,
    pub trades: Vec<Trade>,
}

/// A trade: the size is positive when the buyer took, negative when the seller did.
#[derive(Debug, Clone, Copy)]
pub struct Trade {
    pub price: Decimal,
    pub size: Decimal,
    pub timestamp: u64,
}

/// The bytes of one trade of the group: its price, its size, then its timestamp.
pub open spec fn trade_bytes(t: Trade) -> Seq<u8> {
    dec_bytes(t.price) + dec_bytes(t.size) + u64_bytes(t.timestamp)
}

/// The bytes of the trades of the group, one after the other.
pub open spec fn trades_bytes(ts: Seq<Trade>) -> Seq<u8>
    decreases ts.len(),
{
    if ts.len() == 0 {
        Seq::empty()
    } else {
        trades_bytes(ts.drop_last()) + trade_bytes(ts.last())
    }
}

/// The length of a trades message of `n` trades, with its header and the
/// group's header.
pub open spec fn trades_length(n: int) -> int {
    message_header_codec::ENCODED_LENGTH + SBE_BLOCK_LENGTH + 3 + TradesEncoder::<
        TradeMsgEncoder,
    >::spec_block_length() * n
}

/// `b` with the trades message of `ts` written over its start: the header, the
/// fields at their places, the group's block length and count, then the trades.
pub open spec fn trades_msg_bytes(b: Seq<u8>, ts: Trades) -> Seq<u8> {
    trades_msg_bytes_of(b, ts, ts.trades@)
}

/// `b` with a trades message written over its start: the fields of `ts` but
/// for its trades, and the trades `xs`.
pub open spec fn trades_msg_bytes_of(b: Seq<u8>, ts: Trades, xs: Seq<Trade>) -> Seq<u8> {
    let b1 = splice(
        b,
        0,
        header_bytes(SBE_BLOCK_LENGTH, SBE_TEMPLATE_ID, SBE_SCHEMA_ID, SBE_SCHEMA_VERSION),
    );
    let b2 = splice(b1, 8, instrument_encoding(ts.symbol));
    let b3 = splice(b2, 26, u64_bytes(ts.market_timestamp));
    let b4 = splice(
        b3,
        34,
        u16_bytes(TradesEncoder::<TradeMsgEncoder>::spec_block_length()) + seq![
            xs.len() as u8,
        ],
    );
    splice(b4, 37, trades_bytes(xs))
}

/// The trades that the bytes of a message of trades `xs` hold. The group
/// counts its trades in one byte, `xs.len()` modulo 256; past 255 trades, each
/// trade beyond the count is written over the last counted one, which so holds
/// the last trade.
pub open spec fn written_trades(xs: Seq<Trade>) -> Seq<Trade> {
    if xs.len() <= 255 {
        xs
    } else {
        xs.take(xs.len() % 256 - 1).push(xs.last())
    }
}

/// Whether a message of `n` trades can be written: past 255 trades a count of
/// zero leaves no trade to write the others over.
pub open spec fn trades_writable(n: int) -> bool {
    n <= 255 || n % 256 != 0
}

/// The bytes that `marshal_trades` gives for `ts`: zeroed bytes of the length
/// of all its trades, with the message of the trades that the count keeps.
pub open spec fn marshaled_trades(ts: Trades) -> Seq<u8> {
    trades_msg_bytes_of(zeros(trades_length(ts.trades@.len() as int)), ts, written_trades(ts.trades@))
}

/// Where the group of a trades message in `b` starts: after the header and the
/// block whose length the header gives.
pub open spec fn group_start(b: Seq<u8>) -> int {
    message_header_codec::ENCODED_LENGTH + u16_at(b, 0)
}

/// Where trade `k` of the group of a trades message in `b` starts, by the
/// group's block length.
pub open spec fn trade_at(b: Seq<u8>, k: int) -> int {
    group_start(b) + 3 + k * u16_at(b, group_start(b))
}

/// The number of trades that the group of a trades message in `b` holds.
pub open spec fn group_count(b: Seq<u8>) -> u8 {
    b[group_start(b) + 2]
}

/// Whether the trades message in `b` can be decoded: long enough for its
/// fields, its group and each trade, of this template, with a known instrument
/// type and scales that decimals can have.
pub open spec fn trades_decodable(b: Seq<u8>) -> bool {
    &&& b.len() >= message_header_codec::ENCODED_LENGTH + SBE_BLOCK_LENGTH
    &&& u16_at(b, 2) == SBE_TEMPLATE_ID
    &&& instrument_type_known(b, 8)
    &&& group_start(b) + 3 <= b.len()
    &&& forall|k: int|
        0 <= k < group_count(b) ==> {
            &&& #[trigger] trade_at(b, k) + 26 <= b.len()
            &&& dec_scale_ok(b, trade_at(b, k))
            &&& dec_scale_ok(b, trade_at(b, k) + 9)
        }
}

/// Whether `t` is what the trade at `off` in `b` holds.
pub open spec fn decodes_trade(b: Seq<u8>, off: int, t: Trade) -> bool {
    &&& decodes_dec(b, off, t.price)
    &&& decodes_dec(b, off + 9, t.size)
    &&& t.timestamp == u64_at(b, off + 18)
}

/// Whether `ts` is what the trades message in `b` holds.
pub open spec fn decodes_trades(b: Seq<u8>, ts: Trades) -> bool {
    &&& decodes_instrument(b, 8, ts.symbol)
    &&& ts.market_timestamp == u64_at(b, 26)
    &&& ts.trades@.len() == group_count(b)
    &&& forall|k: int|
        0 <= k < ts.trades@.len() ==> decodes_trade(b, #[trigger] trade_at(b, k), ts.trades@[k])
}

/// The bytes of `n` trades take 26 bytes each.
pub proof fn lemma_trades_bytes_len(ts: Seq<Trade>)
    ensures
        trades_bytes(ts).len() == 26 * ts.len(),
    decreases ts.len(),
{
    if ts.len() > 0 {
        lemma_trades_bytes_len(ts.drop_last());
        lemma_encodings_len(0, 0, ts.last().timestamp, ts.last().price.spec_mantissa() as i64);
        lemma_encodings_len(0, 0, 0, ts.last().size.spec_mantissa() as i64);
    }
}

/// The bytes of the first `i + 1` trades are those of the first `i`, then trade `i`.
proof fn lemma_trades_bytes_push(ts: Seq<Trade>, i: int)
    requires
        0 <= i < ts.len(),
    ensures
        trades_bytes(ts.take(i + 1)) == trades_bytes(ts.take(i)) + trade_bytes(ts[i]),
{
    assert(ts.take(i + 1).drop_last() =~= ts.take(i));
}

/// A write through the message codec, seen on its buffer.
proof fn lemma_msg_wrote(m0: TradeMsgEncoder, m1: TradeMsgEncoder, at: int, bytes: Seq<u8>)
    requires
        m0.has_wbuf(),
        0 <= at,
        at + bytes.len() <= m0.wbuf()@.len(),
        wrote(m0, m1, at, bytes),
    ensures
        m1.has_wbuf(),
        m1.spec_offset() == m0.spec_offset(),
        m1.limit() == m0.limit(),
        m1.wbuf()@ == splice(m0.wbuf()@, at, bytes),
        m1.wbuf()@.len() == m0.wbuf()@.len(),
{
    m0.lemma_frame(m1.wbuf(), 0);
    m0.lemma_with_limit(m0.limit(), m1.wbuf());
    lemma_splice(m0.wbuf()@, at, bytes);
}

/// Writes the next trade of the group, `t`, at the message's limit, and moves
/// the limit past it.
fn put_trade(trades_e: TradesEncoder<TradeMsgEncoder>, t: Trade) -> (e: TradesEncoder<
    TradeMsgEncoder,
>)
    requires
        trades_e.spec_parent() is Some,
        trades_e.spec_parent().unwrap().has_wbuf(),
        trades_e.spec_parent().unwrap().limit() + 26 <= trades_e.spec_parent().unwrap().wbuf()@.len(),
        wrapping_add(trades_e.spec_index(), 1) < trades_e.spec_count(),
    ensures
        e.spec_parent() is Some,
        e.spec_count() == trades_e.spec_count(),
        e.spec_index() == wrapping_add(trades_e.spec_index(), 1),
        ({
            let p0 = trades_e.spec_parent().unwrap();
            let p = e.spec_parent().unwrap();
            &&& p.has_wbuf()
            &&& p.spec_offset() == p0.spec_offset()
            &&& p.limit() == p0.limit() + 26
            &&& p.wbuf()@ == splice(p0.wbuf()@, p0.limit() as int, trade_bytes(t))
        }),
{
    let mut trades_e = trades_e;
    let ghost g0 = trades_e;
    let ghost p0 = g0.spec_parent().unwrap();
    let ghost lim = p0.limit();
    proof {
        g0.lemma_parent();
        p0.lemma_with_wbuf(p0.wbuf(), p0.wbuf());
    }
    trades_e.advance().unwrap();
    let ghost g1 = trades_e;
    let ghost p1 = p0.with_limit((lim + 26) as usize);
    proof {
        p0.lemma_with_limit((lim + 26) as usize, p0.wbuf());
        p0.lemma_frame(p0.wbuf(), (lim + 26) as usize);
        g1.lemma_parent();
        lemma_encodings_len(0, 0, t.timestamp, t.price.spec_mantissa() as i64);
        lemma_encodings_len(0, 0, 0, t.size.spec_mantissa() as i64);
    }

    let mut price_e = trades_e.price_encoder();
    let ghost e0 = price_e;
    proof {
        e0.lemma_parent();
    }
    encode_dec(&mut price_e, t.price);
    proof {
        e0.lemma_parent_wrote(price_e, lim as int, dec_bytes(t.price));
        g1.lemma_parent_wrote(price_e.spec_parent().unwrap(), lim as int, dec_bytes(t.price));
    }
    trades_e = price_e.parent().unwrap();
    let ghost g2 = trades_e;
    let ghost p2 = g2.spec_parent().unwrap();
    proof {
        g2.lemma_parent();
    }

    let mut size_e = trades_e.size_encoder();
    let ghost f0 = size_e;
    proof {
        f0.lemma_parent();
        lemma_splice(p1.wbuf()@, lim as int, dec_bytes(t.price));
    }
    encode_dec(&mut size_e, t.size);
    proof {
        f0.lemma_parent_wrote(size_e, lim + 9, dec_bytes(t.size));
        g2.lemma_parent_wrote(size_e.spec_parent().unwrap(), lim + 9, dec_bytes(t.size));
    }
    trades_e = size_e.parent().unwrap();
    let ghost g3 = trades_e;
    let ghost p3 = g3.spec_parent().unwrap();
    proof {
        g3.lemma_parent();
        lemma_wrote_twice(p1, p2, p3, lim as int, dec_bytes(t.price), dec_bytes(t.size));
        lemma_splice(p1.wbuf()@, lim as int, dec_bytes(t.price) + dec_bytes(t.size));
    }

    trades_e.timestamp(t.timestamp);
    proof {
        g3.lemma_parent_wrote(trades_e, lim + 18, u64_bytes(t.timestamp));
        let p4 = trades_e.spec_parent().unwrap();
        lemma_wrote_twice(
            p1,
            p3,
            p4,
            lim as int,
            dec_bytes(t.price) + dec_bytes(t.size),
            u64_bytes(t.timestamp),
        );
        lemma_msg_wrote(p1, p4, lim as int, trade_bytes(t));
    }
    trades_e
}

/// Writes the trades message of `ts` at the start of `buffer`. The group counts
/// its trades in one byte.
pub fn encode_trades(buffer: &mut Vec<u8>, ts: Trades)
    requires
        ts.trades.len() <= 255,
        old(buffer).len() >= trades_length(ts.trades.len() as int),
    ensures
        final(buffer)@ == trades_msg_bytes(old(buffer)@, ts),
{
    let Trades { symbol, market_timestamp, trades } = ts;
    let mut data: Vec<u8> = Vec::new();
    std::mem::swap(buffer, &mut data);
    let ghost b0 = data@;

    let mut trades_msg = TradeMsgEncoder::default();
    trades_msg = trades_msg.wrap(WriteBuf::new(data), message_header_codec::ENCODED_LENGTH);
    let ghost m0 = trades_msg;
    let mut header = trades_msg.header(0);
    trades_msg = header.parent().unwrap();
    proof {
        lemma_header_bytes_len(SBE_BLOCK_LENGTH, SBE_TEMPLATE_ID, SBE_SCHEMA_ID, SBE_SCHEMA_VERSION);
        lemma_msg_wrote(
            m0,
            trades_msg,
            0,
            header_bytes(SBE_BLOCK_LENGTH, SBE_TEMPLATE_ID, SBE_SCHEMA_ID, SBE_SCHEMA_VERSION),
        );
    }

    let ghost m1 = trades_msg;
    let mut symbol_e = trades_msg.instrument_encoder();
    let ghost s0 = symbol_e;
    proof {
        s0.lemma_parent();
        lemma_instrument_encoding_len(symbol);
    }
    encode_instrument(symbol, &mut symbol_e);
    proof {
        s0.lemma_parent_wrote(symbol_e, 8, instrument_encoding(symbol));
    }
    trades_msg = symbol_e.parent().unwrap();
    proof {
        lemma_msg_wrote(m1, trades_msg, 8, instrument_encoding(symbol));
    }

    let ghost m2 = trades_msg;
    trades_msg.market_timestamp(market_timestamp);
    proof {
        lemma_encodings_len(0, 0, market_timestamp, 0);
        lemma_msg_wrote(m2, trades_msg, 26, u64_bytes(market_timestamp));
    }

    let ghost m3 = trades_msg;
    let ghost group_head = u16_bytes(TradesEncoder::<TradeMsgEncoder>::spec_block_length()) + seq![
        trades.len() as u8,
    ];
    let mut trades_e = TradesEncoder::default();
    trades_e = trades_msg.trades_encoder(trades.len() as u8, trades_e);
    let ghost b4 = trades_e.spec_parent().unwrap().wbuf()@;
    proof {
        let m4 = m3.with_limit(37);
        m3.lemma_with_limit(37, m3.wbuf());
        m3.lemma_frame(m3.wbuf(), 37);
        lemma_encodings_len(TradesEncoder::<TradeMsgEncoder>::spec_block_length(), 0, 0, 0);
        lemma_msg_wrote(m4, trades_e.spec_parent().unwrap(), 34, group_head);
        assert(splice(b4, 37, trades_bytes(trades@.take(0))) =~= b4);
    }

    let ghost n = trades.len();
    let mut i: usize = 0;
    while i < trades.len()
        invariant
            n == trades.len(),
            n <= 255,
            0 <= i <= n,
            b0.len() >= trades_length(n as int),
            b4.len() == b0.len(),
            trades_e.spec_parent() is Some,
            trades_e.spec_count() == n as u8,
            trades_e.spec_index() == (if i == 0 {
                usize::MAX
            } else {
                (i - 1) as usize
            }),
            trades_e.spec_parent().unwrap().has_wbuf(),
            trades_e.spec_parent().unwrap().spec_offset() == message_header_codec::ENCODED_LENGTH,
            trades_e.spec_parent().unwrap().limit() == 37 + 26 * i,
            trades_e.spec_parent().unwrap().wbuf()@ == splice(
                b4,
                37,
                trades_bytes(trades@.take(i as int)),
            ),
        decreases n - i,
    {
        proof {
            lemma_trades_bytes_len(trades@.take(i as int));
            lemma_splice(b4, 37, trades_bytes(trades@.take(i as int)));
        }
        trades_e = put_trade(trades_e, trades[i]);
        proof {
            let t = trades@[i as int];
            lemma_encodings_len(0, 0, t.timestamp, t.price.spec_mantissa() as i64);
            lemma_encodings_len(0, 0, 0, t.size.spec_mantissa() as i64);
            lemma_splice_concat(b4, 37, trades_bytes(trades@.take(i as int)), trade_bytes(t));
            lemma_trades_bytes_push(trades@, i as int);
        }
        i += 1;
    }
    let trades_msg = trades_e.parent().unwrap();
    proof {
        assert(trades@.take(n as int) =~= trades@);
    }
    let mut data = trades_msg.into_buf().into_inner();
    std::mem::swap(buffer, &mut data);
}

/// Reads the trade of the group that the decoder has moved to.
fn read_trade<'a>(trades_d: TradesDecoder<TradeMsgDecoder<'a>>) -> (r: (
    TradesDecoder<TradeMsgDecoder<'a>>,
    Trade,
))
    requires
        trades_d.spec_parent() is Some,
        trades_d.spec_parent().unwrap().has_rbuf(),
        trades_d.spec_offset() + 26 <= trades_d.spec_parent().unwrap().rbuf().len(),
        dec_scale_ok(trades_d.spec_parent().unwrap().rbuf(), trades_d.spec_offset() as int),
        dec_scale_ok(trades_d.spec_parent().unwrap().rbuf(), trades_d.spec_offset() + 9),
    ensures
        r.0 == trades_d,
        decodes_trade(trades_d.spec_parent().unwrap().rbuf(), trades_d.spec_offset() as int, r.1),
{
    let mut trades_d = trades_d;
    proof {
        trades_d.lemma_reader();
        trades_d.spec_parent().unwrap().lemma_rbuf_len();
    }
    let mut trade_price_d = trades_d.price_decoder();
    proof {
        trade_price_d.lemma_reader();
    }
    let price = decode_dec(&trade_price_d);
    trades_d = trade_price_d.parent().unwrap();
    let mut trade_size_d = trades_d.size_decoder();
    proof {
        trade_size_d.lemma_reader();
    }
    let size = decode_dec(&trade_size_d);
    trades_d = trade_size_d.parent().unwrap();
    let timestamp = trades_d.timestamp();
    (trades_d, Trade { price, size, timestamp })
}

/// Reads the trades message at the start of `v`.
pub fn decode_trades(v: &[u8]) -> (ts: Trades)
    requires
        trades_decodable(v@),
    ensures
        decodes_trades(v@, ts),
{
    let mut trades_msg_d = TradeMsgDecoder::default();
    let buf = ReadBuf::new(v);
    proof {
        buf.lemma_reader();
    }
    let header = MessageHeaderDecoder::default().wrap(buf, 0);
    trades_msg_d = trades_msg_d.header(header);

    let mut symbol_d = trades_msg_d.instrument_decoder();
    proof {
        symbol_d.lemma_reader();
    }
    let symbol = decode_instrument(&mut symbol_d);
    trades_msg_d = symbol_d.parent().unwrap();

    let market_timestamp = trades_msg_d.market_timestamp();

    let ghost l0 = group_start(v@);
    let ghost bl = u16_at(v@, l0);
    let ghost c = group_count(v@);
    proof {
        trades_msg_d.lemma_with_limit((l0 + 3) as usize);
    }
    let mut trades: Vec<Trade> = Vec::new();
    let mut trades_d = trades_msg_d.trades_decoder();
    loop
        invariant
            trades_decodable(v@),
            l0 == group_start(v@),
            bl == u16_at(v@, l0),
            c == group_count(v@),
            trades@.len() <= c,
            trades_d.spec_parent() is Some,
            trades_d.spec_parent().unwrap().has_rbuf(),
            trades_d.spec_parent().unwrap().rbuf() == v@,
            trades_d.spec_parent().unwrap().limit() == l0 + 3 + trades@.len() * bl,
            trades_d.spec_block_length() == bl,
            trades_d.spec_count() == c,
            trades_d.spec_index() == (if trades@.len() == 0 {
                usize::MAX
            } else {
                (trades@.len() - 1) as usize
            }),
            forall|j: int|
                0 <= j < trades@.len() ==> decodes_trade(v@, #[trigger] trade_at(v@, j), trades@[j]),
        ensures
            trades@.len() == c,
            forall|j: int|
                0 <= j < trades@.len() ==> decodes_trade(v@, #[trigger] trade_at(v@, j), trades@[j]),
        decreases c - trades@.len(),
    {
        let ghost k = trades@.len();
        let ghost p = trades_d.spec_parent().unwrap();
        proof {
            trades_d.lemma_reader();
            assert(l0 + 3 + k * bl + bl <= usize::MAX) by (nonlinear_arith)
                requires
                    l0 <= 8 + 0xffff,
                    bl <= 0xffff,
                    k <= 255,
            ;
        }
        match trades_d.advance() {
            Ok(Some(_)) => {},
            _ => {
                break;
            },
        }
        proof {
            p.lemma_with_limit((p.limit() + bl) as usize);
            assert(trade_at(v@, k as int) + 26 <= v@.len());
            assert(l0 + 3 + k * bl + bl == l0 + 3 + (k + 1) * bl) by (nonlinear_arith);
        }
        let (d, trade) = read_trade(trades_d);
        trades_d = d;
        trades.push(trade);
    }
    Trades { symbol, market_timestamp, trades }
}

/// Trade `k` takes bytes `26 * k` to `26 * k + 26` of the bytes of the trades.
proof fn lemma_trades_bytes_at(ts: Seq<Trade>, k: int)
    requires
        0 <= k < ts.len(),
    ensures
        trades_bytes(ts).subrange(26 * k, 26 * k + 26) == trade_bytes(ts[k]),
    decreases ts.len(),
{
    let last = ts.last();
    lemma_trades_bytes_len(ts.drop_last());
    lemma_encodings_len(0, 0, last.timestamp, last.price.spec_mantissa() as i64);
    lemma_encodings_len(0, 0, 0, last.size.spec_mantissa() as i64);
    if k < ts.len() - 1 {
        lemma_trades_bytes_at(ts.drop_last(), k);
        assert(trades_bytes(ts).subrange(26 * k, 26 * k + 26) =~= trades_bytes(
            ts.drop_last(),
        ).subrange(26 * k, 26 * k + 26));
    } else {
        assert(trades_bytes(ts).subrange(26 * k, 26 * k + 26) =~= trade_bytes(last));
    }
}

/// The price, size and timestamp of trade `k` in a message whose trades start at 37.
proof fn lemma_trade_at(t: Seq<u8>, ts: Seq<Trade>, k: int)
    requires
        0 <= k < ts.len(),
        37 + 26 * ts.len() <= t.len(),
        t.subrange(37, 37 + 26 * ts.len() as int) == trades_bytes(ts),
    ensures
        t.subrange(37 + 26 * k, 37 + 26 * k + 9) == dec_bytes(ts[k].price),
        t.subrange(37 + 26 * k + 9, 37 + 26 * k + 18) == dec_bytes(ts[k].size),
        t.subrange(37 + 26 * k + 18, 37 + 26 * k + 26) == u64_bytes(ts[k].timestamp),
{
    lemma_trades_bytes_at(ts, k);
    lemma_trades_bytes_len(ts);
    lemma_encodings_len(0, 0, ts[k].timestamp, ts[k].price.spec_mantissa() as i64);
    lemma_encodings_len(0, 0, 0, ts[k].size.spec_mantissa() as i64);
    let all = trades_bytes(ts);
    let one = trade_bytes(ts[k]);
    assert forall|j: int| 0 <= j < 26 implies #[trigger] t[37 + 26 * k + j] == one[j] by {
        assert(t[37 + 26 * k + j] == t.subrange(37, 37 + 26 * ts.len() as int)[26 * k + j]);
        assert(all[26 * k + j] == all.subrange(26 * k, 26 * k + 26)[j]);
    }
    assert(t.subrange(37 + 26 * k, 37 + 26 * k + 9) =~= dec_bytes(ts[k].price)) by {
        assert forall|j: int| 0 <= j < 9 implies t.subrange(37 + 26 * k, 37 + 26 * k + 9)[j]
            == dec_bytes(ts[k].price)[j] by {
            assert(t[37 + 26 * k + j] == one[j]);
        }
    }
    assert(t.subrange(37 + 26 * k + 9, 37 + 26 * k + 18) =~= dec_bytes(ts[k].size)) by {
        assert forall|j: int| 0 <= j < 9 implies t.subrange(37 + 26 * k + 9, 37 + 26 * k + 18)[j]
            == dec_bytes(ts[k].size)[j] by {
            assert(t[37 + 26 * k + (j + 9)] == one[j + 9]);
        }
    }
    assert(t.subrange(37 + 26 * k + 18, 37 + 26 * k + 26) =~= u64_bytes(ts[k].timestamp)) by {
        assert forall|j: int| 0 <= j < 8 implies t.subrange(37 + 26 * k + 18, 37 + 26 * k + 26)[j]
            == u64_bytes(ts[k].timestamp)[j] by {
            assert(t[37 + 26 * k + (j + 18)] == one[j + 18]);
        }
    }
}

/// Where each field lies in the trades message that encoding writes.
proof fn lemma_trades_layout(b: Seq<u8>, ts: Trades)
    requires
        ts.trades@.len() <= 255,
        b.len() >= trades_length(ts.trades@.len() as int),
    ensures
        ({
            let t = trades_msg_bytes(b, ts);
            &&& t.len() == b.len()
            &&& t.subrange(0, 8) == header_bytes(
                SBE_BLOCK_LENGTH,
                SBE_TEMPLATE_ID,
                SBE_SCHEMA_ID,
                SBE_SCHEMA_VERSION,
            )
            &&& t.subrange(8, 26) == splice(b, 8, instrument_encoding(ts.symbol)).subrange(8, 26)
            &&& t.subrange(26, 34) == u64_bytes(ts.market_timestamp)
            &&& t.subrange(34, 37) == u16_bytes(
                TradesEncoder::<TradeMsgEncoder>::spec_block_length(),
            ) + seq![ts.trades@.len() as u8]
            &&& t.subrange(37, 37 + 26 * ts.trades@.len() as int) == trades_bytes(ts.trades@)
        }),
{
    let h = header_bytes(SBE_BLOCK_LENGTH, SBE_TEMPLATE_ID, SBE_SCHEMA_ID, SBE_SCHEMA_VERSION);
    let enc = instrument_encoding(ts.symbol);
    let mt = u64_bytes(ts.market_timestamp);
    let gh = u16_bytes(TradesEncoder::<TradeMsgEncoder>::spec_block_length()) + seq![
        ts.trades@.len() as u8,
    ];
    let tb = trades_bytes(ts.trades@);
    lemma_header_bytes_len(SBE_BLOCK_LENGTH, SBE_TEMPLATE_ID, SBE_SCHEMA_ID, SBE_SCHEMA_VERSION);
    lemma_instrument_encoding_len(ts.symbol);
    lemma_encodings_len(
        TradesEncoder::<TradeMsgEncoder>::spec_block_length(),
        0,
        ts.market_timestamp,
        0,
    );
    lemma_trades_bytes_len(ts.trades@);
    let b1 = splice(b, 0, h);
    let b2 = splice(b1, 8, enc);
    let b3 = splice(b2, 26, mt);
    let b4 = splice(b3, 34, gh);
    let t = splice(b4, 37, tb);
    assert(t == trades_msg_bytes(b, ts));

    lemma_splice(b, 0, h);
    lemma_splice_keeps(b1, 8, enc, 0, 8);
    lemma_splice_keeps(b2, 26, mt, 0, 8);
    lemma_splice_keeps(b2, 26, mt, 8, 18);
    lemma_splice_keeps(b3, 34, gh, 0, 8);
    lemma_splice_keeps(b3, 34, gh, 8, 18);
    lemma_splice_keeps(b3, 34, gh, 26, 8);
    lemma_splice_keeps(b4, 37, tb, 0, 8);
    lemma_splice_keeps(b4, 37, tb, 8, 18);
    lemma_splice_keeps(b4, 37, tb, 26, 8);
    lemma_splice_keeps(b4, 37, tb, 34, 3);
    lemma_splice(b4, 37, tb);
    lemma_splice(b3, 34, gh);
    lemma_splice(b2, 26, mt);
    lemma_splice(b1, 8, enc);
    lemma_splice(b, 8, enc);
    assert(b2.subrange(8, 26) =~= splice(b, 8, enc).subrange(8, 26));
}

/// The group of the trades message that encoding writes starts at 34, holds
/// trades of 26 bytes, and counts them.
proof fn lemma_trades_group(b: Seq<u8>, ts: Trades)
    requires
        ts.trades@.len() <= 255,
        b.len() >= trades_length(ts.trades@.len() as int),
    ensures
        group_start(trades_msg_bytes(b, ts)) == 34,
        u16_at(trades_msg_bytes(b, ts), 34) == 26,
        group_count(trades_msg_bytes(b, ts)) == ts.trades@.len(),
        forall|k: int| #[trigger] trade_at(trades_msg_bytes(b, ts), k) == 37 + 26 * k,
        u16_at(trades_msg_bytes(b, ts), 2) == SBE_TEMPLATE_ID,
        u16_at(trades_msg_bytes(b, ts), 4) == SBE_SCHEMA_ID,
        u16_at(trades_msg_bytes(b, ts), 6) == SBE_SCHEMA_VERSION,
{
    let t = trades_msg_bytes(b, ts);
    lemma_trades_layout(b, ts);
    lemma_encodings_len(TradesEncoder::<TradeMsgEncoder>::spec_block_length(), 0, 0, 0);
    vstd::bytes::lemma_auto_spec_u16_to_from_le_bytes();
    lemma_header_read_back(t, SBE_BLOCK_LENGTH, SBE_TEMPLATE_ID, SBE_SCHEMA_ID, SBE_SCHEMA_VERSION);
    assert(t.subrange(34, 36) =~= u16_bytes(TradesEncoder::<TradeMsgEncoder>::spec_block_length()))
        by {
        assert forall|j: int| 0 <= j < 2 implies t.subrange(34, 36)[j] == u16_bytes(
            TradesEncoder::<TradeMsgEncoder>::spec_block_length(),
        )[j] by {
            assert(t.subrange(34, 36)[j] == t.subrange(34, 37)[j]);
        }
    }
    assert(t[36] == t.subrange(34, 37)[2]);
    assert forall|k: int| #[trigger] trade_at(t, k) == 37 + 26 * k by {
        assert(group_start(t) == 34);
        assert(u16_at(t, group_start(t)) == 26);
    }
}

/// Decoding accepts every trades message that encoding writes, whatever the
/// buffer held before.
pub proof fn lemma_trades_decodable(b: Seq<u8>, ts: Trades)
    requires
        ts.trades@.len() <= 255,
        b.len() >= trades_length(ts.trades@.len() as int),
        forall|k: int|
            0 <= k < ts.trades@.len() ==> (#[trigger] ts.trades@[k]).price.wf()
                && ts.trades@[k].size.wf(),
    ensures
        trades_decodable(trades_msg_bytes(b, ts)),
{
    let t = trades_msg_bytes(b, ts);
    let xs = ts.trades@;
    lemma_trades_layout(b, ts);
    lemma_trades_group(b, ts);
    crate::structs::instrument::lemma_instrument_encoding_decodable(b, 8, ts.symbol);
    lemma_same_region(t, splice(b, 8, instrument_encoding(ts.symbol)), 8, 26);
    assert forall|k: int| 0 <= k < group_count(t) implies {
        &&& #[trigger] trade_at(t, k) + 26 <= t.len()
        &&& dec_scale_ok(t, trade_at(t, k))
        &&& dec_scale_ok(t, trade_at(t, k) + 9)
    } by {
        lemma_trade_at(t, xs, k);
        lemma_dec_scale_back(t, 37 + 26 * k, xs[k].price);
        lemma_dec_scale_back(t, 37 + 26 * k + 9, xs[k].size);
    }
}

/// Decoding the trades message that encoding wrote gives the trades back, when
/// its instrument's expiry reads back and its mantissas fit in 64 bits.
pub proof fn lemma_trades_roundtrip(b: Seq<u8>, ts: Trades, got: Trades)
    requires
        ts.trades@.len() <= 255,
        b.len() >= trades_length(ts.trades@.len() as int),
        forall|k: int|
            0 <= k < ts.trades@.len() ==> {
                &&& (#[trigger] ts.trades@[k]).price.wf()
                &&& ts.trades@[k].size.wf()
                &&& dec_fits(ts.trades@[k].price)
                &&& dec_fits(ts.trades@[k].size)
            },
        expiry_reads_back(b, 8, ts.symbol),
        decodes_trades(trades_msg_bytes(b, ts), got),
    ensures
        got.symbol == ts.symbol,
        got.market_timestamp == ts.market_timestamp,
        got.trades@ == ts.trades@,
{
    let t = trades_msg_bytes(b, ts);
    let xs = ts.trades@;
    lemma_trades_layout(b, ts);
    lemma_trades_group(b, ts);
    lemma_same_region(t, splice(b, 8, instrument_encoding(ts.symbol)), 8, 26);
    lemma_instrument_roundtrip(b, 8, ts.symbol, got.symbol);
    vstd::bytes::lemma_auto_spec_u64_to_from_le_bytes();
    assert forall|k: int| 0 <= k < xs.len() implies got.trades@[k] == xs[k] by {
        assert(trade_at(t, k) == 37 + 26 * k);
        lemma_trade_at(t, xs, k);
        lemma_dec_read_back(t, 37 + 26 * k, xs[k].price, got.trades@[k].price);
        lemma_dec_read_back(t, 37 + 26 * k + 9, xs[k].size, got.trades@[k].size);
    }
    assert(got.trades@ =~= xs);
}

/// The trades message of `ts`, in zeroed bytes of the length of all its
/// trades. The group counts its trades in one byte: past 255 trades, only as
/// many as the count says are kept, the last of them being the last trade.
pub fn marshal_trades(ts: Trades) -> (v: Vec<u8>)
    requires
        trades_writable(ts.trades@.len() as int),
        trades_length(ts.trades@.len() as int) <= usize::MAX,
    ensures
        v@ == marshaled_trades(ts),
{
    let all = ts.trades.len();
    let n = message_header_codec::ENCODED_LENGTH + SBE_BLOCK_LENGTH as usize
        + TradesEncoder::<TradeMsgEncoder>::block_length() as usize * all + 3;
    let mut buffer = vec![0u8; n];
    proof {
        assert(buffer@ =~= zeros(n as int));
    }
    let Trades { symbol, market_timestamp, trades } = ts;
    let kept = if all <= 255 {
        trades
    } else {
        let c = all % 256;
        let mut kept: Vec<Trade> = Vec::new();
        let mut k: usize = 0;
        while k + 1 < c
            invariant
                c == all % 256,
                1 <= c <= 255,
                all == trades@.len(),
                k < c,
                kept@ == trades@.take(k as int),
            decreases c - k,
        {
            kept.push(trades[k]);
            k += 1;
            proof {
                assert(kept@ =~= trades@.take(k as int));
            }
        }
        kept.push(trades[all - 1]);
        kept
    };
    proof {
        assert(kept@ =~= written_trades(trades@));
    }
    let written = Trades { symbol, market_timestamp, trades: kept };
    encode_trades(&mut buffer, written);
    buffer
}

/// Whether the trades message in `v` can be decoded.
pub fn is_decodable_trades(v: &[u8]) -> (ok: bool)
    ensures
        ok == trades_decodable(v@),
{
    let buf = ReadBuf::new(v);
    if v.len() < message_header_codec::ENCODED_LENGTH + SBE_BLOCK_LENGTH as usize {
        return false;
    }
    if buf.get_u16_at(2) != SBE_TEMPLATE_ID {
        return false;
    }
    let instrument_type = v[21];
    if instrument_type != 0 && instrument_type != 1 {
        return false;
    }
    let start = message_header_codec::ENCODED_LENGTH + buf.get_u16_at(0) as usize;
    if start + 3 > v.len() {
        return false;
    }
    let block_length = buf.get_u16_at(start) as usize;
    let count = v[start + 2];
    let ghost b = v@;
    assert(start == group_start(b));
    let mut k: usize = 0;
    while k < count as usize
        invariant
            b == v@,
            buf@ == b,
            start == group_start(b),
            block_length == u16_at(b, start as int),
            count == group_count(b),
            k <= count,
            start <= 8 + 0xffff,
            block_length <= 0xffff,
            forall|j: int|
                0 <= j < k ==> {
                    &&& #[trigger] trade_at(b, j) + 26 <= b.len()
                    &&& dec_scale_ok(b, trade_at(b, j))
                    &&& dec_scale_ok(b, trade_at(b, j) + 9)
                },
        decreases count - k,
    {
        assert(start + 3 + k * block_length + 26 <= usize::MAX) by (nonlinear_arith)
            requires
                start <= 8 + 0xffff,
                block_length <= 0xffff,
                k < 256,
        ;
        let off = start + 3 + k * block_length;
        assert(off == trade_at(b, k as int));
        if off + 26 > v.len() {
            return false;
        }
        let price_scale = buf.get_i8_at(off + 8);
        let size_scale = buf.get_i8_at(off + 17);
        if price_scale < 0 || price_scale > 28 || size_scale < 0 || size_scale > 28 {
            return false;
        }
        k += 1;
    }
    true
}

/// The header of the trades message that encoding writes: its template, schema
/// and version.
pub proof fn lemma_trades_ids(b: Seq<u8>, ts: Trades)
    requires
        ts.trades@.len() <= 255,
        b.len() >= trades_length(ts.trades@.len() as int),
    ensures
        trades_msg_bytes(b, ts).len() == b.len(),
        u16_at(trades_msg_bytes(b, ts), 2) == SBE_TEMPLATE_ID,
        u16_at(trades_msg_bytes(b, ts), 4) == SBE_SCHEMA_ID,
        u16_at(trades_msg_bytes(b, ts), 6) == SBE_SCHEMA_VERSION,
{
    lemma_trades_layout(b, ts);
    lemma_trades_group(b, ts);
}

} // verus!
