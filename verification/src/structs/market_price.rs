//! The best bid and offer of an instrument, and the best-bid-and-offer message
//! that carries it: a message header, then the instrument, the market timestamp,
//! the timestamp, and the bid and ask prices and sizes.
use crate::decimal::Decimal;
use crate::market_api::bbo_msg_codec::{
    timestamp_reads_back, timestamp_value, BboMsgDecoder, BboMsgEncoder, SBE_BLOCK_LENGTH, SBE_SCHEMA_ID,
    SBE_SCHEMA_VERSION, SBE_TEMPLATE_ID,
};
use crate::market_api::message_header_codec::{self, MessageHeaderDecoder};
use crate::market_api::{
    header_bytes, lemma_encodings_len, lemma_header_bytes_len, lemma_same_region, lemma_splice,
    lemma_splice_keeps, splice, u16_at, u16_bytes, u64_at, u64_bytes, wrote, zeros, ReadBuf,
    WriteBuf,
    Writer,
};
use crate::structs::instrument::{
    decode_instrument, decodes_instrument, encode_instrument, expiry_reads_back,
    instrument_encoding, instrument_type_known, lemma_instrument_encoding_len,
    lemma_instrument_roundtrip, Instrument,
};
use crate::structs::price::{
    dec_bytes, dec_fits, dec_scale_ok, decode_dec, decodes_dec, encode_dec, lemma_dec_read_back,
    lemma_dec_scale_back,
};
use vstd::prelude::*;

verus! {

#[derive(Debug, Clone, Copy)]
pub struct MarketPrice {
    pub symbol: Instrument,
    pub market_timestamp: u64,
    /// Nanoseconds.
    pub timestamp: Option<u64>,
    pub bid_price: Decimal,
    pub bid_size: Decimal,
    pub ask_price: Decimal,
    pub ask_size: Decimal,
}

/// The length of a best-bid-and-offer message with its header.
pub const MARKET_PRICE_LENGTH: usize = 78;

/// `b` with the message of `mp` written over its start: the header, then the
/// fields at their places. A timestamp of none is not written.
pub open spec fn market_price_bytes(b: Seq<u8>, mp: MarketPrice) -> Seq<u8> {
    let b1 = splice(
        b,
        0,
        header_bytes(SBE_BLOCK_LENGTH, SBE_TEMPLATE_ID, SBE_SCHEMA_ID, SBE_SCHEMA_VERSION),
    );
    let b2 = splice(b1, 8, instrument_encoding(mp.symbol));
    let b3 = splice(b2, 26, u64_bytes(mp.market_timestamp));
    let b4 = match mp.timestamp {
        Some(t) => splice(b3, 34, u64_bytes(t)),
        None => b3,
    };
    let b5 = splice(b4, 42, dec_bytes(mp.bid_price));
    let b6 = splice(b5, 51, dec_bytes(mp.bid_size));
    let b7 = splice(b6, 60, dec_bytes(mp.ask_price));
    splice(b7, 69, dec_bytes(mp.ask_size))
}

/// Whether the message in `b` can be decoded: long enough, of this template,
/// with a known instrument type and scales that decimals can have.
pub open spec fn market_price_decodable(b: Seq<u8>) -> bool {
    &&& b.len() >= MARKET_PRICE_LENGTH
    &&& u16_at(b, 2) == SBE_TEMPLATE_ID
    &&& instrument_type_known(b, 8)
    &&& dec_scale_ok(b, 42)
    &&& dec_scale_ok(b, 51)
    &&& dec_scale_ok(b, 60)
    &&& dec_scale_ok(b, 69)
}

/// Whether `mp` is what the message in `b` holds.
pub open spec fn decodes_market_price(b: Seq<u8>, mp: MarketPrice) -> bool {
    &&& decodes_instrument(b, 8, mp.symbol)
    &&& mp.market_timestamp == u64_at(b, 26)
    &&& mp.timestamp == timestamp_value(u64_at(b, 34))
    &&& decodes_dec(b, 42, mp.bid_price)
    &&& decodes_dec(b, 51, mp.bid_size)
    &&& decodes_dec(b, 60, mp.ask_price)
    &&& decodes_dec(b, 69, mp.ask_size)
}

/// A write through the message codec, seen on its buffer.
proof fn lemma_msg_wrote(m0: BboMsgEncoder, m1: BboMsgEncoder, at: int, bytes: Seq<u8>)
    requires
        m0.has_wbuf(),
        0 <= at,
        at + bytes.len() <= m0.wbuf()@.len(),
        wrote(m0, m1, at, bytes),
    ensures
        m1.has_wbuf(),
        m1.spec_offset() == m0.spec_offset(),
        m1.wbuf()@ == splice(m0.wbuf()@, at, bytes),
        m1.wbuf()@.len() == m0.wbuf()@.len(),
{
    m0.lemma_frame(m1.wbuf(), 0);
    lemma_splice(m0.wbuf()@, at, bytes);
}

/// Writes `d` through the decimal composite at `at` of the message, one of
/// the bid price, bid size, ask price and ask size.
fn put_dec(bbo_msg: BboMsgEncoder, at: usize, d: Decimal) -> (m: BboMsgEncoder)
    requires
        bbo_msg.has_wbuf(),
        bbo_msg.spec_offset() == message_header_codec::ENCODED_LENGTH,
        at == 42 || at == 51 || at == 60 || at == 69,
        MARKET_PRICE_LENGTH <= bbo_msg.wbuf()@.len(),
    ensures
        m.has_wbuf(),
        m.spec_offset() == bbo_msg.spec_offset(),
        m.wbuf()@ == splice(bbo_msg.wbuf()@, at as int, dec_bytes(d)),
        m.wbuf()@.len() == bbo_msg.wbuf()@.len(),
{
    let ghost m0 = bbo_msg;
    let mut e = if at == 42 {
        bbo_msg.bid_price_encoder()
    } else if at == 51 {
        bbo_msg.bid_size_encoder()
    } else if at == 60 {
        bbo_msg.ask_price_encoder()
    } else {
        bbo_msg.ask_size_encoder()
    };
    let ghost e0 = e;
    proof {
        e0.lemma_parent();
    }
    encode_dec(&mut e, d);
    proof {
        lemma_encodings_len(0, 0, 0, d.spec_mantissa() as i64);
        e0.lemma_parent_wrote(e, at as int, dec_bytes(d));
    }
    let m = e.parent().unwrap();
    proof {
        lemma_msg_wrote(m0, m, at as int, dec_bytes(d));
    }
    m
}

/// Writes the best-bid-and-offer message of `mp` at the start of `buffer`.
pub fn encode_market_price(buffer: &mut Vec<u8>, mp: MarketPrice)
    requires
        old(buffer).len() >= MARKET_PRICE_LENGTH,
    ensures
        final(buffer)@ == market_price_bytes(old(buffer)@, mp),
{
    let MarketPrice { symbol, market_timestamp, timestamp, bid_price, bid_size, ask_price, ask_size } =
        mp;
    let mut data: Vec<u8> = Vec::new();
    std::mem::swap(buffer, &mut data);
    let ghost b0 = data@;

    let mut bbo_msg = BboMsgEncoder::default();
    bbo_msg = bbo_msg.wrap(WriteBuf::new(data), message_header_codec::ENCODED_LENGTH);
    let ghost m0 = bbo_msg;
    let mut header = bbo_msg.header(0);
    bbo_msg = header.parent().unwrap();
    proof {
        lemma_header_bytes_len(SBE_BLOCK_LENGTH, SBE_TEMPLATE_ID, SBE_SCHEMA_ID, SBE_SCHEMA_VERSION);
        lemma_msg_wrote(
            m0,
            bbo_msg,
            0,
            header_bytes(SBE_BLOCK_LENGTH, SBE_TEMPLATE_ID, SBE_SCHEMA_ID, SBE_SCHEMA_VERSION),
        );
    }

    let ghost m1 = bbo_msg;
    let mut symbol_e = bbo_msg.instrument_encoder();
    let ghost s0 = symbol_e;
    proof {
        s0.lemma_parent();
        lemma_instrument_encoding_len(symbol);
    }
    encode_instrument(symbol, &mut symbol_e);
    proof {
        s0.lemma_parent_wrote(symbol_e, 8, instrument_encoding(symbol));
    }
    bbo_msg = symbol_e.parent().unwrap();
    proof {
        lemma_msg_wrote(m1, bbo_msg, 8, instrument_encoding(symbol));
    }

    let ghost m2 = bbo_msg;
    bbo_msg.market_timestamp(market_timestamp);
    proof {
        lemma_encodings_len(0, 0, market_timestamp, 0);
        lemma_msg_wrote(m2, bbo_msg, 26, u64_bytes(market_timestamp));
    }

    if let Some(timestamp) = timestamp {
        let ghost m3 = bbo_msg;
        bbo_msg.timestamp(timestamp);
        proof {
            lemma_encodings_len(0, 0, timestamp, 0);
            lemma_msg_wrote(m3, bbo_msg, 34, u64_bytes(timestamp));
        }
    }

    bbo_msg = put_dec(bbo_msg, 42, bid_price);
    bbo_msg = put_dec(bbo_msg, 51, bid_size);
    bbo_msg = put_dec(bbo_msg, 60, ask_price);
    bbo_msg = put_dec(bbo_msg, 69, ask_size);

    let mut data = bbo_msg.into_buf().into_inner();
    std::mem::swap(buffer, &mut data);
}

/// Reads the best-bid-and-offer message at the start of `v`.
pub fn decode_market_price(v: &[u8]) -> (mp: MarketPrice)
    requires
        market_price_decodable(v@),
    ensures
        decodes_market_price(v@, mp),
{
    let mut bbo_msg_d = BboMsgDecoder::default();
    let buf = ReadBuf::new(v);
    proof {
        buf.lemma_reader();
    }
    let header = MessageHeaderDecoder::default().wrap(buf, 0);
    bbo_msg_d = bbo_msg_d.header(header);

    let mut symbol_d = bbo_msg_d.instrument_decoder();
    proof {
        symbol_d.lemma_reader();
    }
    let symbol = decode_instrument(&mut symbol_d);
    bbo_msg_d = symbol_d.parent().unwrap();

    let mut bid_price_d = bbo_msg_d.bid_price_decoder();
    proof {
        bid_price_d.lemma_reader();
    }
    let bid_price = decode_dec(&bid_price_d);
    bbo_msg_d = bid_price_d.parent().unwrap();

    let mut bid_size_d = bbo_msg_d.bid_size_decoder();
    proof {
        bid_size_d.lemma_reader();
    }
    let bid_size = decode_dec(&bid_size_d);
    bbo_msg_d = bid_size_d.parent().unwrap();

    let mut ask_price_d = bbo_msg_d.ask_price_decoder();
    proof {
        ask_price_d.lemma_reader();
    }
    let ask_price = decode_dec(&ask_price_d);
    bbo_msg_d = ask_price_d.parent().unwrap();

    let mut ask_size_d = bbo_msg_d.ask_size_decoder();
    proof {
        ask_size_d.lemma_reader();
    }
    let ask_size = decode_dec(&ask_size_d);
    bbo_msg_d = ask_size_d.parent().unwrap();

    MarketPrice {
        symbol,
        market_timestamp: bbo_msg_d.market_timestamp(),
        timestamp: bbo_msg_d.timestamp(),
        bid_price,
        bid_size,
        ask_price,
        ask_size,
    }
}

/// Where each field lies in the message that encoding writes.
proof fn lemma_market_price_layout(b: Seq<u8>, mp: MarketPrice)
    requires
        b.len() >= MARKET_PRICE_LENGTH,
    ensures
        ({
            let t = market_price_bytes(b, mp);
            &&& t.len() == b.len()
            &&& t.subrange(0, 8) == header_bytes(
                SBE_BLOCK_LENGTH,
                SBE_TEMPLATE_ID,
                SBE_SCHEMA_ID,
                SBE_SCHEMA_VERSION,
            )
            &&& t.subrange(8, 26) == splice(b, 8, instrument_encoding(mp.symbol)).subrange(8, 26)
            &&& t.subrange(26, 34) == u64_bytes(mp.market_timestamp)
            &&& t.subrange(34, 42) == match mp.timestamp {
                Some(v) => u64_bytes(v),
                None => b.subrange(34, 42),
            }
            &&& t.subrange(42, 51) == dec_bytes(mp.bid_price)
            &&& t.subrange(51, 60) == dec_bytes(mp.bid_size)
            &&& t.subrange(60, 69) == dec_bytes(mp.ask_price)
            &&& t.subrange(69, 78) == dec_bytes(mp.ask_size)
        }),
{
    let h = header_bytes(SBE_BLOCK_LENGTH, SBE_TEMPLATE_ID, SBE_SCHEMA_ID, SBE_SCHEMA_VERSION);
    let enc = instrument_encoding(mp.symbol);
    let mt = u64_bytes(mp.market_timestamp);
    let d1 = dec_bytes(mp.bid_price);
    let d2 = dec_bytes(mp.bid_size);
    let d3 = dec_bytes(mp.ask_price);
    let d4 = dec_bytes(mp.ask_size);
    lemma_header_bytes_len(SBE_BLOCK_LENGTH, SBE_TEMPLATE_ID, SBE_SCHEMA_ID, SBE_SCHEMA_VERSION);
    lemma_instrument_encoding_len(mp.symbol);
    lemma_encodings_len(0, 0, mp.market_timestamp, mp.bid_price.spec_mantissa() as i64);
    lemma_encodings_len(0, 0, 0, mp.bid_size.spec_mantissa() as i64);
    lemma_encodings_len(0, 0, 0, mp.ask_price.spec_mantissa() as i64);
    lemma_encodings_len(0, 0, 0, mp.ask_size.spec_mantissa() as i64);
    let b1 = splice(b, 0, h);
    let b2 = splice(b1, 8, enc);
    let b3 = splice(b2, 26, mt);
    let b4 = match mp.timestamp {
        Some(v) => splice(b3, 34, u64_bytes(v)),
        None => b3,
    };
    let b5 = splice(b4, 42, d1);
    let b6 = splice(b5, 51, d2);
    let b7 = splice(b6, 60, d3);
    let t = splice(b7, 69, d4);
    assert(t == market_price_bytes(b, mp));

    // the header
    lemma_splice(b, 0, h);
    lemma_splice_keeps(b1, 8, enc, 0, 8);
    lemma_splice_keeps(b2, 26, mt, 0, 8);
    lemma_splice_keeps(b2, 26, mt, 8, 18);
    lemma_splice_keeps(b2, 26, mt, 34, 8);
    if let Some(v) = mp.timestamp {
        lemma_encodings_len(0, 0, v, 0);
        lemma_splice_keeps(b3, 34, u64_bytes(v), 0, 8);
        lemma_splice_keeps(b3, 34, u64_bytes(v), 8, 18);
        lemma_splice_keeps(b3, 34, u64_bytes(v), 26, 8);
        lemma_splice(b3, 34, u64_bytes(v));
    }
    lemma_splice_keeps(b4, 42, d1, 0, 8);
    lemma_splice_keeps(b4, 42, d1, 8, 18);
    lemma_splice_keeps(b4, 42, d1, 26, 8);
    lemma_splice_keeps(b4, 42, d1, 34, 8);
    lemma_splice_keeps(b5, 51, d2, 0, 8);
    lemma_splice_keeps(b5, 51, d2, 8, 18);
    lemma_splice_keeps(b5, 51, d2, 26, 8);
    lemma_splice_keeps(b5, 51, d2, 34, 8);
    lemma_splice_keeps(b5, 51, d2, 42, 9);
    lemma_splice_keeps(b6, 60, d3, 0, 8);
    lemma_splice_keeps(b6, 60, d3, 8, 18);
    lemma_splice_keeps(b6, 60, d3, 26, 8);
    lemma_splice_keeps(b6, 60, d3, 34, 8);
    lemma_splice_keeps(b6, 60, d3, 42, 9);
    lemma_splice_keeps(b6, 60, d3, 51, 9);
    lemma_splice_keeps(b7, 69, d4, 0, 8);
    lemma_splice_keeps(b7, 69, d4, 8, 18);
    lemma_splice_keeps(b7, 69, d4, 26, 8);
    lemma_splice_keeps(b7, 69, d4, 34, 8);
    lemma_splice_keeps(b7, 69, d4, 42, 9);
    lemma_splice_keeps(b7, 69, d4, 51, 9);
    lemma_splice_keeps(b7, 69, d4, 60, 9);
    lemma_splice(b7, 69, d4);
    lemma_splice(b6, 60, d3);
    lemma_splice(b5, 51, d2);
    lemma_splice(b4, 42, d1);
    lemma_splice(b2, 26, mt);
    // the timestamp left as it was
    lemma_splice_keeps(b, 0, h, 34, 8);
    lemma_splice_keeps(b1, 8, enc, 34, 8);
    // the instrument, beside the header
    lemma_splice(b1, 8, enc);
    lemma_splice(b, 8, enc);
    assert(b2.subrange(8, 26) =~= splice(b, 8, enc).subrange(8, 26));
}

/// Decoding accepts every best-bid-and-offer message that encoding writes,
/// whatever the buffer held before.
pub proof fn lemma_market_price_decodable(b: Seq<u8>, mp: MarketPrice)
    requires
        b.len() >= MARKET_PRICE_LENGTH,
        mp.bid_price.wf(),
        mp.bid_size.wf(),
        mp.ask_price.wf(),
        mp.ask_size.wf(),
    ensures
        market_price_decodable(market_price_bytes(b, mp)),
{
    let t = market_price_bytes(b, mp);
    let h = header_bytes(SBE_BLOCK_LENGTH, SBE_TEMPLATE_ID, SBE_SCHEMA_ID, SBE_SCHEMA_VERSION);
    lemma_market_price_layout(b, mp);
    lemma_encodings_len(SBE_TEMPLATE_ID, 0, 0, 0);
    vstd::bytes::lemma_auto_spec_u16_to_from_le_bytes();
    assert(t.subrange(2, 4) =~= u16_bytes(SBE_TEMPLATE_ID)) by {
        assert forall|k: int| 0 <= k < 2 implies t.subrange(2, 4)[k] == u16_bytes(SBE_TEMPLATE_ID)[k] by {
            assert(t.subrange(2, 4)[k] == t.subrange(0, 8)[k + 2]);
            assert(h[k + 2] == u16_bytes(SBE_TEMPLATE_ID)[k]);
        }
    }
    let enc_b = splice(b, 8, instrument_encoding(mp.symbol));
    crate::structs::instrument::lemma_instrument_encoding_decodable(b, 8, mp.symbol);
    lemma_same_region(t, enc_b, 8, 26);
    lemma_dec_scale_back(t, 42, mp.bid_price);
    lemma_dec_scale_back(t, 51, mp.bid_size);
    lemma_dec_scale_back(t, 60, mp.ask_price);
    lemma_dec_scale_back(t, 69, mp.ask_size);
}

/// Decoding the message that encoding wrote gives the best bid and offer back,
/// when its timestamp and its instrument's expiry read back and its mantissas
/// fit in 64 bits.
pub proof fn lemma_market_price_roundtrip(b: Seq<u8>, mp: MarketPrice, got: MarketPrice)
    requires
        b.len() >= MARKET_PRICE_LENGTH,
        mp.bid_price.wf(),
        mp.bid_size.wf(),
        mp.ask_price.wf(),
        mp.ask_size.wf(),
        dec_fits(mp.bid_price),
        dec_fits(mp.bid_size),
        dec_fits(mp.ask_price),
        dec_fits(mp.ask_size),
        expiry_reads_back(b, 8, mp.symbol),
        timestamp_reads_back(b, 34, mp.timestamp),
        decodes_market_price(market_price_bytes(b, mp), got),
    ensures
        got == mp,
{
    let t = market_price_bytes(b, mp);
    lemma_market_price_layout(b, mp);
    let enc_b = splice(b, 8, instrument_encoding(mp.symbol));
    lemma_same_region(t, enc_b, 8, 26);
    lemma_instrument_roundtrip(b, 8, mp.symbol, got.symbol);
    vstd::bytes::lemma_auto_spec_u64_to_from_le_bytes();
    lemma_dec_read_back(t, 42, mp.bid_price, got.bid_price);
    lemma_dec_read_back(t, 51, mp.bid_size, got.bid_size);
    lemma_dec_read_back(t, 60, mp.ask_price, got.ask_price);
    lemma_dec_read_back(t, 69, mp.ask_size, got.ask_size);
}

/// The best-bid-and-offer message of `mp`, in zeroed bytes of its length.
pub fn marshal_market_price(mp: MarketPrice) -> (v: Vec<u8>)
    ensures
        v@ == market_price_bytes(zeros(MARKET_PRICE_LENGTH as int), mp),
{
    let mut buffer = vec![0u8; SBE_BLOCK_LENGTH as usize + message_header_codec::ENCODED_LENGTH];
    proof {
        assert(buffer@ =~= zeros(MARKET_PRICE_LENGTH as int));
    }
    encode_market_price(&mut buffer, mp);
    buffer
}

/// Whether the best-bid-and-offer message in `v` can be decoded.
pub fn is_decodable_market_price(v: &[u8]) -> (ok: bool)
    ensures
        ok == market_price_decodable(v@),
{
    let buf = ReadBuf::new(v);
    if v.len() < MARKET_PRICE_LENGTH {
        return false;
    }
    let instrument_type = v[21];
    let s1 = buf.get_i8_at(50);
    let s2 = buf.get_i8_at(59);
    let s3 = buf.get_i8_at(68);
    let s4 = buf.get_i8_at(77);
    let scales_ok = 0 <= s1 && s1 <= 28 && 0 <= s2 && s2 <= 28 && 0 <= s3 && s3 <= 28 && 0 <= s4
        && s4 <= 28;
    buf.get_u16_at(2) == SBE_TEMPLATE_ID && (instrument_type == 0 || instrument_type == 1)
        && scales_ok
}

} // verus!
