//! Quotes: price levels of an instrument's book, and the quotes message that
//! carries them: a message header, the instrument, the market timestamp, the
//! timestamp, the flags, then the group of levels, each a price and a size.
use crate::decimal::Decimal;
use crate::market_api::bbo_msg_codec::{timestamp_reads_back, timestamp_value};
use crate::market_api::message_header_codec::{self, MessageHeaderDecoder};
use crate::market_api::orderbook_flags::{bit_set, lemma_flags, with_bit, Orderbook_flags};
use crate::market_api::quote_msg_codec::{
    DepthsDecoder, DepthsEncoder, QuoteMsgDecoder, QuoteMsgEncoder, SBE_BLOCK_LENGTH,
    SBE_SCHEMA_ID, SBE_SCHEMA_VERSION, SBE_TEMPLATE_ID,
};
use crate::market_api::{
    header_bytes, lemma_encodings_len, lemma_header_bytes_len, lemma_header_read_back, lemma_same_region, lemma_splice,
    lemma_splice_concat, lemma_splice_keeps, zeros,
    lemma_wrote_twice, splice, u16_at, u16_bytes, u64_at, u64_bytes, wrote, Decoder, Encoder,
    ReadBuf, Reader, WriteBuf, Writer,
};
use crate::structs::instrument::{
    decode_instrument, decodes_instrument, encode_instrument, expiry_reads_back,
    instrument_encoding, instrument_type_known, lemma_instrument_encoding_len,
    lemma_instrument_roundtrip, Instrument,
};
use crate::structs::price::{
    dec_bytes, dec_fits, dec_scale_ok, decode_dec, decodes_dec, encode_dec, lemma_dec_read_back,
    lemma_dec_scale_back,
};
use vstd::prelude::*;
use vstd::wrapping::usize_specs::wrapping_add;

verus! {

/// A price level: the size is positive on the bid side and negative on the ask side.
#[derive(Debug, Clone, Copy)]
pub struct Depth {
    pub price: Decimal,
    pub size: Decimal,
}

#[derive(Debug, Clone)]
pub struct Quotes {
    pub symbol: Instrument,
    pub market_timestamp: u64,
    /// Nanoseconds.
    pub timestamp: Option<u64>,
    pub is_snapshot: bool,
    pub is_l1: bool,
    pub depths: Vec<Depth>,
}

/// The bytes of one level of the group: its price, then its size.
pub open spec fn depth_bytes(d: Depth) -> Seq<u8> {
    dec_bytes(d.price) + dec_bytes(d.size)
}

/// The bytes of the levels of the group, one after the other.
pub open spec fn depths_bytes(ds: Seq<Depth>) -> Seq<u8>
    decreases ds.len(),
{
    if ds.len() == 0 {
        Seq::empty()
    } else {
        depths_bytes(ds.drop_last()) + depth_bytes(ds.last())
    }
}

/// The flags byte: bit 0 for a snapshot, bit 1 for best levels only.
pub open spec fn flags_byte(is_snapshot: bool, is_l1: bool) -> u8 {
    with_bit(with_bit(0, 0, is_snapshot), 1, is_l1)
}

/// The length of a quotes message of `n` levels, with its header and the
/// group's header.
pub open spec fn quotes_length(n: int) -> int {
    message_header_codec::ENCODED_LENGTH + SBE_BLOCK_LENGTH + 3 + DepthsEncoder::<
        QuoteMsgEncoder,
    >::spec_block_length() * n
}

/// `b` with the quotes message of `q` written over its start: the header, the
/// fields at their places, the group's block length and count, then the levels.
/// A timestamp of none is not written.
pub open spec fn quotes_bytes(b: Seq<u8>, q: Quotes) -> Seq<u8> {
    quotes_bytes_of(b, q, q.depths@)
}

/// `b` with a quotes message written over its start: the fields of `q` but
/// for its levels, and the levels `ds`.
pub open spec fn quotes_bytes_of(b: Seq<u8>, q: Quotes, ds: Seq<Depth>) -> Seq<u8> {
    let b1 = splice(
        b,
        0,
        header_bytes(SBE_BLOCK_LENGTH, SBE_TEMPLATE_ID, SBE_SCHEMA_ID, SBE_SCHEMA_VERSION),
    );
    let b2 = splice(b1, 8, instrument_encoding(q.symbol));
    let b3 = splice(b2, 26, u64_bytes(q.market_timestamp));
    let b4 = match q.timestamp {
        Some(t) => splice(b3, 34, u64_bytes(t)),
        None => b3,
    };
    let b5 = splice(b4, 42, seq![flags_byte(q.is_snapshot, q.is_l1)]);
    let b6 = splice(
        b5,
        43,
        u16_bytes(DepthsEncoder::<QuoteMsgEncoder>::spec_block_length()) + seq![
            ds.len() as u8,
        ],
    );
    splice(b6, 46, depths_bytes(ds))
}

/// The levels that the bytes of quotes with levels `ds` hold. The group counts
/// its levels in one byte, `ds.len()` modulo 256; past 255 levels, each level
/// beyond the count is written over the last counted one, which so holds the
/// last level.
pub open spec fn written_depths(ds: Seq<Depth>) -> Seq<Depth> {
    if ds.len() <= 255 {
        ds
    } else {
        ds.take(ds.len() % 256 - 1).push(ds.last())
    }
}

/// Whether quotes of `n` levels can be written: past 255 levels a count of
/// zero leaves no level to write the others over.
pub open spec fn depths_writable(n: int) -> bool {
    n <= 255 || n % 256 != 0
}

/// The bytes that `marshal_quotes` gives for `q`: zeroed bytes of the length
/// of all its levels, with the message of the levels that the count keeps.
pub open spec fn marshaled_quotes(q: Quotes) -> Seq<u8> {
    quotes_bytes_of(zeros(quotes_length(q.depths@.len() as int)), q, written_depths(q.depths@))
}

/// Where the group of a quotes message in `b` starts: after the header and the
/// block whose length the header gives.
pub open spec fn group_start(b: Seq<u8>) -> int {
    message_header_codec::ENCODED_LENGTH + u16_at(b, 0)
}

/// Where level `k` of the group of a quotes message in `b` starts, by the
/// group's block length.
pub open spec fn depth_at(b: Seq<u8>, k: int) -> int {
    group_start(b) + 3 + k * u16_at(b, group_start(b))
}

/// The number of levels that the group of a quotes message in `b` holds.
pub open spec fn group_count(b: Seq<u8>) -> u8 {
    b[group_start(b) + 2]
}

/// Whether the quotes message in `b` can be decoded: long enough for its
/// fields, its group and each level, of this template, with a known
/// instrument type and scales that decimals can have.
pub open spec fn quotes_decodable(b: Seq<u8>) -> bool {
    &&& b.len() >= message_header_codec::ENCODED_LENGTH + SBE_BLOCK_LENGTH
    &&& u16_at(b, 2) == SBE_TEMPLATE_ID
    &&& instrument_type_known(b, 8)
    &&& group_start(b) + 3 <= b.len()
    &&& forall|k: int|
        0 <= k < group_count(b) ==> {
            &&& #[trigger] depth_at(b, k) + 18 <= b.len()
            &&& dec_scale_ok(b, depth_at(b, k))
            &&& dec_scale_ok(b, depth_at(b, k) + 9)
        }
}

/// Whether `d` is what the level at `off` in `b` holds.
pub open spec fn decodes_depth(b: Seq<u8>, off: int, d: Depth) -> bool {
    &&& decodes_dec(b, off, d.price)
    &&& decodes_dec(b, off + 9, d.size)
}

/// Whether `q` is what the quotes message in `b` holds.
pub open spec fn decodes_quotes(b: Seq<u8>, q: Quotes) -> bool {
    &&& decodes_instrument(b, 8, q.symbol)
    &&& q.market_timestamp == u64_at(b, 26)
    &&& q.timestamp == timestamp_value(u64_at(b, 34))
    &&& q.is_snapshot == bit_set(b[42], 0)
    &&& q.is_l1 == bit_set(b[42], 1)
    &&& q.depths@.len() == group_count(b)
    &&& forall|k: int|
        0 <= k < q.depths@.len() ==> decodes_depth(b, #[trigger] depth_at(b, k), q.depths@[k])
}

/// The bytes of `n` levels take 18 bytes each.
pub proof fn lemma_depths_bytes_len(ds: Seq<Depth>)
    ensures
        depths_bytes(ds).len() == 18 * ds.len(),
    decreases ds.len(),
{
    if ds.len() > 0 {
        lemma_depths_bytes_len(ds.drop_last());
        lemma_encodings_len(0, 0, 0, ds.last().price.spec_mantissa() as i64);
        lemma_encodings_len(0, 0, 0, ds.last().size.spec_mantissa() as i64);
    }
}

/// The bytes of the first `i + 1` levels are those of the first `i`, then level `i`.
proof fn lemma_depths_bytes_push(ds: Seq<Depth>, i: int)
    requires
        0 <= i < ds.len(),
    ensures
        depths_bytes(ds.take(i + 1)) == depths_bytes(ds.take(i)) + depth_bytes(ds[i]),
{
    assert(ds.take(i + 1).drop_last() =~= ds.take(i));
}

/// A write through the message codec, seen on its buffer.
proof fn lemma_msg_wrote(m0: QuoteMsgEncoder, m1: QuoteMsgEncoder, at: int, bytes: Seq<u8>)
    requires
        m0.has_wbuf(),
        0 <= at,
        at + bytes.len() <= m0.wbuf()@.len(),
        wrote(m0, m1, at, bytes),
    ensures
        m1.has_wbuf(),
        m1.spec_offset() == m0.spec_offset(),
        m1.limit() == m0.limit(),
        m1.wbuf()@ == splice(m0.wbuf()@, at, bytes),
        m1.wbuf()@.len() == m0.wbuf()@.len(),
{
    m0.lemma_frame(m1.wbuf(), 0);
    m0.lemma_with_limit(m0.limit(), m1.wbuf());
    lemma_splice(m0.wbuf()@, at, bytes);
}

/// Writes the next level of the group, `d`, at the message's limit, and moves
/// the limit past it.
fn put_depth(depths_e: DepthsEncoder<QuoteMsgEncoder>, d: Depth) -> (e: DepthsEncoder<
    QuoteMsgEncoder,
>)
    requires
        depths_e.spec_parent() is Some,
        depths_e.spec_parent().unwrap().has_wbuf(),
        depths_e.spec_parent().unwrap().limit() + 18 <= depths_e.spec_parent().unwrap().wbuf()@.len(),
        wrapping_add(depths_e.spec_index(), 1) < depths_e.spec_count(),
    ensures
        e.spec_parent() is Some,
        e.spec_count() == depths_e.spec_count(),
        e.spec_index() == wrapping_add(depths_e.spec_index(), 1),
        ({
            let p0 = depths_e.spec_parent().unwrap();
            let p = e.spec_parent().unwrap();
            &&& p.has_wbuf()
            &&& p.spec_offset() == p0.spec_offset()
            &&& p.limit() == p0.limit() + 18
            &&& p.wbuf()@ == splice(p0.wbuf()@, p0.limit() as int, depth_bytes(d))
        }),
{
    let mut depths_e = depths_e;
    let ghost g0 = depths_e;
    let ghost p0 = g0.spec_parent().unwrap();
    let ghost lim = p0.limit();
    proof {
        g0.lemma_parent();
        p0.lemma_with_wbuf(p0.wbuf(), p0.wbuf());
    }
    depths_e.advance().unwrap();
    let ghost g1 = depths_e;
    let ghost p1 = p0.with_limit((lim + 18) as usize);
    proof {
        p0.lemma_with_limit((lim + 18) as usize, p0.wbuf());
        p0.lemma_frame(p0.wbuf(), (lim + 18) as usize);
        g1.lemma_parent();
    }

    let mut price_e = depths_e.price_encoder();
    let ghost e0 = price_e;
    proof {
        e0.lemma_parent();
    }
    encode_dec(&mut price_e, d.price);
    proof {
        lemma_encodings_len(0, 0, 0, d.price.spec_mantissa() as i64);
        lemma_encodings_len(0, 0, 0, d.size.spec_mantissa() as i64);
        e0.lemma_parent_wrote(price_e, lim as int, dec_bytes(d.price));
        g1.lemma_parent_wrote(price_e.spec_parent().unwrap(), lim as int, dec_bytes(d.price));
    }
    depths_e = price_e.parent().unwrap();
    let ghost g2 = depths_e;
    let ghost p2 = g2.spec_parent().unwrap();
    proof {
        g2.lemma_parent();
    }

    let mut size_e = depths_e.size_encoder();
    let ghost f0 = size_e;
    proof {
        f0.lemma_parent();
        lemma_splice(p1.wbuf()@, lim as int, dec_bytes(d.price));
    }
    encode_dec(&mut size_e, d.size);
    proof {
        f0.lemma_parent_wrote(size_e, lim + 9, dec_bytes(d.size));
        g2.lemma_parent_wrote(size_e.spec_parent().unwrap(), lim + 9, dec_bytes(d.size));
    }
    depths_e = size_e.parent().unwrap();
    proof {
        let p3 = depths_e.spec_parent().unwrap();
        lemma_wrote_twice(p1, p2, p3, lim as int, dec_bytes(d.price), dec_bytes(d.size));
        lemma_msg_wrote(p1, p3, lim as int, depth_bytes(d));
    }
    depths_e
}

/// Writes the quotes message of `q` at the start of `buffer`. The group counts
/// its levels in one byte.
pub fn encode_quotes(buffer: &mut Vec<u8>, q: Quotes)
    requires
        q.depths.len() <= 255,
        old(buffer).len() >= quotes_length(q.depths.len() as int),
    ensures
        final(buffer)@ == quotes_bytes(old(buffer)@, q),
{
    let Quotes { symbol, market_timestamp, timestamp, is_snapshot, is_l1, depths } = q;
    let mut data: Vec<u8> = Vec::new();
    std::mem::swap(buffer, &mut data);
    let ghost b0 = data@;

    let mut quotes_msg = QuoteMsgEncoder::default();
    quotes_msg = quotes_msg.wrap(WriteBuf::new(data), message_header_codec::ENCODED_LENGTH);
    let ghost m0 = quotes_msg;
    let mut header = quotes_msg.header(0);
    quotes_msg = header.parent().unwrap();
    proof {
        lemma_header_bytes_len(SBE_BLOCK_LENGTH, SBE_TEMPLATE_ID, SBE_SCHEMA_ID, SBE_SCHEMA_VERSION);
        lemma_msg_wrote(
            m0,
            quotes_msg,
            0,
            header_bytes(SBE_BLOCK_LENGTH, SBE_TEMPLATE_ID, SBE_SCHEMA_ID, SBE_SCHEMA_VERSION),
        );
    }

    let ghost m1 = quotes_msg;
    let mut symbol_e = quotes_msg.instrument_encoder();
    let ghost s0 = symbol_e;
    proof {
        s0.lemma_parent();
        lemma_instrument_encoding_len(symbol);
    }
    encode_instrument(symbol, &mut symbol_e);
    proof {
        s0.lemma_parent_wrote(symbol_e, 8, instrument_encoding(symbol));
    }
    quotes_msg = symbol_e.parent().unwrap();
    proof {
        lemma_msg_wrote(m1, quotes_msg, 8, instrument_encoding(symbol));
    }

    let ghost m2 = quotes_msg;
    quotes_msg.market_timestamp(market_timestamp);
    proof {
        lemma_encodings_len(0, 0, market_timestamp, 0);
        lemma_msg_wrote(m2, quotes_msg, 26, u64_bytes(market_timestamp));
    }

    if let Some(timestamp) = timestamp {
        let ghost m3 = quotes_msg;
        quotes_msg.timestamp(timestamp);
        proof {
            lemma_encodings_len(0, 0, timestamp, 0);
            lemma_msg_wrote(m3, quotes_msg, 34, u64_bytes(timestamp));
        }
    }

    let mut orderbook_flags_e = Orderbook_flags::new(0);
    orderbook_flags_e.set_is_snapshot(is_snapshot);
    orderbook_flags_e.set_l1(is_l1);
    let ghost m4 = quotes_msg;
    quotes_msg.orderbook_flags(orderbook_flags_e);
    proof {
        assert(orderbook_flags_e.0 == flags_byte(is_snapshot, is_l1));
        lemma_msg_wrote(m4, quotes_msg, 42, seq![flags_byte(is_snapshot, is_l1)]);
    }

    let ghost m5 = quotes_msg;
    let ghost group_head = u16_bytes(DepthsEncoder::<QuoteMsgEncoder>::spec_block_length()) + seq![
        depths.len() as u8,
    ];
    let mut depths_e = DepthsEncoder::default();
    depths_e = quotes_msg.depths_encoder(depths.len() as u8, depths_e);
    let ghost b6 = depths_e.spec_parent().unwrap().wbuf()@;
    proof {
        let m6 = m5.with_limit(46);
        m5.lemma_with_limit(46, m5.wbuf());
        m5.lemma_frame(m5.wbuf(), 46);
        lemma_encodings_len(DepthsEncoder::<QuoteMsgEncoder>::spec_block_length(), 0, 0, 0);
        lemma_msg_wrote(m6, depths_e.spec_parent().unwrap(), 43, group_head);
        assert(splice(b6, 46, depths_bytes(depths@.take(0))) =~= b6);
    }

    let ghost n = depths.len();
    let mut i: usize = 0;
    while i < depths.len()
        invariant
            n == depths.len(),
            n <= 255,
            0 <= i <= n,
            b0.len() >= quotes_length(n as int),
            b6.len() == b0.len(),
            depths_e.spec_parent() is Some,
            depths_e.spec_count() == n as u8,
            depths_e.spec_index() == (if i == 0 {
                usize::MAX
            } else {
                (i - 1) as usize
            }),
            depths_e.spec_parent().unwrap().has_wbuf(),
            depths_e.spec_parent().unwrap().spec_offset() == message_header_codec::ENCODED_LENGTH,
            depths_e.spec_parent().unwrap().limit() == 46 + 18 * i,
            depths_e.spec_parent().unwrap().wbuf()@ == splice(
                b6,
                46,
                depths_bytes(depths@.take(i as int)),
            ),
        decreases n - i,
    {
        let ghost p = depths_e.spec_parent().unwrap();
        proof {
            lemma_depths_bytes_len(depths@.take(i as int));
            lemma_splice(b6, 46, depths_bytes(depths@.take(i as int)));
        }
        depths_e = put_depth(depths_e, depths[i]);
        proof {
            lemma_encodings_len(0, 0, 0, depths@[i as int].price.spec_mantissa() as i64);
            lemma_encodings_len(0, 0, 0, depths@[i as int].size.spec_mantissa() as i64);
            lemma_splice_concat(
                b6,
                46,
                depths_bytes(depths@.take(i as int)),
                depth_bytes(depths@[i as int]),
            );
            lemma_depths_bytes_push(depths@, i as int);
        }
        i += 1;
    }
    let quotes_msg = depths_e.parent().unwrap();
    proof {
        assert(depths@.take(n as int) =~= depths@);
    }
    let mut data = quotes_msg.into_buf().into_inner();
    std::mem::swap(buffer, &mut data);
}

/// Reads the next level of the group, at the message's limit, and moves the
/// limit past it.
fn take_depth<'a>(depths_d: DepthsDecoder<QuoteMsgDecoder<'a>>) -> (r: (
    DepthsDecoder<QuoteMsgDecoder<'a>>,
    Depth,
))
    requires
        depths_d.spec_parent() is Some,
        depths_d.spec_parent().unwrap().has_rbuf(),
        depths_d.spec_parent().unwrap().limit() + 18 <= depths_d.spec_parent().unwrap().rbuf().len(),
        depths_d.spec_parent().unwrap().limit() + depths_d.spec_block_length() <= usize::MAX,
        dec_scale_ok(
            depths_d.spec_parent().unwrap().rbuf(),
            depths_d.spec_parent().unwrap().limit() as int,
        ),
        dec_scale_ok(
            depths_d.spec_parent().unwrap().rbuf(),
            depths_d.spec_parent().unwrap().limit() + 9,
        ),
        wrapping_add(depths_d.spec_index(), 1) < depths_d.spec_count(),
    ensures
        r.0.spec_parent() == Some(
            depths_d.spec_parent().unwrap().with_limit(
                (depths_d.spec_parent().unwrap().limit() + depths_d.spec_block_length()) as usize,
            ),
        ),
        r.0.spec_count() == depths_d.spec_count(),
        r.0.spec_block_length() == depths_d.spec_block_length(),
        r.0.spec_index() == wrapping_add(depths_d.spec_index(), 1),
        decodes_depth(
            depths_d.spec_parent().unwrap().rbuf(),
            depths_d.spec_parent().unwrap().limit() as int,
            r.1,
        ),
{
    let mut depths_d = depths_d;
    let ghost p0 = depths_d.spec_parent().unwrap();
    proof {
        depths_d.lemma_reader();
        p0.lemma_rbuf_len();
    }
    depths_d.advance().unwrap();
    proof {
        p0.lemma_with_limit((p0.limit() + depths_d.spec_block_length()) as usize);
        depths_d.lemma_reader();
    }
    let mut price_d = depths_d.price_decoder();
    proof {
        price_d.lemma_reader();
    }
    let price = decode_dec(&price_d);
    depths_d = price_d.parent().unwrap();
    let mut size_d = depths_d.size_decoder();
    proof {
        size_d.lemma_reader();
    }
    let size = decode_dec(&size_d);
    depths_d = size_d.parent().unwrap();
    (depths_d, Depth { price, size })
}

/// Reads the quotes message at the start of `v`.
pub fn decode_quotes(v: &[u8]) -> (q: Quotes)
    requires
        quotes_decodable(v@),
    ensures
        decodes_quotes(v@, q),
{
    let mut quotes_msg_d = QuoteMsgDecoder::default();
    let buf = ReadBuf::new(v);
    proof {
        buf.lemma_reader();
    }
    let header = MessageHeaderDecoder::default().wrap(buf, 0);
    quotes_msg_d = quotes_msg_d.header(header);

    let mut symbol_d = quotes_msg_d.instrument_decoder();
    proof {
        symbol_d.lemma_reader();
    }
    let symbol = decode_instrument(&mut symbol_d);
    quotes_msg_d = symbol_d.parent().unwrap();

    let market_timestamp = quotes_msg_d.market_timestamp();
    let timestamp = quotes_msg_d.timestamp();

    let orderbook_flags_d = quotes_msg_d.orderbook_flags();
    let is_snapshot = orderbook_flags_d.get_is_snapshot();
    let is_l1 = orderbook_flags_d.get_l1();

    let ghost l0 = group_start(v@);
    let ghost bl = u16_at(v@, l0);
    let ghost m0 = quotes_msg_d;
    proof {
        m0.lemma_with_limit((l0 + 3) as usize);
    }
    let mut depths_d = quotes_msg_d.depths_decoder();
    let depths_count = depths_d.count();
    let mut depths: Vec<Depth> = Vec::with_capacity(depths_count as usize);
    let mut k: u8 = 0;
    while k < depths_count
        invariant
            quotes_decodable(v@),
            l0 == group_start(v@),
            bl == u16_at(v@, l0),
            depths_count == group_count(v@),
            0 <= k <= depths_count,
            depths_d.spec_parent() is Some,
            depths_d.spec_parent().unwrap().has_rbuf(),
            depths_d.spec_parent().unwrap().rbuf() == v@,
            depths_d.spec_parent().unwrap().limit() == l0 + 3 + k * bl,
            depths_d.spec_block_length() == bl,
            depths_d.spec_count() == depths_count,
            depths_d.spec_index() == (if k == 0 {
                usize::MAX
            } else {
                (k - 1) as usize
            }),
            depths@.len() == k,
            forall|j: int| 0 <= j < k ==> decodes_depth(v@, #[trigger] depth_at(v@, j), depths@[j]),
        decreases depths_count - k,
    {
        let ghost p = depths_d.spec_parent().unwrap();
        proof {
            assert(depth_at(v@, k as int) + 18 <= v@.len());
            assert(l0 + 3 + k * bl + bl <= usize::MAX) by (nonlinear_arith)
                requires
                    l0 <= 8 + 0xffff,
                    bl <= 0xffff,
                    k < 256,
            ;
        }
        let (d, depth) = take_depth(depths_d);
        depths_d = d;
        depths.push(depth);
        proof {
            let p1 = depths_d.spec_parent().unwrap();
            p.lemma_with_limit((p.limit() + bl) as usize);
            assert(l0 + 3 + k * bl + bl == l0 + 3 + (k + 1) * bl) by (nonlinear_arith);
        }
        k += 1;
    }
    Quotes { symbol, market_timestamp, timestamp, is_snapshot, is_l1, depths }
}

/// Level `k` takes bytes `18 * k` to `18 * k + 18` of the bytes of the levels.
proof fn lemma_depths_bytes_at(ds: Seq<Depth>, k: int)
    requires
        0 <= k < ds.len(),
    ensures
        depths_bytes(ds).subrange(18 * k, 18 * k + 18) == depth_bytes(ds[k]),
    decreases ds.len(),
{
    let last = ds.last();
    lemma_depths_bytes_len(ds.drop_last());
    lemma_encodings_len(0, 0, 0, last.price.spec_mantissa() as i64);
    lemma_encodings_len(0, 0, 0, last.size.spec_mantissa() as i64);
    if k < ds.len() - 1 {
        lemma_depths_bytes_at(ds.drop_last(), k);
        assert(depths_bytes(ds).subrange(18 * k, 18 * k + 18) =~= depths_bytes(
            ds.drop_last(),
        ).subrange(18 * k, 18 * k + 18));
    } else {
        assert(depths_bytes(ds).subrange(18 * k, 18 * k + 18) =~= depth_bytes(last));
    }
}

/// The price and the size of level `k` in a message whose levels start at 46.
proof fn lemma_level_at(t: Seq<u8>, ds: Seq<Depth>, k: int)
    requires
        0 <= k < ds.len(),
        46 + 18 * ds.len() <= t.len(),
        t.subrange(46, 46 + 18 * ds.len() as int) == depths_bytes(ds),
    ensures
        t.subrange(46 + 18 * k, 46 + 18 * k + 9) == dec_bytes(ds[k].price),
        t.subrange(46 + 18 * k + 9, 46 + 18 * k + 18) == dec_bytes(ds[k].size),
{
    lemma_depths_bytes_at(ds, k);
    lemma_depths_bytes_len(ds);
    lemma_encodings_len(0, 0, 0, ds[k].price.spec_mantissa() as i64);
    lemma_encodings_len(0, 0, 0, ds[k].size.spec_mantissa() as i64);
    let all = depths_bytes(ds);
    let one = depth_bytes(ds[k]);
    assert forall|j: int| 0 <= j < 18 implies #[trigger] t[46 + 18 * k + j] == one[j] by {
        assert(t[46 + 18 * k + j] == t.subrange(46, 46 + 18 * ds.len() as int)[18 * k + j]);
        assert(all[18 * k + j] == all.subrange(18 * k, 18 * k + 18)[j]);
    }
    assert(t.subrange(46 + 18 * k, 46 + 18 * k + 9) =~= dec_bytes(ds[k].price)) by {
        assert forall|j: int| 0 <= j < 9 implies t.subrange(46 + 18 * k, 46 + 18 * k + 9)[j]
            == dec_bytes(ds[k].price)[j] by {
            assert(t[46 + 18 * k + j] == one[j]);
        }
    }
    assert(t.subrange(46 + 18 * k + 9, 46 + 18 * k + 18) =~= dec_bytes(ds[k].size)) by {
        assert forall|j: int| 0 <= j < 9 implies t.subrange(46 + 18 * k + 9, 46 + 18 * k + 18)[j]
            == dec_bytes(ds[k].size)[j] by {
            assert(t[46 + 18 * k + (j + 9)] == one[j + 9]);
        }
    }
}

/// Where each field lies in the quotes message that encoding writes.
proof fn lemma_quotes_layout(b: Seq<u8>, q: Quotes)
    requires
        q.depths@.len() <= 255,
        b.len() >= quotes_length(q.depths@.len() as int),
    ensures
        ({
            let t = quotes_bytes(b, q);
            &&& t.len() == b.len()
            &&& t.subrange(0, 8) == header_bytes(
                SBE_BLOCK_LENGTH,
                SBE_TEMPLATE_ID,
                SBE_SCHEMA_ID,
                SBE_SCHEMA_VERSION,
            )
            &&& t.subrange(8, 26) == splice(b, 8, instrument_encoding(q.symbol)).subrange(8, 26)
            &&& t.subrange(26, 34) == u64_bytes(q.market_timestamp)
            &&& t.subrange(34, 42) == match q.timestamp {
                Some(v) => u64_bytes(v),
                None => b.subrange(34, 42),
            }
            &&& t[42] == flags_byte(q.is_snapshot, q.is_l1)
            &&& t.subrange(43, 46) == u16_bytes(
                DepthsEncoder::<QuoteMsgEncoder>::spec_block_length(),
            ) + seq![q.depths@.len() as u8]
            &&& t.subrange(46, 46 + 18 * q.depths@.len() as int) == depths_bytes(q.depths@)
        }),
{
    let h = header_bytes(SBE_BLOCK_LENGTH, SBE_TEMPLATE_ID, SBE_SCHEMA_ID, SBE_SCHEMA_VERSION);
    let enc = instrument_encoding(q.symbol);
    let mt = u64_bytes(q.market_timestamp);
    let fl = seq![flags_byte(q.is_snapshot, q.is_l1)];
    let gh = u16_bytes(DepthsEncoder::<QuoteMsgEncoder>::spec_block_length()) + seq![
        q.depths@.len() as u8,
    ];
    let db = depths_bytes(q.depths@);
    lemma_header_bytes_len(SBE_BLOCK_LENGTH, SBE_TEMPLATE_ID, SBE_SCHEMA_ID, SBE_SCHEMA_VERSION);
    lemma_instrument_encoding_len(q.symbol);
    lemma_encodings_len(
        DepthsEncoder::<QuoteMsgEncoder>::spec_block_length(),
        0,
        q.market_timestamp,
        0,
    );
    lemma_depths_bytes_len(q.depths@);
    let b1 = splice(b, 0, h);
    let b2 = splice(b1, 8, enc);
    let b3 = splice(b2, 26, mt);
    let b4 = match q.timestamp {
        Some(v) => splice(b3, 34, u64_bytes(v)),
        None => b3,
    };
    let b5 = splice(b4, 42, fl);
    let b6 = splice(b5, 43, gh);
    let t = splice(b6, 46, db);
    assert(t == quotes_bytes(b, q));

    lemma_splice(b, 0, h);
    lemma_splice_keeps(b1, 8, enc, 0, 8);
    lemma_splice_keeps(b2, 26, mt, 0, 8);
    lemma_splice_keeps(b2, 26, mt, 8, 18);
    lemma_splice_keeps(b2, 26, mt, 34, 8);
    if let Some(v) = q.timestamp {
        lemma_encodings_len(0, 0, v, 0);
        lemma_splice_keeps(b3, 34, u64_bytes(v), 0, 8);
        lemma_splice_keeps(b3, 34, u64_bytes(v), 8, 18);
        lemma_splice_keeps(b3, 34, u64_bytes(v), 26, 8);
        lemma_splice(b3, 34, u64_bytes(v));
    }
    lemma_splice_keeps(b4, 42, fl, 0, 8);
    lemma_splice_keeps(b4, 42, fl, 8, 18);
    lemma_splice_keeps(b4, 42, fl, 26, 8);
    lemma_splice_keeps(b4, 42, fl, 34, 8);
    lemma_splice_keeps(b5, 43, gh, 0, 8);
    lemma_splice_keeps(b5, 43, gh, 8, 18);
    lemma_splice_keeps(b5, 43, gh, 26, 8);
    lemma_splice_keeps(b5, 43, gh, 34, 8);
    lemma_splice_keeps(b5, 43, gh, 42, 1);
    lemma_splice_keeps(b6, 46, db, 0, 8);
    lemma_splice_keeps(b6, 46, db, 8, 18);
    lemma_splice_keeps(b6, 46, db, 26, 8);
    lemma_splice_keeps(b6, 46, db, 34, 8);
    lemma_splice_keeps(b6, 46, db, 42, 1);
    lemma_splice_keeps(b6, 46, db, 43, 3);
    lemma_splice(b6, 46, db);
    lemma_splice(b5, 43, gh);
    lemma_splice(b4, 42, fl);
    lemma_splice(b2, 26, mt);
    lemma_splice_keeps(b, 0, h, 34, 8);
    lemma_splice_keeps(b1, 8, enc, 34, 8);
    lemma_splice(b1, 8, enc);
    lemma_splice(b, 8, enc);
    assert(b2.subrange(8, 26) =~= splice(b, 8, enc).subrange(8, 26));
    assert(t[42] == t.subrange(42, 43)[0]);
}

/// The group of the quotes message that encoding writes starts at 46, holds
/// levels of 18 bytes, and counts them.
proof fn lemma_quotes_group(b: Seq<u8>, q: Quotes)
    requires
        q.depths@.len() <= 255,
        b.len() >= quotes_length(q.depths@.len() as int),
    ensures
        group_start(quotes_bytes(b, q)) == 43,
        u16_at(quotes_bytes(b, q), 43) == 18,
        group_count(quotes_bytes(b, q)) == q.depths@.len(),
        forall|k: int| #[trigger] depth_at(quotes_bytes(b, q), k) == 46 + 18 * k,
        u16_at(quotes_bytes(b, q), 2) == SBE_TEMPLATE_ID,
        u16_at(quotes_bytes(b, q), 4) == SBE_SCHEMA_ID,
        u16_at(quotes_bytes(b, q), 6) == SBE_SCHEMA_VERSION,
{
    let t = quotes_bytes(b, q);
    lemma_quotes_layout(b, q);
    lemma_encodings_len(DepthsEncoder::<QuoteMsgEncoder>::spec_block_length(), 0, 0, 0);
    vstd::bytes::lemma_auto_spec_u16_to_from_le_bytes();
    lemma_header_read_back(t, SBE_BLOCK_LENGTH, SBE_TEMPLATE_ID, SBE_SCHEMA_ID, SBE_SCHEMA_VERSION);
    assert(t.subrange(43, 45) =~= u16_bytes(DepthsEncoder::<QuoteMsgEncoder>::spec_block_length()))
        by {
        assert forall|j: int| 0 <= j < 2 implies t.subrange(43, 45)[j] == u16_bytes(
            DepthsEncoder::<QuoteMsgEncoder>::spec_block_length(),
        )[j] by {
            assert(t.subrange(43, 45)[j] == t.subrange(43, 46)[j]);
        }
    }
    assert(t[45] == t.subrange(43, 46)[2]);
    assert forall|k: int| #[trigger] depth_at(t, k) == 46 + 18 * k by {
        assert(group_start(t) == 43);
        assert(u16_at(t, group_start(t)) == 18);
    }
}

/// Decoding accepts every quotes message that encoding writes, whatever the
/// buffer held before.
pub proof fn lemma_quotes_decodable(b: Seq<u8>, q: Quotes)
    requires
        q.depths@.len() <= 255,
        b.len() >= quotes_length(q.depths@.len() as int),
        forall|k: int| 0 <= k < q.depths@.len() ==> (#[trigger] q.depths@[k]).price.wf() && q.depths@[k].size.wf(),
    ensures
        quotes_decodable(quotes_bytes(b, q)),
{
    let t = quotes_bytes(b, q);
    let ds = q.depths@;
    lemma_quotes_layout(b, q);
    lemma_quotes_group(b, q);
    crate::structs::instrument::lemma_instrument_encoding_decodable(b, 8, q.symbol);
    lemma_same_region(t, splice(b, 8, instrument_encoding(q.symbol)), 8, 26);
    assert forall|k: int| 0 <= k < group_count(t) implies {
        &&& #[trigger] depth_at(t, k) + 18 <= t.len()
        &&& dec_scale_ok(t, depth_at(t, k))
        &&& dec_scale_ok(t, depth_at(t, k) + 9)
    } by {
        lemma_level_at(t, ds, k);
        lemma_dec_scale_back(t, 46 + 18 * k, ds[k].price);
        lemma_dec_scale_back(t, 46 + 18 * k + 9, ds[k].size);
    }
}

/// Decoding the quotes message that encoding wrote gives the quotes back, when
/// its timestamp and its instrument's expiry read back and its mantissas fit in
/// 64 bits.
pub proof fn lemma_quotes_roundtrip(b: Seq<u8>, q: Quotes, got: Quotes)
    requires
        q.depths@.len() <= 255,
        b.len() >= quotes_length(q.depths@.len() as int),
        forall|k: int|
            0 <= k < q.depths@.len() ==> {
                &&& (#[trigger] q.depths@[k]).price.wf()
                &&& q.depths@[k].size.wf()
                &&& dec_fits(q.depths@[k].price)
                &&& dec_fits(q.depths@[k].size)
            },
        expiry_reads_back(b, 8, q.symbol),
        timestamp_reads_back(b, 34, q.timestamp),
        decodes_quotes(quotes_bytes(b, q), got),
    ensures
        got.symbol == q.symbol,
        got.market_timestamp == q.market_timestamp,
        got.timestamp == q.timestamp,
        got.is_snapshot == q.is_snapshot,
        got.is_l1 == q.is_l1,
        got.depths@ == q.depths@,
{
    let t = quotes_bytes(b, q);
    let ds = q.depths@;
    lemma_quotes_layout(b, q);
    lemma_quotes_group(b, q);
    lemma_same_region(t, splice(b, 8, instrument_encoding(q.symbol)), 8, 26);
    lemma_instrument_roundtrip(b, 8, q.symbol, got.symbol);
    vstd::bytes::lemma_auto_spec_u64_to_from_le_bytes();
    lemma_flags(0, q.is_snapshot);
    lemma_flags(with_bit(0, 0, q.is_snapshot), q.is_l1);
    assert forall|k: int| 0 <= k < ds.len() implies got.depths@[k] == ds[k] by {
        assert(depth_at(t, k) == 46 + 18 * k);
        lemma_level_at(t, ds, k);
        lemma_dec_read_back(t, 46 + 18 * k, ds[k].price, got.depths@[k].price);
        lemma_dec_read_back(t, 46 + 18 * k + 9, ds[k].size, got.depths@[k].size);
    }
    assert(got.depths@ =~= ds);
}

/// The quotes message of `q`, in zeroed bytes of the length of all its levels.
/// The group counts its levels in one byte: past 255 levels, only as many as
/// the count says are kept, the last of them being the last level.
pub fn marshal_quotes(q: Quotes) -> (v: Vec<u8>)
    requires
        depths_writable(q.depths@.len() as int),
        quotes_length(q.depths@.len() as int) <= usize::MAX,
    ensures
        v@ == marshaled_quotes(q),
{
    let all = q.depths.len();
    let n = message_header_codec::ENCODED_LENGTH + SBE_BLOCK_LENGTH as usize
        + DepthsEncoder::<QuoteMsgEncoder>::block_length() as usize * all + 3;
    let mut buffer = vec![0u8; n];
    proof {
        assert(buffer@ =~= zeros(n as int));
    }
    let Quotes { symbol, market_timestamp, timestamp, is_snapshot, is_l1, depths } = q;
    let kept = if all <= 255 {
        depths
    } else {
        let c = all % 256;
        let mut kept: Vec<Depth> = Vec::new();
        let mut k: usize = 0;
        while k + 1 < c
            invariant
                c == all % 256,
                1 <= c <= 255,
                all == depths@.len(),
                k < c,
                kept@ == depths@.take(k as int),
            decreases c - k,
        {
            kept.push(depths[k]);
            k += 1;
            proof {
                assert(kept@ =~= depths@.take(k as int));
            }
        }
        kept.push(depths[all - 1]);
        kept
    };
    proof {
        assert(kept@ =~= written_depths(depths@));
    }
    let written = Quotes { symbol, market_timestamp, timestamp, is_snapshot, is_l1, depths: kept };
    encode_quotes(&mut buffer, written);
    buffer
}

/// Whether the quotes message in `v` can be decoded.
pub fn is_decodable_quotes(v: &[u8]) -> (ok: bool)
    ensures
        ok == quotes_decodable(v@),
{
    let buf = ReadBuf::new(v);
    if v.len() < message_header_codec::ENCODED_LENGTH + SBE_BLOCK_LENGTH as usize {
        return false;
    }
    if buf.get_u16_at(2) != SBE_TEMPLATE_ID {
        return false;
    }
    let instrument_type = v[21];
    if instrument_type != 0 && instrument_type != 1 {
        return false;
    }
    let start = message_header_codec::ENCODED_LENGTH + buf.get_u16_at(0) as usize;
    if start + 3 > v.len() {
        return false;
    }
    let block_length = buf.get_u16_at(start) as usize;
    let count = v[start + 2];
    let ghost b = v@;
    assert(start == group_start(b));
    let mut k: usize = 0;
    while k < count as usize
        invariant
            b == v@,
            buf@ == b,
            start == group_start(b),
            block_length == u16_at(b, start as int),
            count == group_count(b),
            k <= count,
            start <= 8 + 0xffff,
            block_length <= 0xffff,
            forall|j: int|
                0 <= j < k ==> {
                    &&& #[trigger] depth_at(b, j) + 18 <= b.len()
                    &&& dec_scale_ok(b, depth_at(b, j))
                    &&& dec_scale_ok(b, depth_at(b, j) + 9)
                },
        decreases count - k,
    {
        assert(start + 3 + k * block_length + 18 <= usize::MAX) by (nonlinear_arith)
            requires
                start <= 8 + 0xffff,
                block_length <= 0xffff,
                k < 256,
        ;
        let off = start + 3 + k * block_length;
        assert(off == depth_at(b, k as int));
        if off + 18 > v.len() {
            return false;
        }
        let price_scale = buf.get_i8_at(off + 8);
        let size_scale = buf.get_i8_at(off + 17);
        if price_scale < 0 || price_scale > 28 || size_scale < 0 || size_scale > 28 {
            return false;
        }
        k += 1;
    }
    true
}

/// The header of the quotes message that encoding writes: its template, schema
/// and version.
pub proof fn lemma_quotes_ids(b: Seq<u8>, q: Quotes)
    requires
        q.depths@.len() <= 255,
        b.len() >= quotes_length(q.depths@.len() as int),
    ensures
        quotes_bytes(b, q).len() == b.len(),
        u16_at(quotes_bytes(b, q), 2) == SBE_TEMPLATE_ID,
        u16_at(quotes_bytes(b, q), 4) == SBE_SCHEMA_ID,
        u16_at(quotes_bytes(b, q), 6) == SBE_SCHEMA_VERSION,
{
    lemma_quotes_layout(b, q);
    lemma_quotes_group(b, q);
}

} // verus!
