//! The best-bid-and-offer message: instrument, market timestamp, optional
//! timestamp, and the best bid and ask prices and sizes.
use crate::market_api::instrument_codec::{InstrumentDecoder, InstrumentEncoder};
use crate::market_api::dec_codec::{DecDecoder, DecEncoder};
use crate::market_api::message_header_codec::{self, MessageHeaderDecoder, MessageHeaderEncoder};
use crate::market_api::exchange::{lemma_exchange_roundtrip, Exchange};
use crate::market_api::{i64_at, i64_bytes, i8_at, i8_bytes, lemma_read_back, lemma_splice, lemma_splice_keeps, lemma_written_header_reads_back, splice};
use crate::market_api::{header_bytes, lemma_four_u16, u16_at, u64_at, u64_bytes, wrote, Decoder, Encoder, ReadBuf, Reader, WriteBuf, Writer};
use vstd::prelude::*;

verus! {

/// An optional timestamp: 18446744073709551615 stands for none.
pub open spec fn timestamp_value(v: u64) -> Option<u64> {
    if v == 0xffffffffffffffffu64 {
        None
    } else {
        Some(v)
    }
}

/// Whether the timestamp bytes at `off` of `b` read back `t` once it is
/// written: a known timestamp must not be the value that stands for none, and
/// none is not written, so that the bytes must already read as none.
pub open spec fn timestamp_reads_back(b: Seq<u8>, off: int, t: Option<u64>) -> bool {
    match t {
        Some(v) => v != 0xffffffffffffffffu64,
        None => u64_at(b, off) == 0xffffffffffffffffu64,
    }
}

pub const SBE_BLOCK_LENGTH: u16 = 70;

pub const SBE_TEMPLATE_ID: u16 = 1;

pub const SBE_SCHEMA_ID: u16 = 1;

pub const SBE_SCHEMA_VERSION: u16 = 1;

pub struct BboMsgEncoder {
    buf: WriteBuf,
    initial_offset: usize,
    offset: usize,
    limit: usize,
}

impl BboMsgEncoder {
    pub closed spec fn spec_offset(&self) -> usize {
        self.offset
    }

    pub closed spec fn spec_initial_offset(&self) -> usize {
        self.initial_offset
    }

    /// The codec's offset after its buffer or limit is replaced.
    pub proof fn lemma_frame(&self, b: WriteBuf, limit: usize)
        ensures
            self.with_wbuf(b).spec_offset() == self.spec_offset(),
            self.with_limit(limit).spec_offset() == self.spec_offset(),
            self.with_wbuf(b).has_wbuf() == (b@.len() <= usize::MAX),
    {
    }
}

impl Default for BboMsgEncoder {
    fn default() -> (e: Self)
        ensures
            e.wbuf()@ == Seq::<u8>::empty(),
            e.spec_offset() == 0,
            e.limit() == 0,
    {
        BboMsgEncoder { buf: WriteBuf::new(Vec::new()), initial_offset: 0, offset: 0, limit: 0 }
    }
}

impl Writer for BboMsgEncoder {
    closed spec fn wbuf(&self) -> WriteBuf {
        self.buf
    }

    closed spec fn with_wbuf(&self, b: WriteBuf) -> Self {
        BboMsgEncoder { buf: b, ..*self }
    }

    closed spec fn has_wbuf(&self) -> bool {
        self.buf@.len() <= usize::MAX
    }

    proof fn lemma_with_wbuf(&self, b: WriteBuf, c: WriteBuf) {
    }

    fn get_buf_mut(&mut self) -> (b: &mut WriteBuf) {
        &mut self.buf
    }
}

impl Encoder for BboMsgEncoder {
    closed spec fn limit(&self) -> usize {
        self.limit
    }

    closed spec fn with_limit(&self, limit: usize) -> Self {
        BboMsgEncoder { limit, ..*self }
    }

    proof fn lemma_with_limit(&self, limit: usize, b: WriteBuf) {
    }

    fn get_limit(&self) -> (l: usize) {
        self.limit
    }

    fn set_limit(&mut self, limit: usize) {
        self.limit = limit;
    }
}

impl BboMsgEncoder {
    pub fn wrap(self, buf: WriteBuf, offset: usize) -> (e: Self)
        requires
            offset + SBE_BLOCK_LENGTH <= usize::MAX,
        ensures
            e.wbuf() == buf,
            e.has_wbuf(),
            e.spec_offset() == offset,
            e.spec_initial_offset() == offset,
            e.limit() == offset + SBE_BLOCK_LENGTH,
    {
        let _n = buf.len();
        let limit = offset + SBE_BLOCK_LENGTH as usize;
        let mut s = self;
        s.buf = buf;
        s.initial_offset = offset;
        s.offset = offset;
        s.limit = limit;
        s
    }

    pub fn encoded_length(&self) -> (n: usize)
        requires
            self.limit() >= self.spec_offset(),
        ensures
            n == self.limit() - self.spec_offset(),
    {
        self.limit - self.offset
    }

    /// Hands back the buffer written into.
    pub fn into_buf(self) -> (b: WriteBuf)
        ensures
            b == self.wbuf(),
    {
        self.buf
    }

    /// Writes the message header at `offset`.
    pub fn header(self, offset: usize) -> (h: MessageHeaderEncoder<Self>)
        requires
            self.has_wbuf(),
            offset + 8 <= self.wbuf()@.len(),
        ensures
            h.spec_offset() == offset,
            h.spec_parent() is Some,
            wrote(
                self,
                h.spec_parent().unwrap(),
                offset as int,
                header_bytes(SBE_BLOCK_LENGTH, SBE_TEMPLATE_ID, SBE_SCHEMA_ID, SBE_SCHEMA_VERSION),
            ),
    {
        let ghost me = self;
        let mut header = MessageHeaderEncoder::default().wrap(self, offset);
        let ghost w0 = header;
        header.block_length(SBE_BLOCK_LENGTH);
        let ghost w1 = header;
        header.template_id(SBE_TEMPLATE_ID);
        let ghost w2 = header;
        header.schema_id(SBE_SCHEMA_ID);
        let ghost w3 = header;
        header.version(SBE_SCHEMA_VERSION);
        proof {
            lemma_four_u16(w0, w1, w2, w3, header, offset as int, SBE_BLOCK_LENGTH, SBE_TEMPLATE_ID, SBE_SCHEMA_ID, SBE_SCHEMA_VERSION);
            w0.lemma_frame(header.wbuf());
        }
        header
    }

    pub fn instrument_encoder(self) -> (c: InstrumentEncoder<Self>)
        requires
            self.spec_offset() <= usize::MAX,
        ensures
            c.spec_parent() == Some(self),
            c.spec_offset() == self.spec_offset(),
    {
        let offset = self.offset;
        InstrumentEncoder::default().wrap(self, offset)
    }

    pub fn market_timestamp(&mut self, value: u64)
        requires
            old(self).has_wbuf(),
            old(self).spec_offset() + 26 <= old(self).wbuf()@.len(),
        ensures
            wrote(*old(self), *final(self), old(self).spec_offset() + 18, u64_bytes(value)),
    {
        let offset = self.offset + 18;
        self.buf.put_u64_at(offset, value);
    }

    pub fn timestamp(&mut self, value: u64)
        requires
            old(self).has_wbuf(),
            old(self).spec_offset() + 34 <= old(self).wbuf()@.len(),
        ensures
            wrote(*old(self), *final(self), old(self).spec_offset() + 26, u64_bytes(value)),
    {
        let offset = self.offset + 26;
        self.buf.put_u64_at(offset, value);
    }

    pub fn bid_price_encoder(self) -> (c: DecEncoder<Self>)
        requires
            self.spec_offset() + 34 <= usize::MAX,
        ensures
            c.spec_parent() == Some(self),
            c.spec_offset() == self.spec_offset() + 34,
    {
        let offset = self.offset + 34;
        DecEncoder::default().wrap(self, offset)
    }

    pub fn bid_size_encoder(self) -> (c: DecEncoder<Self>)
        requires
            self.spec_offset() + 43 <= usize::MAX,
        ensures
            c.spec_parent() == Some(self),
            c.spec_offset() == self.spec_offset() + 43,
    {
        let offset = self.offset + 43;
        DecEncoder::default().wrap(self, offset)
    }

    pub fn ask_price_encoder(self) -> (c: DecEncoder<Self>)
        requires
            self.spec_offset() + 52 <= usize::MAX,
        ensures
            c.spec_parent() == Some(self),
            c.spec_offset() == self.spec_offset() + 52,
    {
        let offset = self.offset + 52;
        DecEncoder::default().wrap(self, offset)
    }

    pub fn ask_size_encoder(self) -> (c: DecEncoder<Self>)
        requires
            self.spec_offset() + 61 <= usize::MAX,
        ensures
            c.spec_parent() == Some(self),
            c.spec_offset() == self.spec_offset() + 61,
    {
        let offset = self.offset + 61;
        DecEncoder::default().wrap(self, offset)
    }

}

pub struct BboMsgDecoder<'a> {
    buf: ReadBuf<'a>,
    initial_offset: usize,
    offset: usize,
    limit: usize,
    pub acting_block_length: u16,
    pub acting_version: u16,
}

impl<'a> BboMsgDecoder<'a> {
    pub closed spec fn spec_offset(&self) -> usize {
        self.offset
    }

    pub closed spec fn spec_initial_offset(&self) -> usize {
        self.initial_offset
    }

    pub closed spec fn spec_acting_version(&self) -> u16 {
        self.acting_version
    }

    pub closed spec fn spec_acting_block_length(&self) -> u16 {
        self.acting_block_length
    }

    pub proof fn lemma_frame(&self, limit: usize)
        ensures
            self.with_limit(limit).spec_offset() == self.spec_offset(),
            self.with_limit(limit).spec_acting_version() == self.spec_acting_version(),
            self.with_limit(limit).spec_acting_block_length() == self.spec_acting_block_length(),
    {
    }
}

impl<'a> Default for BboMsgDecoder<'a> {
    fn default() -> (d: Self)
        ensures
            d.rbuf() == Seq::<u8>::empty(),
            d.spec_offset() == 0,
            d.limit() == 0,
    {
        let empty: &[u8] = &[];
        BboMsgDecoder {
            buf: ReadBuf::new(empty),
            initial_offset: 0,
            offset: 0,
            limit: 0,
            acting_block_length: 0,
            acting_version: 0,
        }
    }
}

impl<'a> Reader<'a> for BboMsgDecoder<'a> {
    closed spec fn rbuf(&self) -> Seq<u8> {
        self.buf@
    }

    closed spec fn has_rbuf(&self) -> bool {
        self.buf@.len() <= usize::MAX
    }

    proof fn lemma_rbuf_len(&self) {
    }

    fn get_buf(&self) -> (b: &ReadBuf<'a>) {
        &self.buf
    }
}

impl<'a> Decoder<'a> for BboMsgDecoder<'a> {
    closed spec fn limit(&self) -> usize {
        self.limit
    }

    closed spec fn with_limit(&self, limit: usize) -> Self {
        BboMsgDecoder { limit, ..*self }
    }

    proof fn lemma_with_limit(&self, limit: usize) {
    }

    fn get_limit(&self) -> (l: usize) {
        self.limit
    }

    fn set_limit(&mut self, limit: usize) {
        self.limit = limit;
    }
}

impl<'a> BboMsgDecoder<'a> {
    pub fn wrap(
        self,
        buf: ReadBuf<'a>,
        offset: usize,
        acting_block_length: u16,
        acting_version: u16,
    ) -> (d: Self)
        requires
            offset + acting_block_length <= usize::MAX,
        ensures
            d.rbuf() == buf@,
            d.has_rbuf(),
            d.spec_offset() == offset,
            d.spec_initial_offset() == offset,
            d.limit() == offset + acting_block_length,
            d.spec_acting_block_length() == acting_block_length,
            d.spec_acting_version() == acting_version,
    {
        let _n = buf.len();
        let limit = offset + acting_block_length as usize;
        let mut s = self;
        s.buf = buf;
        s.initial_offset = offset;
        s.offset = offset;
        s.limit = limit;
        s.acting_block_length = acting_block_length;
        s.acting_version = acting_version;
        s
    }

    pub fn encoded_length(&self) -> (n: usize)
        requires
            self.limit() >= self.spec_offset(),
        ensures
            n == self.limit() - self.spec_offset(),
    {
        self.limit - self.offset
    }

    /// Reads the message from the buffer that holds `header`, the message
    /// starting right after the header, with the header's block length and version.
    pub fn header(self, header: MessageHeaderDecoder<ReadBuf<'a>>) -> (d: Self)
        requires
            header.spec_parent() is Some,
            header.has_rbuf(),
            header.spec_offset() + 8 <= header.rbuf().len(),
            u16_at(header.rbuf(), header.spec_offset() + 2) == SBE_TEMPLATE_ID,
        ensures
            d.rbuf() == header.rbuf(),
            d.has_rbuf(),
            d.spec_offset() == message_header_codec::ENCODED_LENGTH,
            d.limit() == message_header_codec::ENCODED_LENGTH + u16_at(header.rbuf(), header.spec_offset() as int),
            d.spec_acting_block_length() == u16_at(header.rbuf(), header.spec_offset() as int),
            d.spec_acting_version() == u16_at(header.rbuf(), header.spec_offset() + 6),
    {
        let mut header = header;
        let acting_block_length = header.block_length();
        let acting_version = header.version();
        proof {
            header.lemma_reader();
        }
        let parent = header.parent().unwrap();
        self.wrap(parent, message_header_codec::ENCODED_LENGTH, acting_block_length, acting_version)
    }

    pub fn instrument_decoder(self) -> (c: InstrumentDecoder<Self>)
        requires
            self.spec_offset() <= usize::MAX,
        ensures
            c.spec_parent() == Some(self),
            c.spec_offset() == self.spec_offset(),
    {
        let offset = self.offset;
        InstrumentDecoder::default().wrap(self, offset)
    }

    pub fn market_timestamp(&self) -> (v: u64)
        requires
            self.has_rbuf(),
            self.spec_offset() + 26 <= self.rbuf().len(),
        ensures
            v == u64_at(self.rbuf(), self.spec_offset() + 18),
    {
        self.buf.get_u64_at(self.offset + 18)
    }

    /// Optional: 18446744073709551615 stands for none.
    pub fn timestamp(&self) -> (v: Option<u64>)
        requires
            self.has_rbuf(),
            self.spec_offset() + 34 <= self.rbuf().len(),
        ensures
            v == timestamp_value(u64_at(self.rbuf(), self.spec_offset() + 26)),
    {
        let value = self.buf.get_u64_at(self.offset + 26);
        if value == 0xffffffffffffffffu64 {
            None
        } else {
            Some(value)
        }
    }

    pub fn bid_price_decoder(self) -> (c: DecDecoder<Self>)
        requires
            self.spec_offset() + 34 <= usize::MAX,
        ensures
            c.spec_parent() == Some(self),
            c.spec_offset() == self.spec_offset() + 34,
    {
        let offset = self.offset + 34;
        DecDecoder::default().wrap(self, offset)
    }

    pub fn bid_size_decoder(self) -> (c: DecDecoder<Self>)
        requires
            self.spec_offset() + 43 <= usize::MAX,
        ensures
            c.spec_parent() == Some(self),
            c.spec_offset() == self.spec_offset() + 43,
    {
        let offset = self.offset + 43;
        DecDecoder::default().wrap(self, offset)
    }

    pub fn ask_price_decoder(self) -> (c: DecDecoder<Self>)
        requires
            self.spec_offset() + 52 <= usize::MAX,
        ensures
            c.spec_parent() == Some(self),
            c.spec_offset() == self.spec_offset() + 52,
    {
        let offset = self.offset + 52;
        DecDecoder::default().wrap(self, offset)
    }

    pub fn ask_size_decoder(self) -> (c: DecDecoder<Self>)
        requires
            self.spec_offset() + 61 <= usize::MAX,
        ensures
            c.spec_parent() == Some(self),
            c.spec_offset() == self.spec_offset() + 61,
    {
        let offset = self.offset + 61;
        DecDecoder::default().wrap(self, offset)
    }

}

/// However many fields are written into a BBO message, its length stays the
/// block length, 70: each write leaves the encoder as it was but for its
/// buffer, so its offset and limit stay.
pub proof fn lemma_bbo_length_kept(es: Seq<BboMsgEncoder>)
    requires
        es.len() >= 1,
        es[0].has_wbuf(),
        es[0].limit() == es[0].spec_offset() + SBE_BLOCK_LENGTH,
        forall|i: int, j: int|
            0 <= i && j == i + 1 && j < es.len() ==> #[trigger] es[j] == #[trigger] es[i].with_wbuf(
                es[j].wbuf(),
            ),
    ensures
        forall|k: int|
            0 <= k < es.len() ==> {
                &&& (#[trigger] es[k]).limit() >= es[k].spec_offset()
                &&& es[k].limit() - es[k].spec_offset() == SBE_BLOCK_LENGTH
            },
    decreases es.len(),
{
    if es.len() > 1 {
        let m = es.len() - 1;
        lemma_bbo_length_kept(es.drop_last());
        assert(es.drop_last()[m - 1] == es[m - 1]);
        assert(es.drop_last()[0] == es[0]);
        assert(es[m] == es[m - 1].with_wbuf(es[m].wbuf()));
        assert forall|k: int| 0 <= k < es.len() implies {
            &&& (#[trigger] es[k]).limit() >= es[k].spec_offset()
            &&& es[k].limit() - es[k].spec_offset() == SBE_BLOCK_LENGTH
        } by {
            if k < m {
                assert(es.drop_last()[k] == es[k]);
            }
        }
    }
}

/// The header that a BBO encoder writes reads back as block length 70,
/// template 1, schema 1 and version 1, and the encoder handed back keeps its
/// offset and limit.
pub proof fn lemma_bbo_header_reads_back<'a>(
    e: BboMsgEncoder,
    p: BboMsgEncoder,
    offset: usize,
    d: MessageHeaderDecoder<ReadBuf<'a>>,
)
    requires
        e.has_wbuf(),
        offset + 8 <= e.wbuf()@.len(),
        wrote(
            e,
            p,
            offset as int,
            header_bytes(SBE_BLOCK_LENGTH, SBE_TEMPLATE_ID, SBE_SCHEMA_ID, SBE_SCHEMA_VERSION),
        ),
        d.rbuf() == p.wbuf()@,
        d.spec_offset() == offset,
    ensures
        u16_at(d.rbuf(), offset as int) == 70,
        u16_at(d.rbuf(), offset + 2) == 1,
        u16_at(d.rbuf(), offset + 4) == 1,
        u16_at(d.rbuf(), offset + 6) == 1,
        p.spec_offset() == e.spec_offset(),
        p.limit() == e.limit(),
{
    lemma_written_header_reads_back(e.wbuf()@, offset as int, 70, 1, 1, 1);
}

/// The exchange and quote written through a BBO message's instrument encoder
/// are what the instrument decoder of a BBO decoder at the same offset reads;
/// the decoder under it keeps the block length, 70.
pub proof fn lemma_bbo_instrument_reads_back<'a>(
    e: BboMsgEncoder,
    i0: InstrumentEncoder<BboMsgEncoder>,
    i1: InstrumentEncoder<BboMsgEncoder>,
    i2: InstrumentEncoder<BboMsgEncoder>,
    x: Exchange,
    q: [u8; 6],
    d: BboMsgDecoder<'a>,
    id: InstrumentDecoder<BboMsgDecoder<'a>>,
)
    requires
        e.has_wbuf(),
        e.spec_offset() + SBE_BLOCK_LENGTH <= e.wbuf()@.len(),
        i0.spec_parent() == Some(e),
        i0.spec_offset() == e.spec_offset(),
        wrote(i0, i1, e.spec_offset() as int, seq![x.spec_to_u8()]),
        wrote(i1, i2, e.spec_offset() + 1, q@),
        d.rbuf() == i2.wbuf()@,
        d.has_rbuf(),
        d.spec_offset() == e.spec_offset(),
        d.limit() == d.spec_offset() + SBE_BLOCK_LENGTH,
        id.spec_parent() == Some(d),
        id.spec_offset() == d.spec_offset(),
    ensures
        Exchange::spec_from_u8(id.rbuf()[id.spec_offset() as int]) == x,
        id.rbuf().subrange(id.spec_offset() + 1, id.spec_offset() + 7) == q@,
        id.spec_parent().unwrap().limit() - id.spec_parent().unwrap().spec_offset() == 70,
{
    let off = e.spec_offset() as int;
    i0.lemma_parent();
    id.lemma_reader();
    let s0 = e.wbuf()@;
    let s1 = splice(s0, off, seq![x.spec_to_u8()]);
    lemma_splice(s0, off, seq![x.spec_to_u8()]);
    lemma_splice(s1, off + 1, q@);
    lemma_splice_keeps(s1, off + 1, q@, off, 1);
    assert(s1.subrange(off, off + 1)[0] == s1[off]);
    lemma_exchange_roundtrip(x);
}

/// The mantissa and exponent written through a BBO message's bid price
/// encoder are what the bid price decoder of a BBO decoder at the same offset
/// reads, 34 bytes into the message.
pub proof fn lemma_bbo_bid_price_reads_back<'a>(
    e: BboMsgEncoder,
    p0: DecEncoder<BboMsgEncoder>,
    p1: DecEncoder<BboMsgEncoder>,
    p2: DecEncoder<BboMsgEncoder>,
    m: i64,
    x: i8,
    d: BboMsgDecoder<'a>,
    pd: DecDecoder<BboMsgDecoder<'a>>,
)
    requires
        e.has_wbuf(),
        e.spec_offset() + SBE_BLOCK_LENGTH <= e.wbuf()@.len(),
        p0.spec_parent() == Some(e),
        p0.spec_offset() == e.spec_offset() + 34,
        wrote(p0, p1, e.spec_offset() + 34, i64_bytes(m)),
        wrote(p1, p2, e.spec_offset() + 42, i8_bytes(x)),
        d.rbuf() == p2.wbuf()@,
        d.has_rbuf(),
        d.spec_offset() == e.spec_offset(),
        pd.spec_parent() == Some(d),
        pd.spec_offset() == d.spec_offset() + 34,
    ensures
        pd.spec_offset() == e.spec_offset() + 34,
        i64_at(pd.rbuf(), pd.spec_offset() as int) == m,
        i8_at(pd.rbuf(), pd.spec_offset() + 8) == x,
{
    let off = e.spec_offset() + 34;
    p0.lemma_parent();
    pd.lemma_reader();
    let s0 = e.wbuf()@;
    crate::market_api::lemma_encodings_len(0, 0, 0, m);
    let s1 = splice(s0, off, i64_bytes(m));
    lemma_splice(s0, off, i64_bytes(m));
    lemma_read_back(s0, off, 0, 0, 0, m);
    lemma_splice(s1, off + 8, i8_bytes(x));
    lemma_splice_keeps(s1, off + 8, i8_bytes(x), off, 8);
    let s2 = splice(s1, off + 8, i8_bytes(x));
    assert(s2.subrange(off, off + 8) == s1.subrange(off, off + 8));
    let b = x as u8;
    assert(s2[off + 8] == b);
    assert(b as i8 == x) by (bit_vector)
        requires
            b == x as u8,
    ;
}

} // verus!
