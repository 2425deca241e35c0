//! The book message: symbol, market timestamp, optional timestamp, flags, and
//! a group of price levels (price and size each).
use crate::market_api::bbo_msg_codec::timestamp_value;
use crate::market_api::orderbook_flags::Orderbook_flags;
use crate::market_api::symbol_codec::{SymbolDecoder, SymbolEncoder};
use crate::market_api::dec_codec::{DecDecoder, DecEncoder};
use crate::market_api::message_header_codec::{self, MessageHeaderDecoder, MessageHeaderEncoder};
use crate::market_api::{header_bytes, lemma_four_u16, u16_at, u64_at, u64_bytes, wrote, Decoder, Encoder, ReadBuf, Reader, WriteBuf, Writer};
use crate::market_api::{lemma_encodings_len, lemma_splice, lemma_wrote_twice, lemma_written_header_reads_back, u16_bytes, SbeErr, SbeResult};
use vstd::prelude::*;

verus! {

pub const SBE_BLOCK_LENGTH: u16 = 35;

pub const SBE_TEMPLATE_ID: u16 = 3;

pub const SBE_SCHEMA_ID: u16 = 1;

pub const SBE_SCHEMA_VERSION: u16 = 1;

pub struct OrderbookMsgEncoder {
    buf: WriteBuf,
    initial_offset: usize,
    offset: usize,
    limit: usize,
}

impl OrderbookMsgEncoder {
    pub closed spec fn spec_offset(&self) -> usize {
        self.offset
    }

    pub closed spec fn spec_initial_offset(&self) -> usize {
        self.initial_offset
    }

    /// The codec's offset after its buffer or limit is replaced.
    pub proof fn lemma_frame(&self, b: WriteBuf, limit: usize)
        ensures
            self.with_wbuf(b).spec_offset() == self.spec_offset(),
            self.with_limit(limit).spec_offset() == self.spec_offset(),
            self.with_wbuf(b).has_wbuf() == (b@.len() <= usize::MAX),
    {
    }
}

impl Default for OrderbookMsgEncoder {
    fn default() -> (e: Self)
        ensures
            e.wbuf()@ == Seq::<u8>::empty(),
            e.spec_offset() == 0,
            e.limit() == 0,
    {
        OrderbookMsgEncoder { buf: WriteBuf::new(Vec::new()), initial_offset: 0, offset: 0, limit: 0 }
    }
}

impl Writer for OrderbookMsgEncoder {
    closed spec fn wbuf(&self) -> WriteBuf {
        self.buf
    }

    closed spec fn with_wbuf(&self, b: WriteBuf) -> Self {
        OrderbookMsgEncoder { buf: b, ..*self }
    }

    closed spec fn has_wbuf(&self) -> bool {
        self.buf@.len() <= usize::MAX
    }

    proof fn lemma_with_wbuf(&self, b: WriteBuf, c: WriteBuf) {
    }

    fn get_buf_mut(&mut self) -> (b: &mut WriteBuf) {
        &mut self.buf
    }
}

impl Encoder for OrderbookMsgEncoder {
    closed spec fn limit(&self) -> usize {
        self.limit
    }

    closed spec fn with_limit(&self, limit: usize) -> Self {
        OrderbookMsgEncoder { limit, ..*self }
    }

    proof fn lemma_with_limit(&self, limit: usize, b: WriteBuf) {
    }

    fn get_limit(&self) -> (l: usize) {
        self.limit
    }

    fn set_limit(&mut self, limit: usize) {
        self.limit = limit;
    }
}

impl OrderbookMsgEncoder {
    pub fn wrap(self, buf: WriteBuf, offset: usize) -> (e: Self)
        requires
            offset + SBE_BLOCK_LENGTH <= usize::MAX,
        ensures
            e.wbuf() == buf,
            e.has_wbuf(),
            e.spec_offset() == offset,
            e.spec_initial_offset() == offset,
            e.limit() == offset + SBE_BLOCK_LENGTH,
    {
        let _n = buf.len();
        let limit = offset + SBE_BLOCK_LENGTH as usize;
        let mut s = self;
        s.buf = buf;
        s.initial_offset = offset;
        s.offset = offset;
        s.limit = limit;
        s
    }

    pub fn encoded_length(&self) -> (n: usize)
        requires
            self.limit() >= self.spec_offset(),
        ensures
            n == self.limit() - self.spec_offset(),
    {
        self.limit - self.offset
    }

    /// Hands back the buffer written into.
    pub fn into_buf(self) -> (b: WriteBuf)
        ensures
            b == self.wbuf(),
    {
        self.buf
    }

    /// Writes the message header at `offset`.
    pub fn header(self, offset: usize) -> (h: MessageHeaderEncoder<Self>)
        requires
            self.has_wbuf(),
            offset + 8 <= self.wbuf()@.len(),
        ensures
            h.spec_offset() == offset,
            h.spec_parent() is Some,
            wrote(
                self,
                h.spec_parent().unwrap(),
                offset as int,
                header_bytes(SBE_BLOCK_LENGTH, SBE_TEMPLATE_ID, SBE_SCHEMA_ID, SBE_SCHEMA_VERSION),
            ),
    {
        let ghost me = self;
        let mut header = MessageHeaderEncoder::default().wrap(self, offset);
        let ghost w0 = header;
        header.block_length(SBE_BLOCK_LENGTH);
        let ghost w1 = header;
        header.template_id(SBE_TEMPLATE_ID);
        let ghost w2 = header;
        header.schema_id(SBE_SCHEMA_ID);
        let ghost w3 = header;
        header.version(SBE_SCHEMA_VERSION);
        proof {
            lemma_four_u16(w0, w1, w2, w3, header, offset as int, SBE_BLOCK_LENGTH, SBE_TEMPLATE_ID, SBE_SCHEMA_ID, SBE_SCHEMA_VERSION);
            w0.lemma_frame(header.wbuf());
        }
        header
    }

    pub fn symbol_encoder(self) -> (c: SymbolEncoder<Self>)
        requires
            self.spec_offset() <= usize::MAX,
        ensures
            c.spec_parent() == Some(self),
            c.spec_offset() == self.spec_offset(),
    {
        let offset = self.offset;
        SymbolEncoder::default().wrap(self, offset)
    }

    pub fn market_timestamp(&mut self, value: u64)
        requires
            old(self).has_wbuf(),
            old(self).spec_offset() + 26 <= old(self).wbuf()@.len(),
        ensures
            wrote(*old(self), *final(self), old(self).spec_offset() + 18, u64_bytes(value)),
    {
        let offset = self.offset + 18;
        self.buf.put_u64_at(offset, value);
    }

    pub fn timestamp(&mut self, value: u64)
        requires
            old(self).has_wbuf(),
            old(self).spec_offset() + 34 <= old(self).wbuf()@.len(),
        ensures
            wrote(*old(self), *final(self), old(self).spec_offset() + 26, u64_bytes(value)),
    {
        let offset = self.offset + 26;
        self.buf.put_u64_at(offset, value);
    }

    pub fn orderbook_flags(&mut self, value: Orderbook_flags)
        requires
            old(self).has_wbuf(),
            old(self).spec_offset() + 35 <= old(self).wbuf()@.len(),
        ensures
            wrote(*old(self), *final(self), old(self).spec_offset() + 34, seq![value.0]),
    {
        let offset = self.offset + 34;
        self.buf.put_u8_at(offset, value.0);
    }

    pub fn depths_encoder(self, count: u8, depths_encoder: DepthsEncoder<Self>) -> (g: DepthsEncoder<Self>)
        requires
            self.has_wbuf(),
            self.limit() + 3 <= self.wbuf()@.len(),
        ensures
            g.spec_parent() is Some,
            wrote(
                self.with_limit((self.limit() + 3) as usize),
                g.spec_parent().unwrap(),
                self.limit() as int,
                u16_bytes(DepthsEncoder::<Self>::spec_block_length()) + seq![count],
            ),
            g.spec_count() == count,
            g.spec_index() == usize::MAX,
            g.spec_initial_limit() == self.limit(),
            g.has_wbuf(),
            g.wbuf()@.len() == self.wbuf()@.len(),
            g.limit() == self.limit() + 3,
    {
        depths_encoder.wrap(self, count)
    }

}

pub struct OrderbookMsgDecoder<'a> {
    buf: ReadBuf<'a>,
    initial_offset: usize,
    offset: usize,
    limit: usize,
    pub acting_block_length: u16,
    pub acting_version: u16,
}

impl<'a> OrderbookMsgDecoder<'a> {
    pub closed spec fn spec_offset(&self) -> usize {
        self.offset
    }

    pub closed spec fn spec_initial_offset(&self) -> usize {
        self.initial_offset
    }

    pub closed spec fn spec_acting_version(&self) -> u16 {
        self.acting_version
    }

    pub closed spec fn spec_acting_block_length(&self) -> u16 {
        self.acting_block_length
    }

    pub proof fn lemma_frame(&self, limit: usize)
        ensures
            self.with_limit(limit).spec_offset() == self.spec_offset(),
            self.with_limit(limit).spec_acting_version() == self.spec_acting_version(),
            self.with_limit(limit).spec_acting_block_length() == self.spec_acting_block_length(),
    {
    }
}

impl<'a> Default for OrderbookMsgDecoder<'a> {
    fn default() -> (d: Self)
        ensures
            d.rbuf() == Seq::<u8>::empty(),
            d.spec_offset() == 0,
            d.limit() == 0,
    {
        let empty: &[u8] = &[];
        OrderbookMsgDecoder {
            buf: ReadBuf::new(empty),
            initial_offset: 0,
            offset: 0,
            limit: 0,
            acting_block_length: 0,
            acting_version: 0,
        }
    }
}

impl<'a> Reader<'a> for OrderbookMsgDecoder<'a> {
    closed spec fn rbuf(&self) -> Seq<u8> {
        self.buf@
    }

    closed spec fn has_rbuf(&self) -> bool {
        self.buf@.len() <= usize::MAX
    }

    proof fn lemma_rbuf_len(&self) {
    }

    fn get_buf(&self) -> (b: &ReadBuf<'a>) {
        &self.buf
    }
}

impl<'a> Decoder<'a> for OrderbookMsgDecoder<'a> {
    closed spec fn limit(&self) -> usize {
        self.limit
    }

    closed spec fn with_limit(&self, limit: usize) -> Self {
        OrderbookMsgDecoder { limit, ..*self }
    }

    proof fn lemma_with_limit(&self, limit: usize) {
    }

    fn get_limit(&self) -> (l: usize) {
        self.limit
    }

    fn set_limit(&mut self, limit: usize) {
        self.limit = limit;
    }
}

impl<'a> OrderbookMsgDecoder<'a> {
    pub fn wrap(
        self,
        buf: ReadBuf<'a>,
        offset: usize,
        acting_block_length: u16,
        acting_version: u16,
    ) -> (d: Self)
        requires
            offset + acting_block_length <= usize::MAX,
        ensures
            d.rbuf() == buf@,
            d.has_rbuf(),
            d.spec_offset() == offset,
            d.spec_initial_offset() == offset,
            d.limit() == offset + acting_block_length,
            d.spec_acting_block_length() == acting_block_length,
            d.spec_acting_version() == acting_version,
    {
        let _n = buf.len();
        let limit = offset + acting_block_length as usize;
        let mut s = self;
        s.buf = buf;
        s.initial_offset = offset;
        s.offset = offset;
        s.limit = limit;
        s.acting_block_length = acting_block_length;
        s.acting_version = acting_version;
        s
    }

    pub fn encoded_length(&self) -> (n: usize)
        requires
            self.limit() >= self.spec_offset(),
        ensures
            n == self.limit() - self.spec_offset(),
    {
        self.limit - self.offset
    }

    /// Reads the message from the buffer that holds `header`, the message
    /// starting right after the header, with the header's block length and version.
    pub fn header(self, header: MessageHeaderDecoder<ReadBuf<'a>>) -> (d: Self)
        requires
            header.spec_parent() is Some,
            header.has_rbuf(),
            header.spec_offset() + 8 <= header.rbuf().len(),
            u16_at(header.rbuf(), header.spec_offset() + 2) == SBE_TEMPLATE_ID,
        ensures
            d.rbuf() == header.rbuf(),
            d.has_rbuf(),
            d.spec_offset() == message_header_codec::ENCODED_LENGTH,
            d.limit() == message_header_codec::ENCODED_LENGTH + u16_at(header.rbuf(), header.spec_offset() as int),
            d.spec_acting_block_length() == u16_at(header.rbuf(), header.spec_offset() as int),
            d.spec_acting_version() == u16_at(header.rbuf(), header.spec_offset() + 6),
    {
        let mut header = header;
        let acting_block_length = header.block_length();
        let acting_version = header.version();
        proof {
            header.lemma_reader();
        }
        let parent = header.parent().unwrap();
        self.wrap(parent, message_header_codec::ENCODED_LENGTH, acting_block_length, acting_version)
    }

    pub fn symbol_decoder(self) -> (c: SymbolDecoder<Self>)
        requires
            self.spec_offset() <= usize::MAX,
        ensures
            c.spec_parent() == Some(self),
            c.spec_offset() == self.spec_offset(),
    {
        let offset = self.offset;
        SymbolDecoder::default().wrap(self, offset)
    }

    pub fn market_timestamp(&self) -> (v: u64)
        requires
            self.has_rbuf(),
            self.spec_offset() + 26 <= self.rbuf().len(),
        ensures
            v == u64_at(self.rbuf(), self.spec_offset() + 18),
    {
        self.buf.get_u64_at(self.offset + 18)
    }

    /// Optional: 18446744073709551615 stands for none.
    pub fn timestamp(&self) -> (v: Option<u64>)
        requires
            self.has_rbuf(),
            self.spec_offset() + 34 <= self.rbuf().len(),
        ensures
            v == timestamp_value(u64_at(self.rbuf(), self.spec_offset() + 26)),
    {
        let value = self.buf.get_u64_at(self.offset + 26);
        if value == 0xffffffffffffffffu64 {
            None
        } else {
            Some(value)
        }
    }

    pub fn orderbook_flags(&self) -> (v: Orderbook_flags)
        requires
            self.has_rbuf(),
            self.spec_offset() + 35 <= self.rbuf().len(),
        ensures
            v.0 == self.rbuf()[self.spec_offset() + 34],
    {
        Orderbook_flags::new(self.buf.get_u8_at(self.offset + 34))
    }

    pub fn depths_decoder(self) -> (g: DepthsDecoder<Self>)
        requires
            self.has_rbuf(),
            self.limit() + 3 <= self.rbuf().len(),
        ensures
            g.spec_parent() == Some(self.with_limit((self.limit() + 3) as usize)),
            g.spec_block_length() == u16_at(self.rbuf(), self.limit() as int),
            g.spec_count() == self.rbuf()[self.limit() + 2],
            g.spec_index() == usize::MAX,
            g.spec_acting_version() == self.spec_acting_version(),
            g.has_rbuf(),
            g.rbuf() == self.rbuf(),
            g.limit() == self.limit() + 3,
    {
        let acting_version = self.acting_version;
        DepthsDecoder::default().wrap(self, acting_version as usize)
    }

}

/// The price levels of a book message, 18 bytes each.
pub struct DepthsEncoder<P> {
    parent: Option<P>,
    count: u8,
    index: usize,
    offset: usize,
    initial_limit: usize,
}

impl<P> DepthsEncoder<P> {
    pub closed spec fn spec_parent(&self) -> Option<P> {
        self.parent
    }

    pub closed spec fn spec_count(&self) -> u8 {
        self.count
    }

    pub closed spec fn spec_index(&self) -> usize {
        self.index
    }

    pub closed spec fn spec_offset(&self) -> usize {
        self.offset
    }

    pub closed spec fn spec_initial_limit(&self) -> usize {
        self.initial_limit
    }

    pub open spec fn spec_block_length() -> u16 {
        18
    }

    pub fn block_length() -> (n: u16)
        ensures
            n == Self::spec_block_length(),
    {
        18
    }
}

impl<P> Default for DepthsEncoder<P> {
    fn default() -> (e: Self)
        ensures
            e.spec_parent() is None,
    {
        DepthsEncoder { parent: None, count: 0, index: 0, offset: 0, initial_limit: 0 }
    }
}

impl<P: Writer> Writer for DepthsEncoder<P> {
    closed spec fn wbuf(&self) -> WriteBuf {
        self.parent.unwrap().wbuf()
    }

    closed spec fn with_wbuf(&self, b: WriteBuf) -> Self {
        DepthsEncoder { parent: Some(self.parent.unwrap().with_wbuf(b)), ..*self }
    }

    closed spec fn has_wbuf(&self) -> bool {
        self.parent is Some && self.parent.unwrap().has_wbuf()
    }

    proof fn lemma_with_wbuf(&self, b: WriteBuf, c: WriteBuf) {
        self.parent.unwrap().lemma_with_wbuf(b, c);
    }

    fn get_buf_mut(&mut self) -> (b: &mut WriteBuf) {
        match &mut self.parent {
            Some(parent) => parent.get_buf_mut(),
            None => vstd::pervasive::unreached(),
        }
    }
}

impl<P: Encoder> Encoder for DepthsEncoder<P> {
    closed spec fn limit(&self) -> usize {
        self.parent.unwrap().limit()
    }

    closed spec fn with_limit(&self, limit: usize) -> Self {
        DepthsEncoder { parent: Some(self.parent.unwrap().with_limit(limit)), ..*self }
    }

    proof fn lemma_with_limit(&self, limit: usize, b: WriteBuf) {
        self.parent.unwrap().lemma_with_limit(limit, b);
    }

    fn get_limit(&self) -> (l: usize) {
        match &self.parent {
            Some(parent) => parent.get_limit(),
            None => vstd::pervasive::unreached(),
        }
    }

    fn set_limit(&mut self, limit: usize) {
        match &mut self.parent {
            Some(parent) => parent.set_limit(limit),
            None => vstd::pervasive::unreached(),
        }
    }
}

impl<P: Encoder> DepthsEncoder<P> {
    /// The codec writes its parent's buffer, up to its parent's limit.
    pub proof fn lemma_parent(&self)
        ensures
            self.has_wbuf() <==> (self.spec_parent() is Some && self.spec_parent().unwrap().has_wbuf()),
            self.spec_parent() is Some ==> self.wbuf() == self.spec_parent().unwrap().wbuf(),
            self.spec_parent() is Some ==> self.limit() == self.spec_parent().unwrap().limit(),
    {
    }

    /// The codec's fields after its buffer is replaced.
    pub proof fn lemma_frame(&self, b: WriteBuf)
        requires
            self.has_wbuf(),
        ensures
            self.with_wbuf(b).spec_offset() == self.spec_offset(),
            self.with_wbuf(b).spec_index() == self.spec_index(),
            self.with_wbuf(b).spec_count() == self.spec_count(),
            self.with_wbuf(b).spec_parent() == Some(self.spec_parent().unwrap().with_wbuf(b)),
            self.wbuf() == self.spec_parent().unwrap().wbuf(),
            self.limit() == self.spec_parent().unwrap().limit(),
            self.spec_parent().unwrap().has_wbuf(),
    {
    }

    /// Starts the group at the parent's limit: writes the block length and the
    /// count there, and moves the limit past them.
    pub fn wrap(self, parent: P, count: u8) -> (e: Self)
        requires
            parent.has_wbuf(),
            parent.limit() + 3 <= parent.wbuf()@.len(),
        ensures
            e.spec_parent() is Some,
            wrote(
                parent.with_limit((parent.limit() + 3) as usize),
                e.spec_parent().unwrap(),
                parent.limit() as int,
                u16_bytes(Self::spec_block_length()) + seq![count],
            ),
            e.spec_count() == count,
            e.spec_index() == usize::MAX,
            e.spec_offset() == usize::MAX,
            e.spec_initial_limit() == parent.limit(),
            e.has_wbuf(),
            e.wbuf()@.len() == parent.wbuf()@.len(),
            e.limit() == parent.limit() + 3,
    {
        let mut parent = parent;
        let ghost p0 = parent;
        proof {
            p0.lemma_with_wbuf(p0.wbuf(), p0.wbuf());
            p0.lemma_with_limit((p0.limit() + 3) as usize, p0.wbuf());
        }
        let initial_limit = parent.get_limit();
        parent.set_limit(initial_limit + 3);
        let ghost p1 = parent;
        let b = parent.get_buf_mut();
        b.put_u16_at(initial_limit, Self::block_length());
        proof {
            p1.lemma_with_wbuf(*b, *b);
        }
        let ghost p2 = parent;
        let b = parent.get_buf_mut();
        b.put_u8_at(initial_limit + 2, count);
        proof {
            p2.lemma_with_wbuf(*b, *b);
            lemma_encodings_len(Self::spec_block_length(), 0, 0, 0);
            lemma_wrote_twice(
                p1,
                p2,
                parent,
                initial_limit as int,
                u16_bytes(Self::spec_block_length()),
                seq![count],
            );
            p1.lemma_with_limit(p1.limit(), parent.wbuf());
            p0.lemma_with_limit((p0.limit() + 3) as usize, parent.wbuf());
        }
        let mut s = self;
        s.parent = Some(parent);
        s.count = count;
        s.index = usize::MAX;
        s.offset = usize::MAX;
        s.initial_limit = initial_limit;
        s
    }

    /// Hands the parent back, once.
    pub fn parent(&mut self) -> (r: SbeResult<P>)
        ensures
            r == (match old(self).spec_parent() {
                Some(p) => Ok(p),
                None => Err(SbeErr::ParentNotSet),
            }),
            final(self).spec_parent() is None,
            final(self).spec_index() == old(self).spec_index(),
            final(self).spec_count() == old(self).spec_count(),
            final(self).spec_offset() == old(self).spec_offset(),
    {
        match self.parent.take() {
            Some(p) => Ok(p),
            None => Err(SbeErr::ParentNotSet),
        }
    }

    /// Whether `next` and `r` are what `advance` leaves and gives from `self`:
    /// past the count, `Ok(None)` and no change; without a parent, an error;
    /// else the next index, the entry starting at the message's limit, and the
    /// limit moved past the entry.
    pub open spec fn advanced(&self, next: Self, r: SbeResult<Option<usize>>) -> bool {
        let index = vstd::wrapping::usize_specs::wrapping_add(self.spec_index(), 1);
        if index >= self.spec_count() {
            r == Ok::<Option<usize>, SbeErr>(None) && next == *self
        } else if self.spec_parent() is None {
            r == Err::<Option<usize>, SbeErr>(SbeErr::ParentNotSet) && next == *self
        } else {
            &&& r == Ok::<Option<usize>, SbeErr>(Some(index))
            &&& next.spec_index() == index
            &&& next.spec_offset() == self.limit()
            &&& next.spec_count() == self.spec_count()
            &&& next.spec_parent() == Some(
                self.spec_parent().unwrap().with_limit(
                    (self.limit() + Self::spec_block_length()) as usize,
                ),
            )
        }
    }

    /// Moves to the next entry of the group, which starts at the message's limit:
    /// its index, or `None` when all `count` entries were visited.
    pub fn advance(&mut self) -> (r: SbeResult<Option<usize>>)
        requires
            old(self).spec_parent() is Some ==> old(self).has_wbuf() && old(self).limit()
                + Self::spec_block_length() <= usize::MAX,
        ensures
            old(self).advanced(*final(self), r),
            old(self).has_wbuf() ==> final(self).has_wbuf() && final(self).wbuf() == old(self).wbuf(),
            r matches Ok(Some(_)) ==> final(self).limit() == old(self).limit() + Self::spec_block_length(),
    {
        let index = self.index.wrapping_add(1);
        if index >= self.count as usize {
            return Ok(None);
        }
        let ghost p0 = self.spec_parent();
        match &mut self.parent {
            Some(parent) => {
                let offset = parent.get_limit();
                proof {
                    p0.unwrap().lemma_with_limit((offset + 18) as usize, p0.unwrap().wbuf());
                }
                parent.set_limit(offset + Self::block_length() as usize);
                self.offset = offset;
                self.index = index;
                Ok(Some(index))
            },
            None => Err(SbeErr::ParentNotSet),
        }
    }

    pub fn price_encoder(self) -> (c: DecEncoder<Self>)
        requires
            self.spec_offset() <= usize::MAX,
        ensures
            c.spec_parent() == Some(self),
            c.spec_offset() == self.spec_offset(),
    {
        let offset = self.offset;
        DecEncoder::default().wrap(self, offset)
    }

    pub fn size_encoder(self) -> (c: DecEncoder<Self>)
        requires
            self.spec_offset() + 9 <= usize::MAX,
        ensures
            c.spec_parent() == Some(self),
            c.spec_offset() == self.spec_offset() + 9,
    {
        let offset = self.offset + 9;
        DecEncoder::default().wrap(self, offset)
    }

}

pub struct DepthsDecoder<P> {
    parent: Option<P>,
    block_length: usize,
    acting_version: usize,
    count: u8,
    index: usize,
    offset: usize,
}

impl<P> DepthsDecoder<P> {
    pub closed spec fn spec_parent(&self) -> Option<P> {
        self.parent
    }

    pub closed spec fn spec_block_length(&self) -> usize {
        self.block_length
    }

    pub closed spec fn spec_acting_version(&self) -> usize {
        self.acting_version
    }

    pub closed spec fn spec_count(&self) -> u8 {
        self.count
    }

    pub closed spec fn spec_index(&self) -> usize {
        self.index
    }

    pub closed spec fn spec_offset(&self) -> usize {
        self.offset
    }
}

impl<P> Default for DepthsDecoder<P> {
    fn default() -> (d: Self)
        ensures
            d.spec_parent() is None,
    {
        DepthsDecoder { parent: None, block_length: 0, acting_version: 0, count: 0, index: 0, offset: 0 }
    }
}

impl<'a, P: Reader<'a>> Reader<'a> for DepthsDecoder<P> {
    closed spec fn rbuf(&self) -> Seq<u8> {
        self.parent.unwrap().rbuf()
    }

    closed spec fn has_rbuf(&self) -> bool {
        self.parent is Some && self.parent.unwrap().has_rbuf()
    }

    proof fn lemma_rbuf_len(&self) {
        self.parent.unwrap().lemma_rbuf_len();
    }

    fn get_buf(&self) -> (b: &ReadBuf<'a>) {
        match &self.parent {
            Some(parent) => parent.get_buf(),
            None => vstd::pervasive::unreached(),
        }
    }
}

impl<'a, P: Decoder<'a>> Decoder<'a> for DepthsDecoder<P> {
    closed spec fn limit(&self) -> usize {
        self.parent.unwrap().limit()
    }

    closed spec fn with_limit(&self, limit: usize) -> Self {
        DepthsDecoder { parent: Some(self.parent.unwrap().with_limit(limit)), ..*self }
    }

    proof fn lemma_with_limit(&self, limit: usize) {
        self.parent.unwrap().lemma_with_limit(limit);
    }

    fn get_limit(&self) -> (l: usize) {
        match &self.parent {
            Some(parent) => parent.get_limit(),
            None => vstd::pervasive::unreached(),
        }
    }

    fn set_limit(&mut self, limit: usize) {
        match &mut self.parent {
            Some(parent) => parent.set_limit(limit),
            None => vstd::pervasive::unreached(),
        }
    }
}

impl<'a, P: Decoder<'a>> DepthsDecoder<P> {
    /// The codec reads its parent's buffer, up to its parent's limit.
    pub proof fn lemma_reader(&self)
        ensures
            self.has_rbuf() <==> (self.spec_parent() is Some && self.spec_parent().unwrap().has_rbuf()),
            self.spec_parent() is Some ==> self.rbuf() == self.spec_parent().unwrap().rbuf(),
            self.spec_parent() is Some ==> self.limit() == self.spec_parent().unwrap().limit(),
    {
    }

    /// Starts the group at the parent's limit: reads the block length and the
    /// count there, and moves the limit past them.
    pub fn wrap(self, parent: P, acting_version: usize) -> (d: Self)
        requires
            parent.has_rbuf(),
            parent.limit() + 3 <= parent.rbuf().len(),
        ensures
            d.spec_parent() == Some(parent.with_limit((parent.limit() + 3) as usize)),
            d.spec_block_length() == u16_at(parent.rbuf(), parent.limit() as int),
            d.spec_count() == parent.rbuf()[parent.limit() + 2],
            d.spec_acting_version() == acting_version,
            d.spec_index() == usize::MAX,
            d.spec_offset() == 0,
            d.has_rbuf(),
            d.rbuf() == parent.rbuf(),
            d.limit() == parent.limit() + 3,
    {
        let mut parent = parent;
        proof {
            parent.lemma_rbuf_len();
        }
        let initial_offset = parent.get_limit();
        let block_length = parent.get_buf().get_u16_at(initial_offset) as usize;
        let count = parent.get_buf().get_u8_at(initial_offset + 2);
        proof {
            parent.lemma_with_limit((initial_offset + 3) as usize);
        }
        parent.set_limit(initial_offset + 3);
        let mut s = self;
        s.parent = Some(parent);
        s.block_length = block_length;
        s.acting_version = acting_version;
        s.count = count;
        s.index = usize::MAX;
        s.offset = 0;
        s
    }

    /// Hands the parent back, once.
    pub fn parent(&mut self) -> (r: SbeResult<P>)
        ensures
            r == (match old(self).spec_parent() {
                Some(p) => Ok(p),
                None => Err(SbeErr::ParentNotSet),
            }),
            final(self).spec_parent() is None,
            final(self).spec_index() == old(self).spec_index(),
            final(self).spec_count() == old(self).spec_count(),
            final(self).spec_offset() == old(self).spec_offset(),
    {
        match self.parent.take() {
            Some(p) => Ok(p),
            None => Err(SbeErr::ParentNotSet),
        }
    }

    /// The number of entries of the group.
    pub fn count(&self) -> (n: u8)
        ensures
            n == self.spec_count(),
    {
        self.count
    }

    /// Moves to the next entry of the group, which starts at the message's limit:
    /// its index, or `None` when all `count` entries were visited.
    pub fn advance(&mut self) -> (r: SbeResult<Option<usize>>)
        requires
            old(self).spec_parent() is Some ==> old(self).has_rbuf() && old(self).limit()
                + old(self).spec_block_length() <= usize::MAX,
        ensures
            ({
                let index = vstd::wrapping::usize_specs::wrapping_add(old(self).spec_index(), 1);
                if index >= old(self).spec_count() {
                    r == Ok::<Option<usize>, SbeErr>(None) && *final(self) == *old(self)
                } else if old(self).spec_parent() is None {
                    r == Err::<Option<usize>, SbeErr>(SbeErr::ParentNotSet) && *final(self) == *old(self)
                } else {
                    &&& r == Ok::<Option<usize>, SbeErr>(Some(index))
                    &&& final(self).spec_index() == index
                    &&& final(self).spec_offset() == old(self).limit()
                    &&& final(self).spec_count() == old(self).spec_count()
                    &&& final(self).spec_block_length() == old(self).spec_block_length()
                    &&& final(self).spec_parent() == Some(
                        old(self).spec_parent().unwrap().with_limit(
                            (old(self).limit() + old(self).spec_block_length()) as usize,
                        ),
                    )
                    &&& final(self).limit() == old(self).limit() + old(self).spec_block_length()
                }
            }),
            old(self).has_rbuf() ==> final(self).has_rbuf() && final(self).rbuf() == old(self).rbuf(),
    {
        let index = self.index.wrapping_add(1);
        if index >= self.count as usize {
            return Ok(None);
        }
        let ghost p0 = self.spec_parent();
        match &mut self.parent {
            Some(parent) => {
                let offset = parent.get_limit();
                proof {
                    p0.unwrap().lemma_with_limit((offset + self.block_length) as usize);
                }
                parent.set_limit(offset + self.block_length);
                self.offset = offset;
                self.index = index;
                Ok(Some(index))
            },
            None => Err(SbeErr::ParentNotSet),
        }
    }

    pub fn price_decoder(self) -> (c: DecDecoder<Self>)
        requires
            self.spec_offset() <= usize::MAX,
        ensures
            c.spec_parent() == Some(self),
            c.spec_offset() == self.spec_offset(),
    {
        let offset = self.offset;
        DecDecoder::default().wrap(self, offset)
    }

    pub fn size_decoder(self) -> (c: DecDecoder<Self>)
        requires
            self.spec_offset() + 9 <= usize::MAX,
        ensures
            c.spec_parent() == Some(self),
            c.spec_offset() == self.spec_offset() + 9,
    {
        let offset = self.offset + 9;
        DecDecoder::default().wrap(self, offset)
    }

}

/// The header that a book encoder writes reads back as block length 35,
/// template 3, schema 1 and version 1, and the encoder handed back keeps its
/// offset and limit.
pub proof fn lemma_orderbook_header_reads_back<'a>(
    e: OrderbookMsgEncoder,
    p: OrderbookMsgEncoder,
    offset: usize,
    d: MessageHeaderDecoder<ReadBuf<'a>>,
)
    requires
        e.has_wbuf(),
        offset + 8 <= e.wbuf()@.len(),
        wrote(
            e,
            p,
            offset as int,
            header_bytes(SBE_BLOCK_LENGTH, SBE_TEMPLATE_ID, SBE_SCHEMA_ID, SBE_SCHEMA_VERSION),
        ),
        d.rbuf() == p.wbuf()@,
        d.spec_offset() == offset,
    ensures
        u16_at(d.rbuf(), offset as int) == 35,
        u16_at(d.rbuf(), offset + 2) == 3,
        u16_at(d.rbuf(), offset + 4) == 1,
        u16_at(d.rbuf(), offset + 6) == 1,
        p.spec_offset() == e.spec_offset(),
        p.limit() == e.limit(),
{
    lemma_written_header_reads_back(e.wbuf()@, offset as int, 35, 3, 1, 1);
}

/// The flags that a book encoder writes are what a decoder at the same offset reads.
pub proof fn lemma_orderbook_flags_read_back<'a>(
    e0: OrderbookMsgEncoder,
    e1: OrderbookMsgEncoder,
    f: Orderbook_flags,
    d: OrderbookMsgDecoder<'a>,
)
    requires
        e0.has_wbuf(),
        e0.spec_offset() + 35 <= e0.wbuf()@.len(),
        wrote(e0, e1, e0.spec_offset() + 34, seq![f.0]),
        d.rbuf() == e1.wbuf()@,
        d.spec_offset() == e0.spec_offset(),
    ensures
        d.rbuf()[d.spec_offset() + 34] == f.0,
{
    lemma_splice(e0.wbuf()@, e0.spec_offset() + 34, seq![f.0]);
}

/// The count of levels that a book encoder writes is what the group's decoder
/// reads, at the limit where the message's block ends, with block length 18.
pub proof fn lemma_depths_count_reads_back<'a>(
    e: OrderbookMsgEncoder,
    g: DepthsEncoder<OrderbookMsgEncoder>,
    n: u8,
    d: OrderbookMsgDecoder<'a>,
)
    requires
        e.has_wbuf(),
        e.limit() + 3 <= e.wbuf()@.len(),
        g.spec_parent() is Some,
        wrote(
            e.with_limit((e.limit() + 3) as usize),
            g.spec_parent().unwrap(),
            e.limit() as int,
            u16_bytes(DepthsEncoder::<OrderbookMsgEncoder>::spec_block_length()) + seq![n],
        ),
        d.rbuf() == g.spec_parent().unwrap().wbuf()@,
        d.limit() == e.limit(),
    ensures
        d.rbuf()[d.limit() + 2] == n,
        u16_at(d.rbuf(), d.limit() as int) == 18,
{
    let bytes = u16_bytes(18) + seq![n];
    lemma_encodings_len(18, 0, 0, 0);
    lemma_splice(e.wbuf()@, e.limit() as int, bytes);
    let w = d.rbuf();
    assert(w.subrange(e.limit() as int, e.limit() + 2) =~= u16_bytes(18));
    vstd::bytes::lemma_auto_spec_u16_to_from_le_bytes();
}

/// What the `k`-th state of a group of `n` levels is, its first state fresh
/// from `wrap` (`k == 0`): the index of the entry last moved to, or none yet.
pub open spec fn depths_index_after(n: u8, k: int) -> usize {
    if k == 0 || n == 0 {
        usize::MAX
    } else if k <= n {
        (k - 1) as usize
    } else {
        (n - 1) as usize
    }
}

/// Advancing a group of `n` levels, from a fresh group whose message ends at
/// `l`: the `k`-th advance (from 1) gives `Ok(Some(k - 1))` for `k <= n`, its
/// entry starting at `l + 18 (k - 1)` and the limit moved to `l + 18 k`; every
/// later one gives `Ok(None)` and leaves the limit at `l + 18 n`. The message
/// under the group keeps its offset throughout.
pub proof fn lemma_depths_advances(
    gs: Seq<DepthsEncoder<OrderbookMsgEncoder>>,
    rs: Seq<SbeResult<Option<usize>>>,
)
    requires
        gs.len() == rs.len() + 1,
        gs[0].spec_parent() is Some,
        gs[0].has_wbuf(),
        gs[0].spec_index() == usize::MAX,
        gs[0].limit() + 18 * gs[0].spec_count() <= usize::MAX,
        forall|i: int, j: int|
            0 <= i && j == i + 1 && j < gs.len() ==> #[trigger] gs[i].advanced(gs[j], rs[i]),
    ensures
        forall|j: int|
            0 <= j < gs.len() ==> {
                &&& (#[trigger] gs[j]).spec_parent() is Some
                &&& gs[j].has_wbuf()
                &&& gs[j].spec_count() == gs[0].spec_count()
                &&& gs[j].spec_index() == depths_index_after(gs[0].spec_count(), j)
                &&& gs[j].limit() == gs[0].limit() + 18 * (if j <= gs[0].spec_count() {
                    j
                } else {
                    gs[0].spec_count() as int
                })
                &&& gs[j].spec_parent().unwrap().spec_offset() == gs[0].spec_parent().unwrap().spec_offset()
            },
        forall|j: int|
            1 <= j < gs.len() ==> if j <= gs[0].spec_count() {
                &&& #[trigger] rs[j - 1] == Ok::<Option<usize>, SbeErr>(Some((j - 1) as usize))
                &&& gs[j].spec_offset() == gs[0].limit() + 18 * (j - 1)
            } else {
                rs[j - 1] == Ok::<Option<usize>, SbeErr>(None)
            },
    decreases gs.len(),
{
    let m = gs.len() - 1;
    if m > 0 {
        let n = gs[0].spec_count();
        lemma_depths_advances(gs.drop_last(), rs.drop_last());
        assert forall|j: int| 0 <= j < m implies #[trigger] gs.drop_last()[j] == gs[j] by {}
        assert forall|j: int| 0 <= j < m - 1 implies #[trigger] rs.drop_last()[j] == rs[j] by {}
        let i = m - 1;
        assert(gs[i].advanced(gs[m], rs[i]));
        assert(gs.drop_last()[i] == gs[i]);
        assert(gs.drop_last()[0] == gs[0]);
        let g = gs[i];
        let index = vstd::wrapping::usize_specs::wrapping_add(g.spec_index(), 1);
        if i == 0 || n == 0 {
            assert(index == 0);
        } else if i <= n {
            assert(index == i);
        } else {
            assert(index == n);
        }
        assert(gs[m].spec_parent() is Some);
        assert(gs[m].has_wbuf());
        assert(gs[m].spec_count() == n);
        assert(gs[m].spec_index() == depths_index_after(n, m));
        assert(gs[m].limit() == gs[0].limit() + 18 * (if m <= n {
            m
        } else {
            n as int
        }));
        assert(gs[m].spec_parent().unwrap().spec_offset() == gs[0].spec_parent().unwrap().spec_offset());
        assert forall|j: int| 0 <= j < gs.len() implies {
            &&& (#[trigger] gs[j]).spec_parent() is Some
            &&& gs[j].has_wbuf()
            &&& gs[j].spec_count() == gs[0].spec_count()
            &&& gs[j].spec_index() == depths_index_after(gs[0].spec_count(), j)
            &&& gs[j].limit() == gs[0].limit() + 18 * (if j <= gs[0].spec_count() {
                j
            } else {
                gs[0].spec_count() as int
            })
            &&& gs[j].spec_parent().unwrap().spec_offset() == gs[0].spec_parent().unwrap().spec_offset()
        } by {
            if j < m {
                assert(gs.drop_last()[j] == gs[j]);
            }
        }
        assert forall|j: int| 1 <= j < gs.len() implies if j <= n {
            &&& #[trigger] rs[j - 1] == Ok::<Option<usize>, SbeErr>(Some((j - 1) as usize))
            &&& gs[j].spec_offset() == gs[0].limit() + 18 * (j - 1)
        } else {
            rs[j - 1] == Ok::<Option<usize>, SbeErr>(None)
        } by {
            if j < m {
                assert(rs.drop_last()[j - 1] == rs[j - 1]);
                assert(gs.drop_last()[j] == gs[j]);
            }
        }
    } else {
        assert forall|j: int| 0 <= j < gs.len() implies {
            &&& (#[trigger] gs[j]).spec_parent() is Some
            &&& gs[j].has_wbuf()
            &&& gs[j].spec_count() == gs[0].spec_count()
            &&& gs[j].spec_index() == depths_index_after(gs[0].spec_count(), j)
            &&& gs[j].limit() == gs[0].limit() + 18 * (if j <= gs[0].spec_count() {
                j
            } else {
                gs[0].spec_count() as int
            })
            &&& gs[j].spec_parent().unwrap().spec_offset() == gs[0].spec_parent().unwrap().spec_offset()
        } by {
            assert(j == 0);
        }
    }
}

/// Once its parent was handed back, a group fails to advance while entries remain.
pub proof fn lemma_depths_advance_without_parent(
    g: DepthsEncoder<OrderbookMsgEncoder>,
    next: DepthsEncoder<OrderbookMsgEncoder>,
    r: SbeResult<Option<usize>>,
)
    requires
        g.spec_parent() is None,
        vstd::wrapping::usize_specs::wrapping_add(g.spec_index(), 1) < g.spec_count(),
        g.advanced(next, r),
    ensures
        r == Err::<Option<usize>, SbeErr>(SbeErr::ParentNotSet),
        next == g,
{
}

/// A book message of `n` levels, its group advanced through to the end and
/// handed back, is `35 + 3 + 18 n` bytes long.
pub proof fn lemma_orderbook_length(
    e: OrderbookMsgEncoder,
    gs: Seq<DepthsEncoder<OrderbookMsgEncoder>>,
    rs: Seq<SbeResult<Option<usize>>>,
)
    requires
        e.has_wbuf(),
        e.limit() == e.spec_offset() + SBE_BLOCK_LENGTH,
        e.limit() + 3 <= e.wbuf()@.len(),
        gs.len() == rs.len() + 1,
        gs[0].spec_parent() is Some,
        wrote(
            e.with_limit((e.limit() + 3) as usize),
            gs[0].spec_parent().unwrap(),
            e.limit() as int,
            u16_bytes(DepthsEncoder::<OrderbookMsgEncoder>::spec_block_length()) + seq![gs[0].spec_count()],
        ),
        gs[0].spec_index() == usize::MAX,
        e.limit() + 3 + 18 * gs[0].spec_count() <= usize::MAX,
        forall|i: int, j: int|
            0 <= i && j == i + 1 && j < gs.len() ==> #[trigger] gs[i].advanced(gs[j], rs[i]),
        rs.len() > gs[0].spec_count(),
    ensures
        ({
            let p = gs[gs.len() - 1].spec_parent().unwrap();
            &&& p.limit() >= p.spec_offset()
            &&& p.limit() - p.spec_offset() == 35 + 3 + 18 * gs[0].spec_count()
        }),
{
    lemma_depths_advances(gs, rs);
    let last = gs.len() - 1;
    assert(gs[last].spec_parent() is Some);
    assert(gs[0].spec_parent() is Some);
}

} // verus!
