//! The instrument composite: exchange (1 byte), quote and base assets (6 ASCII
//! bytes each), instrument type (1 byte) and expiry (`u32`, 4294967295 for none).
use crate::market_api::exchange::Exchange;
use crate::market_api::instrument_type::InstrumentType;
use crate::market_api::{lemma_splice, lemma_splice_keeps, ReadBuf, Reader, SbeErr, SbeResult, WriteBuf, Writer, splice, u32_at, u32_bytes, wrote};
use vstd::prelude::*;

verus! {

pub const ENCODED_LENGTH: usize = 18;

/// An expiry of 4294967295 stands for none.
pub open spec fn expiry_value(v: u32) -> Option<u32> {
    if v == 0xffffffffu32 {
        None
    } else {
        Some(v)
    }
}

pub struct InstrumentEncoder<P> {
    parent: Option<P>,
    offset: usize,
}

impl<P> InstrumentEncoder<P> {
    pub closed spec fn spec_parent(&self) -> Option<P> {
        self.parent
    }

    pub closed spec fn spec_offset(&self) -> usize {
        self.offset
    }
}

impl<P> Default for InstrumentEncoder<P> {
    fn default() -> (c: Self)
        ensures
            c.spec_parent() is None,
            c.spec_offset() == 0,
    {
        InstrumentEncoder { parent: None, offset: 0 }
    }
}

impl<P: Writer> Writer for InstrumentEncoder<P> {
    closed spec fn wbuf(&self) -> WriteBuf {
        self.parent.unwrap().wbuf()
    }

    closed spec fn with_wbuf(&self, b: WriteBuf) -> Self {
        InstrumentEncoder { parent: Some(self.parent.unwrap().with_wbuf(b)), offset: self.offset }
    }

    closed spec fn has_wbuf(&self) -> bool {
        self.parent is Some && self.parent.unwrap().has_wbuf()
    }

    proof fn lemma_with_wbuf(&self, b: WriteBuf, c: WriteBuf) {
        self.parent.unwrap().lemma_with_wbuf(b, c);
    }

    fn get_buf_mut(&mut self) -> (b: &mut WriteBuf) {
        match &mut self.parent {
            Some(parent) => parent.get_buf_mut(),
            None => vstd::pervasive::unreached(),
        }
    }
}

impl<P: Writer> InstrumentEncoder<P> {
    /// The codec writes its parent's buffer.
    pub proof fn lemma_parent(&self)
        ensures
            self.has_wbuf() <==> (self.spec_parent() is Some && self.spec_parent().unwrap().has_wbuf()),
            self.spec_parent() is Some ==> self.wbuf() == self.spec_parent().unwrap().wbuf(),
    {
    }

    /// The codec's parent and offset after its buffer is replaced.
    pub proof fn lemma_frame(&self, b: WriteBuf)
        requires
            self.has_wbuf(),
        ensures
            self.with_wbuf(b).spec_offset() == self.spec_offset(),
            self.with_wbuf(b).spec_parent() == Some(self.spec_parent().unwrap().with_wbuf(b)),
            self.wbuf() == self.spec_parent().unwrap().wbuf(),
            self.spec_parent().unwrap().has_wbuf(),
    {
    }

    /// A write through the codec is the same write through its parent.
    pub proof fn lemma_parent_wrote(&self, next: Self, at: int, bytes: Seq<u8>)
        requires
            self.has_wbuf(),
            0 <= at,
            at + bytes.len() <= self.wbuf()@.len(),
            wrote(*self, next, at, bytes),
        ensures
            next.spec_parent() is Some,
            next.spec_offset() == self.spec_offset(),
            wrote(self.spec_parent().unwrap(), next.spec_parent().unwrap(), at, bytes),
    {
        self.lemma_frame(next.wbuf());
        crate::market_api::lemma_splice(self.wbuf()@, at, bytes);
        self.spec_parent().unwrap().lemma_with_wbuf(next.wbuf(), next.wbuf());
    }

    pub fn wrap(self, parent: P, offset: usize) -> (c: Self)
        ensures
            c.spec_parent() == Some(parent),
            c.spec_offset() == offset,
            c.has_wbuf() == parent.has_wbuf(),
            c.wbuf() == parent.wbuf(),
    {
        let mut s = self;
        s.parent = Some(parent);
        s.offset = offset;
        s
    }

    /// Hands the parent back, once.
    pub fn parent(&mut self) -> (r: SbeResult<P>)
        ensures
            r == (match old(self).spec_parent() {
                Some(p) => Ok(p),
                None => Err(SbeErr::ParentNotSet),
            }),
            final(self).spec_parent() is None,
            final(self).spec_offset() == old(self).spec_offset(),
    {
        match self.parent.take() {
            Some(p) => Ok(p),
            None => Err(SbeErr::ParentNotSet),
        }
    }

    fn put_asset(&mut self, offset: usize, value: [u8; 6])
        requires
            old(self).has_wbuf(),
            offset + 6 <= old(self).wbuf()@.len(),
        ensures
            wrote(*old(self), *final(self), offset as int, value@),
    {
        proof {
            old(self).lemma_with_wbuf(old(self).wbuf(), old(self).wbuf());
        }
        let buf = self.get_buf_mut();
        let ghost s = buf@;
        buf.put_u8_at(offset, value[0]);
        buf.put_u8_at(offset + 1, value[1]);
        buf.put_u8_at(offset + 2, value[2]);
        buf.put_u8_at(offset + 3, value[3]);
        buf.put_u8_at(offset + 4, value[4]);
        buf.put_u8_at(offset + 5, value[5]);
        proof {
            assert(buf@ =~= splice(s, offset as int, value@));
            old(self).lemma_with_wbuf(*buf, *buf);
        }
    }

    pub fn exchange(&mut self, value: Exchange)
        requires
            old(self).has_wbuf(),
            old(self).spec_offset() + 1 <= old(self).wbuf()@.len(),
        ensures
            wrote(*old(self), *final(self), old(self).spec_offset() as int, seq![value.spec_to_u8()]),
            final(self).spec_offset() == old(self).spec_offset(),
            final(self).wbuf()@.len() == old(self).wbuf()@.len(),
    {
        proof {
            old(self).lemma_with_wbuf(old(self).wbuf(), old(self).wbuf());
        }
        let offset = self.offset;
        let b = self.get_buf_mut();
        b.put_u8_at(offset, value.to_u8());
        proof {
            old(self).lemma_with_wbuf(*b, *b);
        }
        proof {
            old(self).lemma_frame(self.wbuf());
            crate::market_api::lemma_splice(old(self).wbuf()@, old(self).spec_offset() as int, seq![value.spec_to_u8()]);
        }
    }

    /// The quote asset, as 6 ASCII bytes.
    pub fn quote(&mut self, value: [u8; 6])
        requires
            old(self).has_wbuf(),
            old(self).spec_offset() + 7 <= old(self).wbuf()@.len(),
        ensures
            wrote(*old(self), *final(self), old(self).spec_offset() + 1, value@),
            final(self).spec_offset() == old(self).spec_offset(),
            final(self).wbuf()@.len() == old(self).wbuf()@.len(),
    {
        proof {
            old(self).lemma_with_wbuf(old(self).wbuf(), old(self).wbuf());
        }
        let offset = self.offset + 1;
        self.put_asset(offset, value);
        proof {
            old(self).lemma_frame(self.wbuf());
            crate::market_api::lemma_splice(old(self).wbuf()@, old(self).spec_offset() + 1, value@);
        }
    }

    /// The base asset, as 6 ASCII bytes.
    pub fn base(&mut self, value: [u8; 6])
        requires
            old(self).has_wbuf(),
            old(self).spec_offset() + 13 <= old(self).wbuf()@.len(),
        ensures
            wrote(*old(self), *final(self), old(self).spec_offset() + 7, value@),
            final(self).spec_offset() == old(self).spec_offset(),
            final(self).wbuf()@.len() == old(self).wbuf()@.len(),
    {
        proof {
            old(self).lemma_with_wbuf(old(self).wbuf(), old(self).wbuf());
        }
        let offset = self.offset + 7;
        self.put_asset(offset, value);
        proof {
            old(self).lemma_frame(self.wbuf());
            crate::market_api::lemma_splice(old(self).wbuf()@, old(self).spec_offset() + 7, value@);
        }
    }

    pub fn instrument_type(&mut self, value: InstrumentType)
        requires
            old(self).has_wbuf(),
            old(self).spec_offset() + 14 <= old(self).wbuf()@.len(),
        ensures
            wrote(*old(self), *final(self), old(self).spec_offset() + 13, seq![value.spec_to_u8()]),
            final(self).spec_offset() == old(self).spec_offset(),
            final(self).wbuf()@.len() == old(self).wbuf()@.len(),
    {
        proof {
            old(self).lemma_with_wbuf(old(self).wbuf(), old(self).wbuf());
        }
        let offset = self.offset + 13;
        let b = self.get_buf_mut();
        b.put_u8_at(offset, value.to_u8());
        proof {
            old(self).lemma_with_wbuf(*b, *b);
        }
        proof {
            old(self).lemma_frame(self.wbuf());
            crate::market_api::lemma_splice(old(self).wbuf()@, old(self).spec_offset() + 13, seq![value.spec_to_u8()]);
        }
    }

    /// The expiry; 4294967295 stands for none.
    pub fn expiry(&mut self, value: u32)
        requires
            old(self).has_wbuf(),
            old(self).spec_offset() + 18 <= old(self).wbuf()@.len(),
        ensures
            wrote(*old(self), *final(self), old(self).spec_offset() + 14, u32_bytes(value)),
            final(self).spec_offset() == old(self).spec_offset(),
            final(self).wbuf()@.len() == old(self).wbuf()@.len(),
    {
        proof {
            old(self).lemma_with_wbuf(old(self).wbuf(), old(self).wbuf());
        }
        let offset = self.offset + 14;
        let b = self.get_buf_mut();
        b.put_u32_at(offset, value);
        proof {
            old(self).lemma_with_wbuf(*b, *b);
        }
        proof {
            old(self).lemma_frame(self.wbuf());
            crate::market_api::lemma_splice(old(self).wbuf()@, old(self).spec_offset() + 14, u32_bytes(value));
        }
    }

}

pub struct InstrumentDecoder<P> {
    parent: Option<P>,
    offset: usize,
}

impl<P> InstrumentDecoder<P> {
    pub closed spec fn spec_parent(&self) -> Option<P> {
        self.parent
    }

    pub closed spec fn spec_offset(&self) -> usize {
        self.offset
    }
}

impl<P> Default for InstrumentDecoder<P> {
    fn default() -> (c: Self)
        ensures
            c.spec_parent() is None,
            c.spec_offset() == 0,
    {
        InstrumentDecoder { parent: None, offset: 0 }
    }
}

impl<'a, P: Reader<'a>> Reader<'a> for InstrumentDecoder<P> {
    closed spec fn rbuf(&self) -> Seq<u8> {
        self.parent.unwrap().rbuf()
    }

    closed spec fn has_rbuf(&self) -> bool {
        self.parent is Some && self.parent.unwrap().has_rbuf()
    }

    proof fn lemma_rbuf_len(&self) {
        self.parent.unwrap().lemma_rbuf_len();
    }

    fn get_buf(&self) -> (b: &ReadBuf<'a>) {
        match &self.parent {
            Some(parent) => parent.get_buf(),
            None => vstd::pervasive::unreached(),
        }
    }
}

impl<'a, P: Reader<'a>> InstrumentDecoder<P> {
    /// The codec reads its parent's buffer.
    pub proof fn lemma_reader(&self)
        ensures
            self.has_rbuf() <==> (self.spec_parent() is Some && self.spec_parent().unwrap().has_rbuf()),
            self.spec_parent() is Some ==> self.rbuf() == self.spec_parent().unwrap().rbuf(),
    {
    }

    pub fn wrap(self, parent: P, offset: usize) -> (c: Self)
        ensures
            c.spec_parent() == Some(parent),
            c.spec_offset() == offset,
            c.has_rbuf() == parent.has_rbuf(),
            c.rbuf() == parent.rbuf(),
    {
        let mut s = self;
        s.parent = Some(parent);
        s.offset = offset;
        s
    }

    /// Hands the parent back, once.
    pub fn parent(&mut self) -> (r: SbeResult<P>)
        ensures
            r == (match old(self).spec_parent() {
                Some(p) => Ok(p),
                None => Err(SbeErr::ParentNotSet),
            }),
            final(self).spec_parent() is None,
            final(self).spec_offset() == old(self).spec_offset(),
    {
        match self.parent.take() {
            Some(p) => Ok(p),
            None => Err(SbeErr::ParentNotSet),
        }
    }

    fn get_asset(&self, offset: usize) -> (v: [u8; 6])
        requires
            self.has_rbuf(),
            offset + 6 <= self.rbuf().len(),
        ensures
            v@ == self.rbuf().subrange(offset as int, offset + 6),
    {
        proof {
            self.lemma_rbuf_len();
        }
        let buf = self.get_buf();
        let v = [
            buf.get_u8_at(offset),
            buf.get_u8_at(offset + 1),
            buf.get_u8_at(offset + 2),
            buf.get_u8_at(offset + 3),
            buf.get_u8_at(offset + 4),
            buf.get_u8_at(offset + 5),
        ];
        assert(v@ =~= self.rbuf().subrange(offset as int, offset + 6));
        v
    }

    pub fn exchange(&self) -> (v: Exchange)
        requires
            self.has_rbuf(),
            self.spec_offset() + 1 <= self.rbuf().len(),
        ensures
            v == Exchange::spec_from_u8(self.rbuf()[self.spec_offset() as int]),
    {
        proof {
            self.lemma_rbuf_len();
        }
        Exchange::from(self.get_buf().get_u8_at(self.offset))
    }

    /// The quote asset, as 6 ASCII bytes.
    pub fn quote(&self) -> (v: [u8; 6])
        requires
            self.has_rbuf(),
            self.spec_offset() + 7 <= self.rbuf().len(),
        ensures
            v@ == self.rbuf().subrange(self.spec_offset() + 1, self.spec_offset() + 1 + 6),
    {
        proof {
            self.lemma_rbuf_len();
        }
        self.get_asset(self.offset + 1)
    }

    /// The base asset, as 6 ASCII bytes.
    pub fn base(&self) -> (v: [u8; 6])
        requires
            self.has_rbuf(),
            self.spec_offset() + 13 <= self.rbuf().len(),
        ensures
            v@ == self.rbuf().subrange(self.spec_offset() + 7, self.spec_offset() + 7 + 6),
    {
        proof {
            self.lemma_rbuf_len();
        }
        self.get_asset(self.offset + 7)
    }

    pub fn instrument_type(&self) -> (v: InstrumentType)
        requires
            self.has_rbuf(),
            self.spec_offset() + 14 <= self.rbuf().len(),
        ensures
            v == InstrumentType::spec_from_u8(self.rbuf()[self.spec_offset() + 13]),
    {
        proof {
            self.lemma_rbuf_len();
        }
        InstrumentType::from(self.get_buf().get_u8_at(self.offset + 13))
    }

    /// The expiry; 4294967295 stands for none.
    pub fn expiry(&self) -> (v: Option<u32>)
        requires
            self.has_rbuf(),
            self.spec_offset() + 18 <= self.rbuf().len(),
        ensures
            v == expiry_value(u32_at(self.rbuf(), self.spec_offset() + 14)),
    {
        proof {
            self.lemma_rbuf_len();
        }
        let value = self.get_buf().get_u32_at(self.offset + 14);
        if value == 0xffffffffu32 {
            None
        } else {
            Some(value)
        }
    }

}

/// The quote and base written through an instrument encoder, in either order,
/// are what an instrument decoder at the same offset over the bytes written
/// reads: the quote from one byte in, the base from seven.
pub proof fn lemma_instrument_assets_read_back<'a, P: Writer, Q: Reader<'a>>(
    e0: InstrumentEncoder<P>,
    e1: InstrumentEncoder<P>,
    e2: InstrumentEncoder<P>,
    quote: [u8; 6],
    base: [u8; 6],
    d: InstrumentDecoder<Q>,
)
    requires
        e0.has_wbuf(),
        e0.spec_offset() + 13 <= e0.wbuf()@.len(),
        ({
            let off = e0.spec_offset() as int;
            ||| wrote(e0, e1, off + 1, quote@) && wrote(e1, e2, off + 7, base@)
            ||| wrote(e0, e1, off + 7, base@) && wrote(e1, e2, off + 1, quote@)
        }),
        d.rbuf() == e2.wbuf()@,
        d.spec_offset() == e0.spec_offset(),
    ensures
        d.rbuf().subrange(d.spec_offset() + 1, d.spec_offset() + 1 + 6) == quote@,
        d.rbuf().subrange(d.spec_offset() + 7, d.spec_offset() + 7 + 6) == base@,
{
    let off = e0.spec_offset() as int;
    let s0 = e0.wbuf()@;
    if wrote(e0, e1, off + 1, quote@) && wrote(e1, e2, off + 7, base@) {
        let s1 = splice(s0, off + 1, quote@);
        lemma_splice(s0, off + 1, quote@);
        lemma_splice(s1, off + 7, base@);
        lemma_splice_keeps(s1, off + 7, base@, off + 1, 6);
    } else {
        let s1 = splice(s0, off + 7, base@);
        lemma_splice(s0, off + 7, base@);
        lemma_splice(s1, off + 1, quote@);
        lemma_splice_keeps(s1, off + 1, quote@, off + 7, 6);
    }
}

} // verus!
