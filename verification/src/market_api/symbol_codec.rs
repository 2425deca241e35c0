//! The symbol composite: exchange, quote asset, base asset and symbol type (1 byte
//! each) and expiry (`u32`, 4294967295 for none).
use crate::market_api::asset::Asset;
use crate::market_api::exchange::Exchange;
use crate::market_api::symbol_type::SymbolType;
use crate::market_api::{ReadBuf, Reader, SbeErr, SbeResult, WriteBuf, Writer, u32_at, u32_bytes, wrote};
use vstd::prelude::*;

verus! {

pub const ENCODED_LENGTH: usize = 8;

pub struct SymbolEncoder<P> {
    parent: Option<P>,
    offset: usize,
}

impl<P> SymbolEncoder<P> {
    pub closed spec fn spec_parent(&self) -> Option<P> {
        self.parent
    }

    pub closed spec fn spec_offset(&self) -> usize {
        self.offset
    }
}

impl<P> Default for SymbolEncoder<P> {
    fn default() -> (c: Self)
        ensures
            c.spec_parent() is None,
            c.spec_offset() == 0,
    {
        SymbolEncoder { parent: None, offset: 0 }
    }
}

impl<P: Writer> Writer for SymbolEncoder<P> {
    closed spec fn wbuf(&self) -> WriteBuf {
        self.parent.unwrap().wbuf()
    }

    closed spec fn with_wbuf(&self, b: WriteBuf) -> Self {
        SymbolEncoder { parent: Some(self.parent.unwrap().with_wbuf(b)), offset: self.offset }
    }

    closed spec fn has_wbuf(&self) -> bool {
        self.parent is Some && self.parent.unwrap().has_wbuf()
    }

    proof fn lemma_with_wbuf(&self, b: WriteBuf, c: WriteBuf) {
        self.parent.unwrap().lemma_with_wbuf(b, c);
    }

    fn get_buf_mut(&mut self) -> (b: &mut WriteBuf) {
        match &mut self.parent {
            Some(parent) => parent.get_buf_mut(),
            None => vstd::pervasive::unreached(),
        }
    }
}

impl<P: Writer> SymbolEncoder<P> {
    /// The codec's parent and offset after its buffer is replaced.
    pub proof fn lemma_frame(&self, b: WriteBuf)
        requires
            self.has_wbuf(),
        ensures
            self.with_wbuf(b).spec_offset() == self.spec_offset(),
            self.with_wbuf(b).spec_parent() == Some(self.spec_parent().unwrap().with_wbuf(b)),
            self.wbuf() == self.spec_parent().unwrap().wbuf(),
            self.spec_parent().unwrap().has_wbuf(),
    {
    }

    pub fn wrap(self, parent: P, offset: usize) -> (c: Self)
        ensures
            c.spec_parent() == Some(parent),
            c.spec_offset() == offset,
            c.has_wbuf() == parent.has_wbuf(),
            c.wbuf() == parent.wbuf(),
    {
        let mut s = self;
        s.parent = Some(parent);
        s.offset = offset;
        s
    }

    /// Hands the parent back, once.
    pub fn parent(&mut self) -> (r: SbeResult<P>)
        ensures
            r == (match old(self).spec_parent() {
                Some(p) => Ok(p),
                None => Err(SbeErr::ParentNotSet),
            }),
            final(self).spec_parent() is None,
            final(self).spec_offset() == old(self).spec_offset(),
    {
        match self.parent.take() {
            Some(p) => Ok(p),
            None => Err(SbeErr::ParentNotSet),
        }
    }

    pub fn exchange(&mut self, value: Exchange)
        requires
            old(self).has_wbuf(),
            old(self).spec_offset() + 1 <= old(self).wbuf()@.len(),
        ensures
            wrote(*old(self), *final(self), old(self).spec_offset() as int, seq![value.spec_to_u8()]),
            final(self).spec_offset() == old(self).spec_offset(),
            final(self).wbuf()@.len() == old(self).wbuf()@.len(),
    {
        proof {
            old(self).lemma_with_wbuf(old(self).wbuf(), old(self).wbuf());
        }
        let offset = self.offset;
        let b = self.get_buf_mut();
        b.put_u8_at(offset, value.to_u8());
        proof {
            old(self).lemma_with_wbuf(*b, *b);
        }
        proof {
            old(self).lemma_frame(self.wbuf());
            crate::market_api::lemma_splice(old(self).wbuf()@, old(self).spec_offset() as int, seq![value.spec_to_u8()]);
        }
    }

    pub fn quote(&mut self, value: Asset)
        requires
            old(self).has_wbuf(),
            old(self).spec_offset() + 2 <= old(self).wbuf()@.len(),
        ensures
            wrote(*old(self), *final(self), old(self).spec_offset() + 1, seq![value.spec_to_u8()]),
            final(self).spec_offset() == old(self).spec_offset(),
            final(self).wbuf()@.len() == old(self).wbuf()@.len(),
    {
        proof {
            old(self).lemma_with_wbuf(old(self).wbuf(), old(self).wbuf());
        }
        let offset = self.offset + 1;
        let b = self.get_buf_mut();
        b.put_u8_at(offset, value.to_u8());
        proof {
            old(self).lemma_with_wbuf(*b, *b);
        }
        proof {
            old(self).lemma_frame(self.wbuf());
            crate::market_api::lemma_splice(old(self).wbuf()@, old(self).spec_offset() + 1, seq![value.spec_to_u8()]);
        }
    }

    pub fn base(&mut self, value: Asset)
        requires
            old(self).has_wbuf(),
            old(self).spec_offset() + 3 <= old(self).wbuf()@.len(),
        ensures
            wrote(*old(self), *final(self), old(self).spec_offset() + 2, seq![value.spec_to_u8()]),
            final(self).spec_offset() == old(self).spec_offset(),
            final(self).wbuf()@.len() == old(self).wbuf()@.len(),
    {
        proof {
            old(self).lemma_with_wbuf(old(self).wbuf(), old(self).wbuf());
        }
        let offset = self.offset + 2;
        let b = self.get_buf_mut();
        b.put_u8_at(offset, value.to_u8());
        proof {
            old(self).lemma_with_wbuf(*b, *b);
        }
        proof {
            old(self).lemma_frame(self.wbuf());
            crate::market_api::lemma_splice(old(self).wbuf()@, old(self).spec_offset() + 2, seq![value.spec_to_u8()]);
        }
    }

    pub fn symbol_type(&mut self, value: SymbolType)
        requires
            old(self).has_wbuf(),
            old(self).spec_offset() + 4 <= old(self).wbuf()@.len(),
        ensures
            wrote(*old(self), *final(self), old(self).spec_offset() + 3, seq![value.spec_to_u8()]),
            final(self).spec_offset() == old(self).spec_offset(),
            final(self).wbuf()@.len() == old(self).wbuf()@.len(),
    {
        proof {
            old(self).lemma_with_wbuf(old(self).wbuf(), old(self).wbuf());
        }
        let offset = self.offset + 3;
        let b = self.get_buf_mut();
        b.put_u8_at(offset, value.to_u8());
        proof {
            old(self).lemma_with_wbuf(*b, *b);
        }
        proof {
            old(self).lemma_frame(self.wbuf());
            crate::market_api::lemma_splice(old(self).wbuf()@, old(self).spec_offset() + 3, seq![value.spec_to_u8()]);
        }
    }

    /// The expiry; 4294967295 stands for none.
    pub fn expiry(&mut self, value: u32)
        requires
            old(self).has_wbuf(),
            old(self).spec_offset() + 8 <= old(self).wbuf()@.len(),
        ensures
            wrote(*old(self), *final(self), old(self).spec_offset() + 4, u32_bytes(value)),
            final(self).spec_offset() == old(self).spec_offset(),
            final(self).wbuf()@.len() == old(self).wbuf()@.len(),
    {
        proof {
            old(self).lemma_with_wbuf(old(self).wbuf(), old(self).wbuf());
        }
        let offset = self.offset + 4;
        let b = self.get_buf_mut();
        b.put_u32_at(offset, value);
        proof {
            old(self).lemma_with_wbuf(*b, *b);
        }
        proof {
            old(self).lemma_frame(self.wbuf());
            crate::market_api::lemma_splice(old(self).wbuf()@, old(self).spec_offset() + 4, u32_bytes(value));
        }
    }

}

pub struct SymbolDecoder<P> {
    parent: Option<P>,
    offset: usize,
}

impl<P> SymbolDecoder<P> {
    pub closed spec fn spec_parent(&self) -> Option<P> {
        self.parent
    }

    pub closed spec fn spec_offset(&self) -> usize {
        self.offset
    }
}

impl<P> Default for SymbolDecoder<P> {
    fn default() -> (c: Self)
        ensures
            c.spec_parent() is None,
            c.spec_offset() == 0,
    {
        SymbolDecoder { parent: None, offset: 0 }
    }
}

impl<'a, P: Reader<'a>> Reader<'a> for SymbolDecoder<P> {
    closed spec fn rbuf(&self) -> Seq<u8> {
        self.parent.unwrap().rbuf()
    }

    closed spec fn has_rbuf(&self) -> bool {
        self.parent is Some && self.parent.unwrap().has_rbuf()
    }

    proof fn lemma_rbuf_len(&self) {
        self.parent.unwrap().lemma_rbuf_len();
    }

    fn get_buf(&self) -> (b: &ReadBuf<'a>) {
        match &self.parent {
            Some(parent) => parent.get_buf(),
            None => vstd::pervasive::unreached(),
        }
    }
}

impl<'a, P: Reader<'a>> SymbolDecoder<P> {
    pub proof fn lemma_reader(&self)
        requires
            self.has_rbuf(),
        ensures
            self.rbuf() == self.spec_parent().unwrap().rbuf(),
            self.spec_parent().unwrap().has_rbuf(),
    {
    }

    pub fn wrap(self, parent: P, offset: usize) -> (c: Self)
        ensures
            c.spec_parent() == Some(parent),
            c.spec_offset() == offset,
            c.has_rbuf() == parent.has_rbuf(),
            c.rbuf() == parent.rbuf(),
    {
        let mut s = self;
        s.parent = Some(parent);
        s.offset = offset;
        s
    }

    /// Hands the parent back, once.
    pub fn parent(&mut self) -> (r: SbeResult<P>)
        ensures
            r == (match old(self).spec_parent() {
                Some(p) => Ok(p),
                None => Err(SbeErr::ParentNotSet),
            }),
            final(self).spec_parent() is None,
            final(self).spec_offset() == old(self).spec_offset(),
    {
        match self.parent.take() {
            Some(p) => Ok(p),
            None => Err(SbeErr::ParentNotSet),
        }
    }

    pub fn exchange(&self) -> (v: Exchange)
        requires
            self.has_rbuf(),
            self.spec_offset() + 1 <= self.rbuf().len(),
        ensures
            v == Exchange::spec_from_u8(self.rbuf()[self.spec_offset() as int]),
    {
        proof {
            self.lemma_rbuf_len();
        }
        Exchange::from(self.get_buf().get_u8_at(self.offset))
    }

    pub fn quote(&self) -> (v: Asset)
        requires
            self.has_rbuf(),
            self.spec_offset() + 2 <= self.rbuf().len(),
        ensures
            v == Asset::spec_from_u8(self.rbuf()[self.spec_offset() + 1]),
    {
        proof {
            self.lemma_rbuf_len();
        }
        Asset::from(self.get_buf().get_u8_at(self.offset + 1))
    }

    pub fn base(&self) -> (v: Asset)
        requires
            self.has_rbuf(),
            self.spec_offset() + 3 <= self.rbuf().len(),
        ensures
            v == Asset::spec_from_u8(self.rbuf()[self.spec_offset() + 2]),
    {
        proof {
            self.lemma_rbuf_len();
        }
        Asset::from(self.get_buf().get_u8_at(self.offset + 2))
    }

    pub fn symbol_type(&self) -> (v: SymbolType)
        requires
            self.has_rbuf(),
            self.spec_offset() + 4 <= self.rbuf().len(),
        ensures
            v == SymbolType::spec_from_u8(self.rbuf()[self.spec_offset() + 3]),
    {
        proof {
            self.lemma_rbuf_len();
        }
        SymbolType::from(self.get_buf().get_u8_at(self.offset + 3))
    }

    /// The expiry; 4294967295 stands for none.
    pub fn expiry(&self) -> (v: Option<u32>)
        requires
            self.has_rbuf(),
            self.spec_offset() + 8 <= self.rbuf().len(),
        ensures
            v == crate::market_api::instrument_codec::expiry_value(u32_at(self.rbuf(), self.spec_offset() + 4)),
    {
        proof {
            self.lemma_rbuf_len();
        }
        let value = self.get_buf().get_u32_at(self.offset + 4);
        if value == 0xffffffffu32 {
            None
        } else {
            Some(value)
        }
    }

}

} // verus!
