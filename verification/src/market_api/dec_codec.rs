//! The decimal composite: mantissa (`i64`) and exponent, the number of decimal
//! places (`i8`).
use crate::market_api::{ReadBuf, Reader, SbeErr, SbeResult, WriteBuf, Writer, i64_at, i64_bytes, i8_at, i8_bytes, wrote};
use vstd::prelude::*;

verus! {

pub const ENCODED_LENGTH: usize = 9;

pub struct DecEncoder<P> {
    parent: Option<P>,
    offset: usize,
}

impl<P> DecEncoder<P> {
    pub closed spec fn spec_parent(&self) -> Option<P> {
        self.parent
    }

    pub closed spec fn spec_offset(&self) -> usize {
        self.offset
    }
}

impl<P> Default for DecEncoder<P> {
    fn default() -> (c: Self)
        ensures
            c.spec_parent() is None,
            c.spec_offset() == 0,
    {
        DecEncoder { parent: None, offset: 0 }
    }
}

impl<P: Writer> Writer for DecEncoder<P> {
    closed spec fn wbuf(&self) -> WriteBuf {
        self.parent.unwrap().wbuf()
    }

    closed spec fn with_wbuf(&self, b: WriteBuf) -> Self {
        DecEncoder { parent: Some(self.parent.unwrap().with_wbuf(b)), offset: self.offset }
    }

    closed spec fn has_wbuf(&self) -> bool {
        self.parent is Some && self.parent.unwrap().has_wbuf()
    }

    proof fn lemma_with_wbuf(&self, b: WriteBuf, c: WriteBuf) {
        self.parent.unwrap().lemma_with_wbuf(b, c);
    }

    fn get_buf_mut(&mut self) -> (b: &mut WriteBuf) {
        match &mut self.parent {
            Some(parent) => parent.get_buf_mut(),
            None => vstd::pervasive::unreached(),
        }
    }
}

impl<P: Writer> DecEncoder<P> {
    /// The codec writes its parent's buffer.
    pub proof fn lemma_parent(&self)
        ensures
            self.has_wbuf() <==> (self.spec_parent() is Some && self.spec_parent().unwrap().has_wbuf()),
            self.spec_parent() is Some ==> self.wbuf() == self.spec_parent().unwrap().wbuf(),
    {
    }

    /// The codec's parent and offset after its buffer is replaced.
    pub proof fn lemma_frame(&self, b: WriteBuf)
        requires
            self.has_wbuf(),
        ensures
            self.with_wbuf(b).spec_offset() == self.spec_offset(),
            self.with_wbuf(b).spec_parent() == Some(self.spec_parent().unwrap().with_wbuf(b)),
            self.wbuf() == self.spec_parent().unwrap().wbuf(),
            self.spec_parent().unwrap().has_wbuf(),
    {
    }

    /// A write through the codec is the same write through its parent.
    pub proof fn lemma_parent_wrote(&self, next: Self, at: int, bytes: Seq<u8>)
        requires
            self.has_wbuf(),
            0 <= at,
            at + bytes.len() <= self.wbuf()@.len(),
            wrote(*self, next, at, bytes),
        ensures
            next.spec_parent() is Some,
            next.spec_offset() == self.spec_offset(),
            wrote(self.spec_parent().unwrap(), next.spec_parent().unwrap(), at, bytes),
    {
        self.lemma_frame(next.wbuf());
        crate::market_api::lemma_splice(self.wbuf()@, at, bytes);
        self.spec_parent().unwrap().lemma_with_wbuf(next.wbuf(), next.wbuf());
    }

    pub fn wrap(self, parent: P, offset: usize) -> (c: Self)
        ensures
            c.spec_parent() == Some(parent),
            c.spec_offset() == offset,
            c.has_wbuf() == parent.has_wbuf(),
            c.wbuf() == parent.wbuf(),
    {
        let mut s = self;
        s.parent = Some(parent);
        s.offset = offset;
        s
    }

    /// Hands the parent back, once.
    pub fn parent(&mut self) -> (r: SbeResult<P>)
        ensures
            r == (match old(self).spec_parent() {
                Some(p) => Ok(p),
                None => Err(SbeErr::ParentNotSet),
            }),
            final(self).spec_parent() is None,
            final(self).spec_offset() == old(self).spec_offset(),
    {
        match self.parent.take() {
            Some(p) => Ok(p),
            None => Err(SbeErr::ParentNotSet),
        }
    }

    pub fn mantissa(&mut self, value: i64)
        requires
            old(self).has_wbuf(),
            old(self).spec_offset() + 8 <= old(self).wbuf()@.len(),
        ensures
            wrote(*old(self), *final(self), old(self).spec_offset() as int, i64_bytes(value)),
            final(self).spec_offset() == old(self).spec_offset(),
            final(self).wbuf()@.len() == old(self).wbuf()@.len(),
    {
        proof {
            old(self).lemma_with_wbuf(old(self).wbuf(), old(self).wbuf());
        }
        let offset = self.offset;
        let b = self.get_buf_mut();
        b.put_i64_at(offset, value);
        proof {
            old(self).lemma_with_wbuf(*b, *b);
        }
        proof {
            old(self).lemma_frame(self.wbuf());
            crate::market_api::lemma_splice(old(self).wbuf()@, old(self).spec_offset() as int, i64_bytes(value));
        }
    }

    pub fn exponent(&mut self, value: i8)
        requires
            old(self).has_wbuf(),
            old(self).spec_offset() + 9 <= old(self).wbuf()@.len(),
        ensures
            wrote(*old(self), *final(self), old(self).spec_offset() + 8, i8_bytes(value)),
            final(self).spec_offset() == old(self).spec_offset(),
            final(self).wbuf()@.len() == old(self).wbuf()@.len(),
    {
        proof {
            old(self).lemma_with_wbuf(old(self).wbuf(), old(self).wbuf());
        }
        let offset = self.offset + 8;
        let b = self.get_buf_mut();
        b.put_i8_at(offset, value);
        proof {
            old(self).lemma_with_wbuf(*b, *b);
        }
        proof {
            old(self).lemma_frame(self.wbuf());
            crate::market_api::lemma_splice(old(self).wbuf()@, old(self).spec_offset() + 8, i8_bytes(value));
        }
    }

}

pub struct DecDecoder<P> {
    parent: Option<P>,
    offset: usize,
}

impl<P> DecDecoder<P> {
    pub closed spec fn spec_parent(&self) -> Option<P> {
        self.parent
    }

    pub closed spec fn spec_offset(&self) -> usize {
        self.offset
    }
}

impl<P> Default for DecDecoder<P> {
    fn default() -> (c: Self)
        ensures
            c.spec_parent() is None,
            c.spec_offset() == 0,
    {
        DecDecoder { parent: None, offset: 0 }
    }
}

impl<'a, P: Reader<'a>> Reader<'a> for DecDecoder<P> {
    closed spec fn rbuf(&self) -> Seq<u8> {
        self.parent.unwrap().rbuf()
    }

    closed spec fn has_rbuf(&self) -> bool {
        self.parent is Some && self.parent.unwrap().has_rbuf()
    }

    proof fn lemma_rbuf_len(&self) {
        self.parent.unwrap().lemma_rbuf_len();
    }

    fn get_buf(&self) -> (b: &ReadBuf<'a>) {
        match &self.parent {
            Some(parent) => parent.get_buf(),
            None => vstd::pervasive::unreached(),
        }
    }
}

impl<'a, P: Reader<'a>> DecDecoder<P> {
    /// The codec reads its parent's buffer.
    pub proof fn lemma_reader(&self)
        ensures
            self.has_rbuf() <==> (self.spec_parent() is Some && self.spec_parent().unwrap().has_rbuf()),
            self.spec_parent() is Some ==> self.rbuf() == self.spec_parent().unwrap().rbuf(),
    {
    }

    pub fn wrap(self, parent: P, offset: usize) -> (c: Self)
        ensures
            c.spec_parent() == Some(parent),
            c.spec_offset() == offset,
            c.has_rbuf() == parent.has_rbuf(),
            c.rbuf() == parent.rbuf(),
    {
        let mut s = self;
        s.parent = Some(parent);
        s.offset = offset;
        s
    }

    /// Hands the parent back, once.
    pub fn parent(&mut self) -> (r: SbeResult<P>)
        ensures
            r == (match old(self).spec_parent() {
                Some(p) => Ok(p),
                None => Err(SbeErr::ParentNotSet),
            }),
            final(self).spec_parent() is None,
            final(self).spec_offset() == old(self).spec_offset(),
    {
        match self.parent.take() {
            Some(p) => Ok(p),
            None => Err(SbeErr::ParentNotSet),
        }
    }

    pub fn mantissa(&self) -> (v: i64)
        requires
            self.has_rbuf(),
            self.spec_offset() + 8 <= self.rbuf().len(),
        ensures
            v == i64_at(self.rbuf(), self.spec_offset() as int),
    {
        proof {
            self.lemma_rbuf_len();
        }
        self.get_buf().get_i64_at(self.offset)
    }

    pub fn exponent(&self) -> (v: i8)
        requires
            self.has_rbuf(),
            self.spec_offset() + 9 <= self.rbuf().len(),
        ensures
            v == i8_at(self.rbuf(), self.spec_offset() + 8),
    {
        proof {
            self.lemma_rbuf_len();
        }
        self.get_buf().get_i8_at(self.offset + 8)
    }

}

} // verus!
