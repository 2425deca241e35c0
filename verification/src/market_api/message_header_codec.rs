//! The message header: block length, template id, schema id and version (`u16` each).
use crate::market_api::{ReadBuf, Reader, SbeErr, SbeResult, WriteBuf, Writer, u16_at, u16_bytes, wrote};
use vstd::prelude::*;

verus! {

pub const ENCODED_LENGTH: usize = 8;

pub struct MessageHeaderEncoder<P> {
    parent: Option<P>,
    offset: usize,
}

impl<P> MessageHeaderEncoder<P> {
    pub closed spec fn spec_parent(&self) -> Option<P> {
        self.parent
    }

    pub closed spec fn spec_offset(&self) -> usize {
        self.offset
    }
}

impl<P> Default for MessageHeaderEncoder<P> {
    fn default() -> (c: Self)
        ensures
            c.spec_parent() is None,
            c.spec_offset() == 0,
    {
        MessageHeaderEncoder { parent: None, offset: 0 }
    }
}

impl<P: Writer> Writer for MessageHeaderEncoder<P> {
    closed spec fn wbuf(&self) -> WriteBuf {
        self.parent.unwrap().wbuf()
    }

    closed spec fn with_wbuf(&self, b: WriteBuf) -> Self {
        MessageHeaderEncoder { parent: Some(self.parent.unwrap().with_wbuf(b)), offset: self.offset }
    }

    closed spec fn has_wbuf(&self) -> bool {
        self.parent is Some && self.parent.unwrap().has_wbuf()
    }

    proof fn lemma_with_wbuf(&self, b: WriteBuf, c: WriteBuf) {
        self.parent.unwrap().lemma_with_wbuf(b, c);
    }

    fn get_buf_mut(&mut self) -> (b: &mut WriteBuf) {
        match &mut self.parent {
            Some(parent) => parent.get_buf_mut(),
            None => vstd::pervasive::unreached(),
        }
    }
}

impl<P: Writer> MessageHeaderEncoder<P> {
    /// The codec's parent and offset after its buffer is replaced.
    pub proof fn lemma_frame(&self, b: WriteBuf)
        requires
            self.has_wbuf(),
        ensures
            self.with_wbuf(b).spec_offset() == self.spec_offset(),
            self.with_wbuf(b).spec_parent() == Some(self.spec_parent().unwrap().with_wbuf(b)),
            self.wbuf() == self.spec_parent().unwrap().wbuf(),
            self.spec_parent().unwrap().has_wbuf(),
    {
    }

    pub fn wrap(self, parent: P, offset: usize) -> (c: Self)
        ensures
            c.spec_parent() == Some(parent),
            c.spec_offset() == offset,
            c.has_wbuf() == parent.has_wbuf(),
            c.wbuf() == parent.wbuf(),
    {
        let mut s = self;
        s.parent = Some(parent);
        s.offset = offset;
        s
    }

    /// Hands the parent back, once.
    pub fn parent(&mut self) -> (r: SbeResult<P>)
        ensures
            r == (match old(self).spec_parent() {
                Some(p) => Ok(p),
                None => Err(SbeErr::ParentNotSet),
            }),
            final(self).spec_parent() is None,
            final(self).spec_offset() == old(self).spec_offset(),
    {
        match self.parent.take() {
            Some(p) => Ok(p),
            None => Err(SbeErr::ParentNotSet),
        }
    }

    pub fn block_length(&mut self, value: u16)
        requires
            old(self).has_wbuf(),
            old(self).spec_offset() + 2 <= old(self).wbuf()@.len(),
        ensures
            wrote(*old(self), *final(self), old(self).spec_offset() as int, u16_bytes(value)),
            final(self).spec_offset() == old(self).spec_offset(),
            final(self).wbuf()@.len() == old(self).wbuf()@.len(),
    {
        proof {
            old(self).lemma_with_wbuf(old(self).wbuf(), old(self).wbuf());
        }
        let offset = self.offset;
        let b = self.get_buf_mut();
        b.put_u16_at(offset, value);
        proof {
            old(self).lemma_with_wbuf(*b, *b);
        }
        proof {
            old(self).lemma_frame(self.wbuf());
            crate::market_api::lemma_splice(old(self).wbuf()@, old(self).spec_offset() as int, u16_bytes(value));
        }
    }

    pub fn template_id(&mut self, value: u16)
        requires
            old(self).has_wbuf(),
            old(self).spec_offset() + 4 <= old(self).wbuf()@.len(),
        ensures
            wrote(*old(self), *final(self), old(self).spec_offset() + 2, u16_bytes(value)),
            final(self).spec_offset() == old(self).spec_offset(),
            final(self).wbuf()@.len() == old(self).wbuf()@.len(),
    {
        proof {
            old(self).lemma_with_wbuf(old(self).wbuf(), old(self).wbuf());
        }
        let offset = self.offset + 2;
        let b = self.get_buf_mut();
        b.put_u16_at(offset, value);
        proof {
            old(self).lemma_with_wbuf(*b, *b);
        }
        proof {
            old(self).lemma_frame(self.wbuf());
            crate::market_api::lemma_splice(old(self).wbuf()@, old(self).spec_offset() + 2, u16_bytes(value));
        }
    }

    pub fn schema_id(&mut self, value: u16)
        requires
            old(self).has_wbuf(),
            old(self).spec_offset() + 6 <= old(self).wbuf()@.len(),
        ensures
            wrote(*old(self), *final(self), old(self).spec_offset() + 4, u16_bytes(value)),
            final(self).spec_offset() == old(self).spec_offset(),
            final(self).wbuf()@.len() == old(self).wbuf()@.len(),
    {
        proof {
            old(self).lemma_with_wbuf(old(self).wbuf(), old(self).wbuf());
        }
        let offset = self.offset + 4;
        let b = self.get_buf_mut();
        b.put_u16_at(offset, value);
        proof {
            old(self).lemma_with_wbuf(*b, *b);
        }
        proof {
            old(self).lemma_frame(self.wbuf());
            crate::market_api::lemma_splice(old(self).wbuf()@, old(self).spec_offset() + 4, u16_bytes(value));
        }
    }

    pub fn version(&mut self, value: u16)
        requires
            old(self).has_wbuf(),
            old(self).spec_offset() + 8 <= old(self).wbuf()@.len(),
        ensures
            wrote(*old(self), *final(self), old(self).spec_offset() + 6, u16_bytes(value)),
            final(self).spec_offset() == old(self).spec_offset(),
            final(self).wbuf()@.len() == old(self).wbuf()@.len(),
    {
        proof {
            old(self).lemma_with_wbuf(old(self).wbuf(), old(self).wbuf());
        }
        let offset = self.offset + 6;
        let b = self.get_buf_mut();
        b.put_u16_at(offset, value);
        proof {
            old(self).lemma_with_wbuf(*b, *b);
        }
        proof {
            old(self).lemma_frame(self.wbuf());
            crate::market_api::lemma_splice(old(self).wbuf()@, old(self).spec_offset() + 6, u16_bytes(value));
        }
    }

}

pub struct MessageHeaderDecoder<P> {
    parent: Option<P>,
    offset: usize,
}

impl<P> MessageHeaderDecoder<P> {
    pub closed spec fn spec_parent(&self) -> Option<P> {
        self.parent
    }

    pub closed spec fn spec_offset(&self) -> usize {
        self.offset
    }
}

impl<P> Default for MessageHeaderDecoder<P> {
    fn default() -> (c: Self)
        ensures
            c.spec_parent() is None,
            c.spec_offset() == 0,
    {
        MessageHeaderDecoder { parent: None, offset: 0 }
    }
}

impl<'a, P: Reader<'a>> Reader<'a> for MessageHeaderDecoder<P> {
    closed spec fn rbuf(&self) -> Seq<u8> {
        self.parent.unwrap().rbuf()
    }

    closed spec fn has_rbuf(&self) -> bool {
        self.parent is Some && self.parent.unwrap().has_rbuf()
    }

    proof fn lemma_rbuf_len(&self) {
        self.parent.unwrap().lemma_rbuf_len();
    }

    fn get_buf(&self) -> (b: &ReadBuf<'a>) {
        match &self.parent {
            Some(parent) => parent.get_buf(),
            None => vstd::pervasive::unreached(),
        }
    }
}

impl<'a, P: Reader<'a>> MessageHeaderDecoder<P> {
    pub proof fn lemma_reader(&self)
        requires
            self.has_rbuf(),
        ensures
            self.rbuf() == self.spec_parent().unwrap().rbuf(),
            self.spec_parent().unwrap().has_rbuf(),
    {
    }

    pub fn wrap(self, parent: P, offset: usize) -> (c: Self)
        ensures
            c.spec_parent() == Some(parent),
            c.spec_offset() == offset,
            c.has_rbuf() == parent.has_rbuf(),
            c.rbuf() == parent.rbuf(),
    {
        let mut s = self;
        s.parent = Some(parent);
        s.offset = offset;
        s
    }

    /// Hands the parent back, once.
    pub fn parent(&mut self) -> (r: SbeResult<P>)
        ensures
            r == (match old(self).spec_parent() {
                Some(p) => Ok(p),
                None => Err(SbeErr::ParentNotSet),
            }),
            final(self).spec_parent() is None,
            final(self).spec_offset() == old(self).spec_offset(),
    {
        match self.parent.take() {
            Some(p) => Ok(p),
            None => Err(SbeErr::ParentNotSet),
        }
    }

    pub fn block_length(&self) -> (v: u16)
        requires
            self.has_rbuf(),
            self.spec_offset() + 2 <= self.rbuf().len(),
        ensures
            v == u16_at(self.rbuf(), self.spec_offset() as int),
    {
        proof {
            self.lemma_rbuf_len();
        }
        self.get_buf().get_u16_at(self.offset)
    }

    pub fn template_id(&self) -> (v: u16)
        requires
            self.has_rbuf(),
            self.spec_offset() + 4 <= self.rbuf().len(),
        ensures
            v == u16_at(self.rbuf(), self.spec_offset() + 2),
    {
        proof {
            self.lemma_rbuf_len();
        }
        self.get_buf().get_u16_at(self.offset + 2)
    }

    pub fn schema_id(&self) -> (v: u16)
        requires
            self.has_rbuf(),
            self.spec_offset() + 6 <= self.rbuf().len(),
        ensures
            v == u16_at(self.rbuf(), self.spec_offset() + 4),
    {
        proof {
            self.lemma_rbuf_len();
        }
        self.get_buf().get_u16_at(self.offset + 4)
    }

    pub fn version(&self) -> (v: u16)
        requires
            self.has_rbuf(),
            self.spec_offset() + 8 <= self.rbuf().len(),
        ensures
            v == u16_at(self.rbuf(), self.spec_offset() + 6),
    {
        proof {
            self.lemma_rbuf_len();
        }
        self.get_buf().get_u16_at(self.offset + 6)
    }

}

} // verus!
