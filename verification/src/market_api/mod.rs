//! Simple Binary Encoding of the market messages: the buffers that the codecs
//! read and write, little-endian, and the traits that let a composite codec
//! reach the buffer of the message that it belongs to.
pub mod asset;
pub mod bbo_msg_codec;
pub mod dec_codec;
pub mod exchange;
pub mod instrument_codec;
pub mod instrument_type;
pub mod message_header_codec;
pub mod orderbook_flags;
pub mod orderbook_msg_codec;
pub mod quote_msg_codec;
pub mod symbol_codec;
pub mod symbol_type;
pub mod trade_msg_codec;

use vstd::bytes::{
    spec_u16_from_le_bytes, spec_u16_to_le_bytes, spec_u32_from_le_bytes, spec_u32_to_le_bytes,
    spec_u64_from_le_bytes, spec_u64_to_le_bytes,
};
use vstd::prelude::*;

verus! {

/// Errors of the codecs.
#[derive(Debug, Clone, Copy, PartialEq, Eq, Structural)]
pub enum SbeErr {
    /// A composite codec was asked for its parent a second time.
    ParentNotSet,
}

pub type SbeResult<T> = Result<T, SbeErr>;

/// `s` with `bytes` written over it from index `at`.
pub open spec fn splice(s: Seq<u8>, at: int, bytes: Seq<u8>) -> Seq<u8> {
    s.subrange(0, at) + bytes + s.subrange(at + bytes.len(), s.len() as int)
}

/// `n` zero bytes.
pub open spec fn zeros(n: int) -> Seq<u8> {
    Seq::new(n as nat, |i: int| 0u8)
}

/// The little-endian `u16` at index `i`.
pub open spec fn u16_at(s: Seq<u8>, i: int) -> u16 {
    spec_u16_from_le_bytes(s.subrange(i, i + 2))
}

/// The little-endian `u32` at index `i`.
pub open spec fn u32_at(s: Seq<u8>, i: int) -> u32 {
    spec_u32_from_le_bytes(s.subrange(i, i + 4))
}

/// The little-endian `u64` at index `i`.
pub open spec fn u64_at(s: Seq<u8>, i: int) -> u64 {
    spec_u64_from_le_bytes(s.subrange(i, i + 8))
}

/// The little-endian two's-complement `i64` at index `i`.
pub open spec fn i64_at(s: Seq<u8>, i: int) -> i64 {
    u64_at(s, i) as i64
}

/// The two's-complement `i8` at index `i`.
pub open spec fn i8_at(s: Seq<u8>, i: int) -> i8 {
    s[i] as i8
}

pub open spec fn u16_bytes(v: u16) -> Seq<u8> {
    spec_u16_to_le_bytes(v)
}

pub open spec fn u32_bytes(v: u32) -> Seq<u8> {
    spec_u32_to_le_bytes(v)
}

pub open spec fn u64_bytes(v: u64) -> Seq<u8> {
    spec_u64_to_le_bytes(v)
}

pub open spec fn i64_bytes(v: i64) -> Seq<u8> {
    spec_u64_to_le_bytes(v as u64)
}

pub open spec fn i8_bytes(v: i8) -> Seq<u8> {
    seq![v as u8]
}

/// `a` and `b` differ at most in `[lo, hi)`.
pub open spec fn same_outside(a: Seq<u8>, b: Seq<u8>, lo: int, hi: int) -> bool {
    &&& a.len() == b.len()
    &&& forall|j: int| 0 <= j < a.len() && !(lo <= j < hi) ==> #[trigger] a[j] == b[j]
}

pub proof fn lemma_encodings_len(a: u16, b: u32, c: u64, d: i64)
    ensures
        u16_bytes(a).len() == 2,
        u32_bytes(b).len() == 4,
        u64_bytes(c).len() == 8,
        i64_bytes(d).len() == 8,
{
    vstd::bytes::lemma_auto_spec_u16_to_from_le_bytes();
    vstd::bytes::lemma_auto_spec_u32_to_from_le_bytes();
    vstd::bytes::lemma_auto_spec_u64_to_from_le_bytes();
}

/// Writing bytes changes only where they are written.
pub proof fn lemma_splice(s: Seq<u8>, at: int, bytes: Seq<u8>)
    requires
        0 <= at,
        at + bytes.len() <= s.len(),
    ensures
        splice(s, at, bytes).len() == s.len(),
        splice(s, at, bytes).subrange(at, at + bytes.len()) == bytes,
        same_outside(s, splice(s, at, bytes), at, at + bytes.len()),
        forall|j: int| at <= j < at + bytes.len() ==> #[trigger] splice(s, at, bytes)[j] == bytes[j - at],
{
    let t = splice(s, at, bytes);
    assert(t.subrange(at, at + bytes.len()) =~= bytes);
}

/// Bytes that stay the same outside a region read the same outside it.
pub proof fn lemma_same_outside_subrange(a: Seq<u8>, b: Seq<u8>, lo: int, hi: int, i: int, n: int)
    requires
        same_outside(a, b, lo, hi),
        0 <= i,
        0 <= n,
        i + n <= a.len(),
        i + n <= lo || hi <= i,
    ensures
        a.subrange(i, i + n) == b.subrange(i, i + n),
{
    assert(a.subrange(i, i + n) =~= b.subrange(i, i + n));
}

/// Writing bytes leaves the bytes outside them as they were.
pub proof fn lemma_splice_keeps(s: Seq<u8>, at: int, bytes: Seq<u8>, i: int, n: int)
    requires
        0 <= at,
        at + bytes.len() <= s.len(),
        0 <= i,
        0 <= n,
        i + n <= s.len(),
        i + n <= at || at + bytes.len() <= i,
    ensures
        splice(s, at, bytes).subrange(i, i + n) == s.subrange(i, i + n),
        splice(s, at, bytes).len() == s.len(),
{
    lemma_splice(s, at, bytes);
    lemma_same_outside_subrange(s, splice(s, at, bytes), at, at + bytes.len(), i, n);
}

/// Sequences that agree on `[lo, hi)` agree on each byte and each piece of it.
pub proof fn lemma_same_region(a: Seq<u8>, c: Seq<u8>, lo: int, hi: int)
    requires
        0 <= lo <= hi,
        hi <= a.len(),
        hi <= c.len(),
        a.subrange(lo, hi) == c.subrange(lo, hi),
    ensures
        forall|k: int| lo <= k < hi ==> #[trigger] a[k] == c[k],
        forall|i: int, j: int| lo <= i <= j <= hi ==> #[trigger] a.subrange(i, j) == c.subrange(i, j),
{
    assert forall|k: int| lo <= k < hi implies #[trigger] a[k] == c[k] by {
        assert(a[k] == a.subrange(lo, hi)[k - lo]);
        assert(c[k] == c.subrange(lo, hi)[k - lo]);
    }
    assert forall|i: int, j: int| lo <= i <= j <= hi implies #[trigger] a.subrange(i, j) == c.subrange(i, j) by {
        assert(a.subrange(i, j) =~= c.subrange(i, j));
    }
}

/// Two writes side by side are one write of both.
pub proof fn lemma_splice_concat(s: Seq<u8>, at: int, a: Seq<u8>, b: Seq<u8>)
    requires
        0 <= at,
        at + a.len() + b.len() <= s.len(),
    ensures
        splice(splice(s, at, a), at + a.len(), b) == splice(s, at, a + b),
{
    assert(splice(splice(s, at, a), at + a.len(), b) =~= splice(s, at, a + b));
}

/// What is written is read back.
pub proof fn lemma_read_back(s: Seq<u8>, at: int, a: u16, b: u32, c: u64, d: i64)
    requires
        0 <= at,
    ensures
        at + 2 <= s.len() ==> u16_at(splice(s, at, u16_bytes(a)), at) == a,
        at + 4 <= s.len() ==> u32_at(splice(s, at, u32_bytes(b)), at) == b,
        at + 8 <= s.len() ==> u64_at(splice(s, at, u64_bytes(c)), at) == c,
        at + 8 <= s.len() ==> i64_at(splice(s, at, i64_bytes(d)), at) == d,
{
    vstd::bytes::lemma_auto_spec_u16_to_from_le_bytes();
    vstd::bytes::lemma_auto_spec_u32_to_from_le_bytes();
    vstd::bytes::lemma_auto_spec_u64_to_from_le_bytes();
    if at + 2 <= s.len() {
        lemma_splice(s, at, u16_bytes(a));
    }
    if at + 4 <= s.len() {
        lemma_splice(s, at, u32_bytes(b));
    }
    if at + 8 <= s.len() {
        lemma_splice(s, at, u64_bytes(c));
        lemma_splice(s, at, i64_bytes(d));
        let x = d as u64;
        assert(x as i64 == d) by (bit_vector)
            requires
                x == d as u64,
        ;
    }
}

/// A buffer being written.
pub struct WriteBuf {
    data: Vec<u8>,
}

impl View for WriteBuf {
    type V = Seq<u8>;

    closed spec fn view(&self) -> Seq<u8> {
        self.data@
    }
}

impl WriteBuf {
    pub fn new(data: Vec<u8>) -> (b: WriteBuf)
        ensures
            b@ == data@,
            b@.len() <= usize::MAX,
    {
        let _n = data.len();
        WriteBuf { data }
    }

    /// The bytes written, handing the buffer back.
    pub fn into_inner(self) -> (data: Vec<u8>)
        ensures
            data@ == self@,
    {
        self.data
    }

    pub fn len(&self) -> (n: usize)
        ensures
            n == self@.len(),
    {
        self.data.len()
    }

    fn put_bytes_at(&mut self, index: usize, bytes: &[u8])
        requires
            index + bytes@.len() <= old(self)@.len(),
        ensures
            final(self)@ == splice(old(self)@, index as int, bytes@),
            final(self)@.len() == old(self)@.len(),
    {
        proof {
            lemma_splice(old(self)@, index as int, bytes@);
        }
        let _n = self.data.len();
        let mut k: usize = 0;
        while k < bytes.len()
            invariant
                0 <= k <= bytes@.len(),
                index + bytes@.len() <= old(self)@.len(),
                old(self)@.len() <= usize::MAX,
                self@ == splice(old(self)@, index as int, bytes@.take(k as int)),
            decreases bytes@.len() - k,
        {
            let ghost before = self@;
            self.data.set(index + k, bytes[k]);
            proof {
                assert(self@ =~= splice(old(self)@, index as int, bytes@.take(k + 1)));
            }
            k = k + 1;
        }
        proof {
            assert(bytes@.take(k as int) =~= bytes@);
        }
    }

    pub fn put_u8_at(&mut self, index: usize, value: u8)
        requires
            index < old(self)@.len(),
        ensures
            final(self)@ == splice(old(self)@, index as int, seq![value]),
            final(self)@.len() == old(self)@.len(),
    {
        self.data.set(index, value);
        proof {
            assert(self@ =~= splice(old(self)@, index as int, seq![value]));
        }
    }

    pub fn put_i8_at(&mut self, index: usize, value: i8)
        requires
            index < old(self)@.len(),
        ensures
            final(self)@ == splice(old(self)@, index as int, i8_bytes(value)),
            final(self)@.len() == old(self)@.len(),
    {
        self.put_u8_at(index, value as u8);
    }

    pub fn put_u16_at(&mut self, index: usize, value: u16)
        requires
            index + 2 <= old(self)@.len(),
        ensures
            final(self)@ == splice(old(self)@, index as int, u16_bytes(value)),
            final(self)@.len() == old(self)@.len(),
    {
        proof {
            lemma_encodings_len(value, 0, 0, 0);
        }
        let bytes = vstd::bytes::u16_to_le_bytes(value);
        self.put_bytes_at(index, bytes.as_slice());
    }

    pub fn put_u32_at(&mut self, index: usize, value: u32)
        requires
            index + 4 <= old(self)@.len(),
        ensures
            final(self)@ == splice(old(self)@, index as int, u32_bytes(value)),
            final(self)@.len() == old(self)@.len(),
    {
        proof {
            lemma_encodings_len(0, value, 0, 0);
        }
        let bytes = vstd::bytes::u32_to_le_bytes(value);
        self.put_bytes_at(index, bytes.as_slice());
    }

    pub fn put_u64_at(&mut self, index: usize, value: u64)
        requires
            index + 8 <= old(self)@.len(),
        ensures
            final(self)@ == splice(old(self)@, index as int, u64_bytes(value)),
            final(self)@.len() == old(self)@.len(),
    {
        proof {
            lemma_encodings_len(0, 0, value, 0);
        }
        let bytes = vstd::bytes::u64_to_le_bytes(value);
        self.put_bytes_at(index, bytes.as_slice());
    }

    pub fn put_i64_at(&mut self, index: usize, value: i64)
        requires
            index + 8 <= old(self)@.len(),
        ensures
            final(self)@ == splice(old(self)@, index as int, i64_bytes(value)),
            final(self)@.len() == old(self)@.len(),
    {
        proof {
            lemma_encodings_len(0, 0, 0, value);
        }
        self.put_u64_at(index, value as u64);
    }
}

/// A buffer being read.
pub struct ReadBuf<'a> {
    data: &'a [u8],
}

impl<'a> View for ReadBuf<'a> {
    type V = Seq<u8>;

    closed spec fn view(&self) -> Seq<u8> {
        self.data@
    }
}

impl<'a> ReadBuf<'a> {
    pub fn new(data: &'a [u8]) -> (b: ReadBuf<'a>)
        ensures
            b@ == data@,
            b.has_rbuf(),
    {
        let _n = data.len();
        ReadBuf { data }
    }

    pub fn len(&self) -> (n: usize)
        ensures
            n == self@.len(),
    {
        self.data.len()
    }

    pub fn get_u8_at(&self, index: usize) -> (v: u8)
        requires
            index < self@.len(),
        ensures
            v == self@[index as int],
    {
        self.data[index]
    }

    pub fn get_i8_at(&self, index: usize) -> (v: i8)
        requires
            index < self@.len(),
        ensures
            v == i8_at(self@, index as int),
    {
        self.data[index] as i8
    }

    pub fn get_u16_at(&self, index: usize) -> (v: u16)
        requires
            index + 2 <= self@.len(),
        ensures
            v == u16_at(self@, index as int),
    {
        let _n = self.data.len();
        vstd::bytes::u16_from_le_bytes(vstd::slice::slice_subrange(self.data, index, index + 2))
    }

    pub fn get_u32_at(&self, index: usize) -> (v: u32)
        requires
            index + 4 <= self@.len(),
        ensures
            v == u32_at(self@, index as int),
    {
        let _n = self.data.len();
        vstd::bytes::u32_from_le_bytes(vstd::slice::slice_subrange(self.data, index, index + 4))
    }

    pub fn get_u64_at(&self, index: usize) -> (v: u64)
        requires
            index + 8 <= self@.len(),
        ensures
            v == u64_at(self@, index as int),
    {
        let _n = self.data.len();
        vstd::bytes::u64_from_le_bytes(vstd::slice::slice_subrange(self.data, index, index + 8))
    }

    pub fn get_i64_at(&self, index: usize) -> (v: i64)
        requires
            index + 8 <= self@.len(),
        ensures
            v == i64_at(self@, index as int),
    {
        self.get_u64_at(index) as i64
    }
}

/// A codec that writes into a buffer (its own, or that of its parent).
pub trait Writer: Sized {
    /// The buffer written into.
    spec fn wbuf(&self) -> WriteBuf;

    /// This codec with its buffer replaced.
    spec fn with_wbuf(&self, b: WriteBuf) -> Self;

    /// Whether the codec reaches a buffer.
    spec fn has_wbuf(&self) -> bool;

    proof fn lemma_with_wbuf(&self, b: WriteBuf, c: WriteBuf)
        requires
            self.has_wbuf(),
        ensures
            self.with_wbuf(b).wbuf() == b,
            b@.len() == self.wbuf()@.len() ==> self.with_wbuf(b).has_wbuf(),
            self.with_wbuf(b).with_wbuf(c) == self.with_wbuf(c),
            self.with_wbuf(self.wbuf()) == *self,
            self.wbuf()@.len() <= usize::MAX,
    ;

    fn get_buf_mut(&mut self) -> (b: &mut WriteBuf)
        requires
            old(self).has_wbuf(),
        ensures
            *b == old(self).wbuf(),
            *final(self) == old(self).with_wbuf(*final(b)),
    ;
}

/// `new` is `old` with `bytes` written at `at`.
pub open spec fn wrote<W: Writer>(old: W, new: W, at: int, bytes: Seq<u8>) -> bool {
    &&& new.has_wbuf()
    &&& new == old.with_wbuf(new.wbuf())
    &&& new.wbuf()@ == splice(old.wbuf()@, at, bytes)
}

/// A message codec that keeps where the message currently ends.
pub trait Encoder: Writer {
    spec fn limit(&self) -> usize;

    spec fn with_limit(&self, limit: usize) -> Self;

    proof fn lemma_with_limit(&self, limit: usize, b: WriteBuf)
        requires
            self.has_wbuf(),
        ensures
            self.with_limit(limit).limit() == limit,
            self.with_limit(limit).wbuf() == self.wbuf(),
            self.with_limit(limit).has_wbuf(),
            self.with_wbuf(b).limit() == self.limit(),
            self.with_limit(limit).with_wbuf(b) == self.with_wbuf(b).with_limit(limit),
    ;

    fn get_limit(&self) -> (l: usize)
        requires
            self.has_wbuf(),
        ensures
            l == self.limit(),
    ;

    fn set_limit(&mut self, limit: usize)
        requires
            old(self).has_wbuf(),
        ensures
            *final(self) == old(self).with_limit(limit),
    ;
}

/// A codec that reads from a buffer (its own, or that of its parent).
pub trait Reader<'a> {
    /// The bytes read from.
    spec fn rbuf(&self) -> Seq<u8>;

    /// Whether the codec reaches a buffer.
    spec fn has_rbuf(&self) -> bool;

    proof fn lemma_rbuf_len(&self)
        requires
            self.has_rbuf(),
        ensures
            self.rbuf().len() <= usize::MAX,
    ;

    fn get_buf(&self) -> (b: &ReadBuf<'a>)
        requires
            self.has_rbuf(),
        ensures
            b@ == self.rbuf(),
    ;
}

/// A message decoder that keeps where the message currently ends.
pub trait Decoder<'a>: Reader<'a> + Sized {
    spec fn limit(&self) -> usize;

    spec fn with_limit(&self, limit: usize) -> Self;

    proof fn lemma_with_limit(&self, limit: usize)
        requires
            self.has_rbuf(),
        ensures
            self.with_limit(limit).limit() == limit,
            self.with_limit(limit).rbuf() == self.rbuf(),
            self.with_limit(limit).has_rbuf(),
    ;

    fn get_limit(&self) -> (l: usize)
        requires
            self.has_rbuf(),
        ensures
            l == self.limit(),
    ;

    fn set_limit(&mut self, limit: usize)
        requires
            old(self).has_rbuf(),
        ensures
            *final(self) == old(self).with_limit(limit),
    ;
}

impl<'a> Reader<'a> for ReadBuf<'a> {
    closed spec fn rbuf(&self) -> Seq<u8> {
        self@
    }

    closed spec fn has_rbuf(&self) -> bool {
        self@.len() <= usize::MAX
    }

    proof fn lemma_rbuf_len(&self) {
    }

    fn get_buf(&self) -> (b: &ReadBuf<'a>) {
        self
    }
}

impl<'a> ReadBuf<'a> {
    pub proof fn lemma_reader(&self)
        ensures
            self.rbuf() == self@,
            self.has_rbuf() == (self@.len() <= usize::MAX),
    {
    }
}

/// Two writes side by side are one write of both.
pub proof fn lemma_wrote_twice<W: Writer>(w0: W, w1: W, w2: W, at: int, a: Seq<u8>, b: Seq<u8>)
    requires
        w0.has_wbuf(),
        0 <= at,
        at + a.len() + b.len() <= w0.wbuf()@.len(),
        wrote(w0, w1, at, a),
        wrote(w1, w2, at + a.len(), b),
    ensures
        wrote(w0, w2, at, a + b),
{
    lemma_splice(w0.wbuf()@, at, a);
    lemma_splice_concat(w0.wbuf()@, at, a, b);
    w0.lemma_with_wbuf(w1.wbuf(), w2.wbuf());
}

/// The bytes of a message header.
pub open spec fn header_bytes(block_length: u16, template_id: u16, schema_id: u16, version: u16) -> Seq<u8> {
    u16_bytes(block_length) + u16_bytes(template_id) + u16_bytes(schema_id) + u16_bytes(version)
}

/// A message header takes 8 bytes.
pub proof fn lemma_header_bytes_len(block_length: u16, template_id: u16, schema_id: u16, version: u16)
    ensures
        header_bytes(block_length, template_id, schema_id, version).len() == 8,
{
    lemma_encodings_len(block_length, 0, 0, 0);
    lemma_encodings_len(template_id, 0, 0, 0);
    lemma_encodings_len(schema_id, 0, 0, 0);
    lemma_encodings_len(version, 0, 0, 0);
}

/// A message header reads back its four fields.
pub proof fn lemma_header_read_back(t: Seq<u8>, block_length: u16, template_id: u16, schema_id: u16, version: u16)
    requires
        t.len() >= 8,
        t.subrange(0, 8) == header_bytes(block_length, template_id, schema_id, version),
    ensures
        u16_at(t, 0) == block_length,
        u16_at(t, 2) == template_id,
        u16_at(t, 4) == schema_id,
        u16_at(t, 6) == version,
{
    let h = header_bytes(block_length, template_id, schema_id, version);
    lemma_header_bytes_len(block_length, template_id, schema_id, version);
    vstd::bytes::lemma_auto_spec_u16_to_from_le_bytes();
    assert(t.subrange(0, 2) =~= u16_bytes(block_length)) by {
        assert forall|j: int| 0 <= j < 2 implies t.subrange(0, 2)[j] == u16_bytes(block_length)[j] by {
            assert(t.subrange(0, 2)[j] == t.subrange(0, 8)[j]);
        }
    }
    assert(t.subrange(2, 4) =~= u16_bytes(template_id)) by {
        assert forall|j: int| 0 <= j < 2 implies t.subrange(2, 4)[j] == u16_bytes(template_id)[j] by {
            assert(t.subrange(2, 4)[j] == t.subrange(0, 8)[j + 2]);
            assert(h[j + 2] == u16_bytes(template_id)[j]);
        }
    }
    assert(t.subrange(4, 6) =~= u16_bytes(schema_id)) by {
        assert forall|j: int| 0 <= j < 2 implies t.subrange(4, 6)[j] == u16_bytes(schema_id)[j] by {
            assert(t.subrange(4, 6)[j] == t.subrange(0, 8)[j + 4]);
            assert(h[j + 4] == u16_bytes(schema_id)[j]);
        }
    }
    assert(t.subrange(6, 8) =~= u16_bytes(version)) by {
        assert forall|j: int| 0 <= j < 2 implies t.subrange(6, 8)[j] == u16_bytes(version)[j] by {
            assert(t.subrange(6, 8)[j] == t.subrange(0, 8)[j + 6]);
            assert(h[j + 6] == u16_bytes(version)[j]);
        }
    }
}

/// A message header written at `at` reads back its four fields there.
pub proof fn lemma_written_header_reads_back(
    s: Seq<u8>,
    at: int,
    block_length: u16,
    template_id: u16,
    schema_id: u16,
    version: u16,
)
    requires
        0 <= at,
        at + 8 <= s.len(),
    ensures
        u16_at(splice(s, at, header_bytes(block_length, template_id, schema_id, version)), at) == block_length,
        u16_at(splice(s, at, header_bytes(block_length, template_id, schema_id, version)), at + 2) == template_id,
        u16_at(splice(s, at, header_bytes(block_length, template_id, schema_id, version)), at + 4) == schema_id,
        u16_at(splice(s, at, header_bytes(block_length, template_id, schema_id, version)), at + 6) == version,
{
    let h = header_bytes(block_length, template_id, schema_id, version);
    lemma_header_bytes_len(block_length, template_id, schema_id, version);
    let w = splice(s, at, h);
    lemma_splice(s, at, h);
    let tail = w.subrange(at, w.len() as int);
    assert(tail.subrange(0, 8) =~= h);
    lemma_header_read_back(tail, block_length, template_id, schema_id, version);
    assert(tail.subrange(0, 2) =~= w.subrange(at, at + 2));
    assert(tail.subrange(2, 4) =~= w.subrange(at + 2, at + 4));
    assert(tail.subrange(4, 6) =~= w.subrange(at + 4, at + 6));
    assert(tail.subrange(6, 8) =~= w.subrange(at + 6, at + 8));
}

/// Four writes of `u16`s side by side are one write of their bytes.
pub proof fn lemma_four_u16<W: Writer>(
    w0: W,
    w1: W,
    w2: W,
    w3: W,
    w4: W,
    at: int,
    a: u16,
    b: u16,
    c: u16,
    d: u16,
)
    requires
        w0.has_wbuf(),
        0 <= at,
        at + 8 <= w0.wbuf()@.len(),
        wrote(w0, w1, at, u16_bytes(a)),
        wrote(w1, w2, at + 2, u16_bytes(b)),
        wrote(w2, w3, at + 4, u16_bytes(c)),
        wrote(w3, w4, at + 6, u16_bytes(d)),
    ensures
        wrote(w0, w4, at, header_bytes(a, b, c, d)),
{
    lemma_encodings_len(a, 0, 0, 0);
    lemma_encodings_len(b, 0, 0, 0);
    lemma_encodings_len(c, 0, 0, 0);
    lemma_encodings_len(d, 0, 0, 0);
    let s = w0.wbuf()@;
    lemma_splice(s, at, u16_bytes(a));
    lemma_splice_concat(s, at, u16_bytes(a), u16_bytes(b));
    lemma_splice_concat(s, at, u16_bytes(a) + u16_bytes(b), u16_bytes(c));
    lemma_splice_concat(s, at, u16_bytes(a) + u16_bytes(b) + u16_bytes(c), u16_bytes(d));
    w0.lemma_with_wbuf(w1.wbuf(), w2.wbuf());
    w0.lemma_with_wbuf(w2.wbuf(), w3.wbuf());
    w0.lemma_with_wbuf(w3.wbuf(), w4.wbuf());
    w0.lemma_with_wbuf(w4.wbuf(), w4.wbuf());
}

} // verus!
