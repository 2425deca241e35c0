//! Prices and sizes in the decimal composite of a message: the mantissa as an
//! `i64` and the scale, the number of decimal places, as an `i8`.
use crate::decimal::{lemma_same_parts, Decimal, MAX_SCALE};
use crate::market_api::dec_codec::{DecDecoder, DecEncoder};
use crate::market_api::{
    i64_at, i64_bytes, i8_at, i8_bytes, lemma_encodings_len, lemma_read_back, lemma_splice,
    lemma_wrote_twice, splice, wrote, Reader, Writer,
};
use vstd::prelude::*;

verus! {

/// The bytes that encode `d`: its mantissa cut to 64 bits, then its scale.
pub open spec fn dec_bytes(d: Decimal) -> Seq<u8> {
    i64_bytes(d.spec_mantissa() as i64) + i8_bytes(d.spec_scale() as i8)
}

/// Whether `d` is what the decimal composite at `off` in `b` holds.
pub open spec fn decodes_dec(b: Seq<u8>, off: int, d: Decimal) -> bool {
    &&& d.spec_mantissa() == i64_at(b, off)
    &&& d.spec_scale() == i8_at(b, off + 8)
}

/// Whether the scale of the decimal composite at `off` is one that a decimal
/// can have: from 0 to 28.
pub open spec fn dec_scale_ok(b: Seq<u8>, off: int) -> bool {
    0 <= i8_at(b, off + 8) <= MAX_SCALE
}

/// Whether the mantissa of `d` fits in the 64 bits that the composite holds.
pub open spec fn dec_fits(d: Decimal) -> bool {
    i64::MIN <= d.spec_mantissa() <= i64::MAX
}

/// Writes `d` into the decimal composite.
pub fn encode_dec<P: Writer>(e: &mut DecEncoder<P>, d: Decimal)
    requires
        old(e).has_wbuf(),
        old(e).spec_offset() + 9 <= old(e).wbuf()@.len(),
    ensures
        wrote(*old(e), *final(e), old(e).spec_offset() as int, dec_bytes(d)),
        final(e).spec_offset() == old(e).spec_offset(),
{
    let ghost e0 = *e;
    e.mantissa(d.mantissa() as i64);
    let ghost e1 = *e;
    e.exponent(d.scale() as i8);
    proof {
        lemma_encodings_len(0, 0, 0, d.spec_mantissa() as i64);
        lemma_wrote_twice(
            e0,
            e1,
            *e,
            e0.spec_offset() as int,
            i64_bytes(d.spec_mantissa() as i64),
            i8_bytes(d.spec_scale() as i8),
        );
    }
}

/// Reads the decimal composite.
pub fn decode_dec<'a, P: Reader<'a>>(d: &DecDecoder<P>) -> (v: Decimal)
    requires
        d.has_rbuf(),
        d.spec_offset() + 9 <= d.rbuf().len(),
        dec_scale_ok(d.rbuf(), d.spec_offset() as int),
    ensures
        decodes_dec(d.rbuf(), d.spec_offset() as int, v),
{
    let mantissa = d.mantissa();
    let exponent = d.exponent();
    Decimal::new(mantissa, exponent as u32)
}

/// Decoding the composite that encoding wrote gives the decimal back, when its
/// mantissa fits in 64 bits; and the scale that encoding writes is one that
/// decoding accepts.
pub proof fn lemma_dec_roundtrip(b: Seq<u8>, off: int, d: Decimal, got: Decimal)
    requires
        0 <= off,
        off + 9 <= b.len(),
        d.wf(),
        dec_fits(d),
        decodes_dec(splice(b, off, dec_bytes(d)), off, got),
    ensures
        dec_scale_ok(splice(b, off, dec_bytes(d)), off),
        got == d,
{
    lemma_dec_encoding_decodable(b, off, d);
    let m = d.spec_mantissa() as i64;
    let t = splice(b, off, dec_bytes(d));
    lemma_encodings_len(0, 0, 0, m);
    lemma_splice(b, off, dec_bytes(d));
    assert(t.subrange(off, off + 8) =~= i64_bytes(m));
    lemma_read_back(b, off, 0, 0, 0, m);
    assert(splice(b, off, i64_bytes(m)).subrange(off, off + 8) =~= t.subrange(off, off + 8));
    lemma_same_parts(got, d);
}

/// The scale that encoding writes is one that decoding accepts.
pub proof fn lemma_dec_encoding_decodable(b: Seq<u8>, off: int, d: Decimal)
    requires
        0 <= off,
        off + 9 <= b.len(),
        d.wf(),
    ensures
        dec_scale_ok(splice(b, off, dec_bytes(d)), off),
{
    let m = d.spec_mantissa() as i64;
    lemma_encodings_len(0, 0, 0, m);
    lemma_splice(b, off, dec_bytes(d));
    assert(splice(b, off, dec_bytes(d))[off + 8] == (d.spec_scale() as i8) as u8);
}

/// A decimal composite that holds the bytes of `d` reads back as `d`, when its
/// mantissa fits in 64 bits.
pub proof fn lemma_dec_read_back(t: Seq<u8>, off: int, d: Decimal, got: Decimal)
    requires
        0 <= off,
        off + 9 <= t.len(),
        d.wf(),
        dec_fits(d),
        t.subrange(off, off + 9) == dec_bytes(d),
        decodes_dec(t, off, got),
    ensures
        got == d,
{
    lemma_encodings_len(0, 0, 0, d.spec_mantissa() as i64);
    assert(splice(t, off, dec_bytes(d)) =~= t);
    lemma_dec_roundtrip(t, off, d, got);
}

/// A decimal composite that holds the bytes of `d` has a scale that decoding accepts.
pub proof fn lemma_dec_scale_back(t: Seq<u8>, off: int, d: Decimal)
    requires
        0 <= off,
        off + 9 <= t.len(),
        d.wf(),
        t.subrange(off, off + 9) == dec_bytes(d),
    ensures
        dec_scale_ok(t, off),
{
    lemma_encodings_len(0, 0, 0, d.spec_mantissa() as i64);
    assert(splice(t, off, dec_bytes(d)) =~= t);
    lemma_dec_encoding_decodable(t, off, d);
}

} // verus!
