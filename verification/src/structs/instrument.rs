//! Instruments: what is traded, where, and how; their text form and their
//! encoding as the instrument composite of a message.
use crate::market_api::exchange::Exchange;
use crate::market_api::instrument_codec::{expiry_value, InstrumentDecoder, InstrumentEncoder};
use crate::market_api::{splice, u32_at, u32_bytes, wrote, Reader, Writer};
use crate::util::symbol::{
    asset_fits, canonical_asset, first_zero, is_lower_alnum, padded_asset, spec_str_to_asset,
    str_to_asset,
};
use crate::util::text::{
    ascii_lowercase, decimal_chars, is_digit, lemma_decimal_chars, lemma_decimal_chars_parse,
    lemma_split_chars_none, lemma_split_chars_pair, parse_u32, spec_parse_u32, split_chars,
    split_str, str_eq, str_from_utf8, u32_to_string,
};
use vstd::prelude::*;
use vstd::string::StringExecFns;
use vstd::utf8::{decode_utf8, encode_utf8, valid_utf8};

verus! {

#[derive(Debug, PartialEq, Eq, Copy, Clone, Hash)]
pub struct Instrument {
    pub exchange: Exchange,
    pub base: [u8; 6],
    pub quote: [u8; 6],
    pub instrument_type: InstrumentType,
}

#[derive(Debug, PartialEq, Eq, Structural, Copy, Clone, Hash)]
pub enum InstrumentType {
    Spot,
    /// A future, with its expiry when it has one.
    Future(Option<u32>),
}

/// The exchange code of a name: `binance` or `ftx`.
pub open spec fn spec_exchange_of(name: Seq<char>) -> Option<Exchange> {
    if name == "binance"@ {
        Some(Exchange::binance)
    } else if name == "ftx"@ {
        Some(Exchange::ftx)
    } else {
        None
    }
}

/// The name of an exchange code.
pub open spec fn spec_exchange_name(e: Exchange) -> Seq<char> {
    match e {
        Exchange::binance => "binance"@,
        Exchange::ftx => "ftx"@,
        Exchange::NullVal => Seq::empty(),
    }
}

/// The kind that the text after `-` gives: none means spot; `0` is spot, `1`
/// a future, and `1_<expiry>` a future with an expiry. `None` when the text is
/// none of these; otherwise `None` inside for spot and the expiry for a future.
pub open spec fn spec_kind_of(tokens: Seq<Seq<char>>) -> Option<Option<Option<u32>>> {
    if tokens.len() < 2 {
        Some(None)
    } else {
        let s2 = split_chars(tokens[1], '_');
        if s2[0] == "0"@ {
            Some(None)
        } else if s2[0] == "1"@ {
            if s2.len() < 2 {
                Some(Some(None))
            } else {
                match spec_parse_u32(s2[1]) {
                    Some(v) => Some(Some(Some(v))),
                    None => None,
                }
            }
        } else {
            None
        }
    }
}

/// The parts of a text `exchange:base_quote[-kind]`: the exchange's name, base,
/// quote, and the pieces of the text after `:` split at `-`; `None` when the
/// text has no `:` or no `_` in its second part.
pub open spec fn spec_text_parts(s: Seq<char>) -> Option<
    (Seq<char>, Seq<char>, Seq<char>, Seq<Seq<char>>),
> {
    let sp = split_chars(s, ':');
    if sp.len() < 2 {
        None
    } else {
        let tokens = split_chars(sp[1], '-');
        let parts = split_chars(tokens[0], '_');
        if parts.len() < 2 {
            None
        } else {
            Some((sp[0], parts[0], parts[1], tokens))
        }
    }
}

/// The text names a known exchange and its assets fit asset codes, or it is
/// refused before its assets are read.
pub open spec fn text_assets_fit(s: Seq<char>) -> bool {
    match spec_text_parts(s) {
        Some((e, b, q, _)) => spec_exchange_of(e) is Some ==> asset_fits(b) && asset_fits(q),
        None => true,
    }
}

/// The parts of a text `exchange:base_quote[-kind]`.
pub struct TextParts<'a> {
    pub exchange: &'a str,
    pub base: &'a str,
    pub quote: &'a str,
    pub tokens: Vec<&'a str>,
}

/// Splits a text `exchange:base_quote[-kind]` into its parts.
pub fn text_parts<'a>(s: &'a str) -> (r: Option<TextParts<'a>>)
    ensures
        match spec_text_parts(s@) {
            None => r is None,
            Some((e, b, q, t)) => r matches Some(p) && p.exchange@ == e && p.base@ == b
                && p.quote@ == q && p.tokens@.map_values(|x: &str| x@) == t,
        },
{
    let splits = split_str(s, ':');
    let ghost sp = split_chars(s@, ':');
    assert(splits@.len() == sp.len());
    if splits.len() < 2 {
        return None;
    }
    assert(splits@[1]@ == sp[1]);
    assert(splits@[0]@ == sp[0]);
    let tokens = split_str(splits[1], '-');
    proof {
        crate::util::text::lemma_split_chars_nonempty(sp[1], '-');
    }
    let ghost tk = split_chars(sp[1], '-');
    assert(tokens@.len() == tk.len());
    assert(tokens@[0]@ == tk[0]);
    let parts = split_str(tokens[0], '_');
    let ghost pt = split_chars(tk[0], '_');
    assert(parts@.len() == pt.len());
    if parts.len() < 2 {
        return None;
    }
    assert(parts@[0]@ == pt[0]);
    assert(parts@[1]@ == pt[1]);
    Some(TextParts { exchange: splits[0], base: parts[0], quote: parts[1], tokens })
}

/// The exchange code of a name.
pub fn exchange_of(name: &str) -> (r: Option<Exchange>)
    ensures
        r == spec_exchange_of(name@),
{
    if str_eq(name, "binance") {
        Some(Exchange::binance)
    } else if str_eq(name, "ftx") {
        Some(Exchange::ftx)
    } else {
        None
    }
}

/// The kind that the text after `-` gives (see [`spec_kind_of`]).
pub fn kind_of(tokens: &Vec<&str>) -> (r: Option<Option<Option<u32>>>)
    requires
        tokens@.len() >= 1,
    ensures
        r == spec_kind_of(tokens@.map_values(|x: &str| x@)),
{
    let ghost t = tokens@.map_values(|x: &str| x@);
    if tokens.len() < 2 {
        return Some(None);
    }
    assert(tokens@[1]@ == t[1]);
    let splits = split_str(tokens[1], '_');
    let ghost s2 = split_chars(t[1], '_');
    proof {
        crate::util::text::lemma_split_chars_nonempty(t[1], '_');
    }
    assert(splits@.len() == s2.len());
    assert(splits@[0]@ == s2[0]);
    if str_eq(splits[0], "0") {
        Some(None)
    } else if str_eq(splits[0], "1") {
        if splits.len() < 2 {
            Some(Some(None))
        } else {
            assert(splits@[1]@ == s2[1]);
            match parse_u32(splits[1]) {
                Some(v) => Some(Some(Some(v))),
                None => None,
            }
        }
    } else {
        None
    }
}

/// The text of a kind: `0` for spot, `1` for a future, `1_<expiry>` for a
/// future with an expiry.
pub open spec fn spec_kind_text(kind: Option<Option<u32>>) -> Seq<char> {
    match kind {
        None => "0"@,
        Some(None) => "1"@,
        Some(Some(e)) => "1_"@ + decimal_chars(e as nat),
    }
}

/// The text of a kind.
pub fn kind_text(kind: Option<Option<u32>>) -> (s: String)
    ensures
        s@ == spec_kind_text(kind),
{
    match kind {
        None => String::from_str("0"),
        Some(None) => String::from_str("1"),
        Some(Some(e)) => {
            let mut s = String::from_str("1_");
            let digits = u32_to_string(e);
            s.append(digits.as_str());
            s
        },
    }
}

/// The text `exchange:base_quote-kind` of an exchange, assets and kind; each
/// asset code is written whole, zero bytes included.
pub open spec fn spec_text(e: Exchange, base: Seq<u8>, quote: Seq<u8>, kind: Option<Option<u32>>) -> Seq<char> {
    spec_exchange_name(e) + ":"@ + decode_utf8(base) + "_"@ + decode_utf8(quote) + "-"@ + spec_kind_text(kind)
}

/// Writes the text `exchange:base_quote-kind`.
pub fn text_of(e: Exchange, base: &[u8; 6], quote: &[u8; 6], kind: Option<Option<u32>>) -> (s: String)
    requires
        e != Exchange::NullVal,
        valid_utf8(base@),
        valid_utf8(quote@),
    ensures
        s@ == spec_text(e, base@, quote@, kind),
{
    let mut s = match e {
        Exchange::binance => String::from_str("binance"),
        Exchange::ftx => String::from_str("ftx"),
        Exchange::NullVal => vstd::pervasive::unreached(),
    };
    s.append(":");
    s.append(str_from_utf8(vstd::array::array_as_slice(base)).unwrap());
    s.append("_");
    s.append(str_from_utf8(vstd::array::array_as_slice(quote)).unwrap());
    s.append("-");
    let k = kind_text(kind);
    s.append(k.as_str());
    s
}

impl InstrumentType {
    /// The kind: `None` for spot, the expiry for a future.
    pub open spec fn kind(self) -> Option<Option<u32>> {
        match self {
            InstrumentType::Spot => None,
            InstrumentType::Future(e) => Some(e),
        }
    }

    pub open spec fn from_kind(k: Option<Option<u32>>) -> InstrumentType {
        match k {
            None => InstrumentType::Spot,
            Some(e) => InstrumentType::Future(e),
        }
    }
}

/// Whether `r` is what reading the text `s` gives: `Err` when it has no `:`,
/// no `_` after it, an unknown exchange or an unknown kind; otherwise the
/// exchange, the asset codes of the base and the quote, and the kind.
pub open spec fn parses_as(s: Seq<char>, r: Result<Instrument, ()>) -> bool {
    match spec_text_parts(s) {
        None => r is Err,
        Some((e, b, q, t)) => match (spec_exchange_of(e), spec_kind_of(t)) {
            (Some(ex), Some(k)) => r matches Ok(i) && i.exchange == ex && i.base@ == spec_str_to_asset(
                b,
            ) && i.quote@ == spec_str_to_asset(q) && i.instrument_type == InstrumentType::from_kind(k),
            _ => r is Err,
        },
    }
}

impl Instrument {
    /// Reads `exchange:base_quote[-kind]`: `binance:btc_usdt` is spot,
    /// `ftx:btc_usd-1` a future, `ftx:btc_usd-1_1640995200` a future with its expiry.
    /// Assets are lowercased into asset codes.
    pub fn from_str(s: &str) -> (r: Result<Instrument, ()>)
        requires
            text_assets_fit(s@),
        ensures
            parses_as(s@, r),
    {
        let parts = match text_parts(s) {
            Some(p) => p,
            None => return Err(()),
        };
        let exchange = match exchange_of(parts.exchange) {
            Some(e) => e,
            None => return Err(()),
        };
        let base = str_to_asset(parts.base);
        let quote = str_to_asset(parts.quote);
        proof {
            crate::util::text::lemma_split_chars_nonempty(split_chars(s@, ':')[1], '-');
        }
        let instrument_type = match kind_of(&parts.tokens) {
            Some(None) => InstrumentType::Spot,
            Some(Some(e)) => InstrumentType::Future(e),
            None => return Err(()),
        };
        Ok(Instrument { exchange, base, quote, instrument_type })
    }

    /// Reads `exchange:base_quote[-kind]` as `from_str` does, or gives `None`
    /// where `from_str` would not take the text (an asset that does not fit).
    pub fn try_from_str(s: &str) -> (r: Option<Result<Instrument, ()>>)
        ensures
            r is Some <==> text_assets_fit(s@),
            r matches Some(x) ==> parses_as(s@, x),
    {
        let fits = match text_parts(s) {
            Some(p) => match exchange_of(p.exchange) {
                Some(_) => crate::util::symbol::asset_fits_exec(p.base)
                    && crate::util::symbol::asset_fits_exec(p.quote),
                None => true,
            },
            None => true,
        };
        if fits {
            Some(Instrument::from_str(s))
        } else {
            None
        }
    }

    /// The text `exchange:base_quote-kind`, each asset code written whole.
    pub fn to_string(&self) -> (s: String)
        requires
            self.exchange != Exchange::NullVal,
            valid_utf8(self.base@),
            valid_utf8(self.quote@),
        ensures
            s@ == spec_text(self.exchange, self.base@, self.quote@, self.instrument_type.kind()),
    {
        let kind = match self.instrument_type {
            InstrumentType::Spot => None,
            InstrumentType::Future(e) => Some(e),
        };
        text_of(self.exchange, &self.base, &self.quote, kind)
    }
}

/// The bytes of the instrument composite that encoding writes: exchange, quote,
/// base, instrument type, and the expiry when there is one (an instrument
/// without expiry leaves those 4 bytes as they were).
pub open spec fn instrument_encoding(s: Instrument) -> Seq<u8> {
    let head = seq![s.exchange.spec_to_u8()] + s.quote@ + s.base@ + seq![
        match s.instrument_type {
            InstrumentType::Spot => crate::market_api::instrument_type::InstrumentType::spot,
            InstrumentType::Future(_) => crate::market_api::instrument_type::InstrumentType::future,
        }.spec_to_u8(),
    ];
    match s.instrument_type {
        InstrumentType::Future(Some(e)) => head + u32_bytes(e),
        _ => head,
    }
}

pub fn encode_instrument<T: Writer>(s: Instrument, instrument_e: &mut InstrumentEncoder<T>)
    requires
        old(instrument_e).has_wbuf(),
        old(instrument_e).spec_offset() + 18 <= old(instrument_e).wbuf()@.len(),
    ensures
        wrote(
            *old(instrument_e),
            *final(instrument_e),
            old(instrument_e).spec_offset() as int,
            instrument_encoding(s),
        ),
        final(instrument_e).spec_offset() == old(instrument_e).spec_offset(),
{
    let ghost w0 = *instrument_e;
    let ghost off = w0.spec_offset() as int;
    let Instrument { exchange, quote, base, instrument_type } = s;
    instrument_e.exchange(exchange);
    let ghost w1 = *instrument_e;
    instrument_e.quote(quote);
    let ghost w2 = *instrument_e;
    proof {
        crate::market_api::lemma_wrote_twice(w0, w1, w2, off, seq![exchange.spec_to_u8()], quote@);
    }
    instrument_e.base(base);
    let ghost w3 = *instrument_e;
    proof {
        crate::market_api::lemma_wrote_twice(w0, w2, w3, off, seq![exchange.spec_to_u8()] + quote@, base@);
    }
    match instrument_type {
        InstrumentType::Spot => {
            instrument_e.instrument_type(crate::market_api::instrument_type::InstrumentType::spot);
            proof {
                crate::market_api::lemma_wrote_twice(
                    w0,
                    w3,
                    *instrument_e,
                    off,
                    seq![exchange.spec_to_u8()] + quote@ + base@,
                    seq![crate::market_api::instrument_type::InstrumentType::spot.spec_to_u8()],
                );
            }
        },
        InstrumentType::Future(expiry) => {
            instrument_e.instrument_type(crate::market_api::instrument_type::InstrumentType::future);
            let ghost w4 = *instrument_e;
            proof {
                crate::market_api::lemma_wrote_twice(
                    w0,
                    w3,
                    w4,
                    off,
                    seq![exchange.spec_to_u8()] + quote@ + base@,
                    seq![crate::market_api::instrument_type::InstrumentType::future.spec_to_u8()],
                );
            }
            if let Some(expiry) = expiry {
                instrument_e.expiry(expiry);
                proof {
                    crate::market_api::lemma_encodings_len(0, expiry, 0, 0);
                    crate::market_api::lemma_wrote_twice(
                        w0,
                        w4,
                        *instrument_e,
                        off,
                        seq![exchange.spec_to_u8()] + quote@ + base@ + seq![
                            crate::market_api::instrument_type::InstrumentType::future.spec_to_u8(),
                        ],
                        u32_bytes(expiry),
                    );
                }
            }
        },
    }
}

/// Whether `i` is what the instrument composite at `off` in `b` holds: an
/// instrument type byte other than spot or future holds none.
pub open spec fn decodes_instrument(b: Seq<u8>, off: int, i: Instrument) -> bool {
    let t = crate::market_api::instrument_type::InstrumentType::spec_from_u8(b[off + 13]);
    &&& i.exchange == Exchange::spec_from_u8(b[off])
    &&& i.quote@ == b.subrange(off + 1, off + 7)
    &&& i.base@ == b.subrange(off + 7, off + 13)
    &&& i.instrument_type == (if t == crate::market_api::instrument_type::InstrumentType::spot {
        InstrumentType::Spot
    } else {
        InstrumentType::Future(expiry_value(u32_at(b, off + 14)))
    })
}

/// Whether the instrument type byte at `off` is spot or future.
pub open spec fn instrument_type_known(b: Seq<u8>, off: int) -> bool {
    let t = crate::market_api::instrument_type::InstrumentType::spec_from_u8(b[off + 13]);
    t == crate::market_api::instrument_type::InstrumentType::spot || t
        == crate::market_api::instrument_type::InstrumentType::future
}

pub fn decode_instrument<'a, T: Reader<'a>>(instrument_d: &mut InstrumentDecoder<T>) -> (i: Instrument)
    requires
        old(instrument_d).has_rbuf(),
        old(instrument_d).spec_offset() + 18 <= old(instrument_d).rbuf().len(),
        instrument_type_known(old(instrument_d).rbuf(), old(instrument_d).spec_offset() as int),
    ensures
        decodes_instrument(old(instrument_d).rbuf(), old(instrument_d).spec_offset() as int, i),
        *final(instrument_d) == *old(instrument_d),
{
    let exchange = instrument_d.exchange();
    let quote = instrument_d.quote();
    let base = instrument_d.base();
    let instrument_type = match instrument_d.instrument_type() {
        crate::market_api::instrument_type::InstrumentType::spot => InstrumentType::Spot,
        crate::market_api::instrument_type::InstrumentType::future => InstrumentType::Future(
            instrument_d.expiry(),
        ),
        _ => vstd::pervasive::unreached(),
    };
    Instrument { exchange, quote, base, instrument_type }
}

/// The instrument composite takes 14 bytes, and 18 with an expiry.
pub proof fn lemma_instrument_encoding_len(s: Instrument)
    ensures
        instrument_encoding(s).len() == (if s.instrument_type matches InstrumentType::Future(Some(_)) {
            18int
        } else {
            14int
        }),
{
    if let InstrumentType::Future(Some(e)) = s.instrument_type {
        crate::market_api::lemma_encodings_len(0, e, 0, 0);
    }
}

/// Whether the expiry bytes at `off` read back the expiry of `s`: written when
/// the expiry is known and is not the value that stands for none, and left as
/// they were otherwise, so that they must already read as none.
pub open spec fn expiry_reads_back(b: Seq<u8>, off: int, s: Instrument) -> bool {
    match s.instrument_type {
        InstrumentType::Future(None) => u32_at(b, off + 14) == 0xffffffffu32,
        InstrumentType::Future(Some(e)) => e != 0xffffffffu32,
        InstrumentType::Spot => true,
    }
}

/// Decoding the composite that encoding wrote gives the instrument back, when
/// its expiry reads back; and the instrument type that encoding writes is one
/// that decoding knows.
pub proof fn lemma_instrument_roundtrip(b: Seq<u8>, off: int, s: Instrument, got: Instrument)
    requires
        0 <= off,
        off + 18 <= b.len(),
        expiry_reads_back(b, off, s),
        decodes_instrument(splice(b, off, instrument_encoding(s)), off, got),
    ensures
        instrument_type_known(splice(b, off, instrument_encoding(s)), off),
        got == s,
{
    lemma_instrument_encoding_decodable(b, off, s);
    let enc = instrument_encoding(s);
    let t = splice(b, off, enc);
    lemma_instrument_encoding_len(s);
    crate::market_api::lemma_splice(b, off, enc);
    crate::market_api::exchange::lemma_exchange_roundtrip(s.exchange);
    assert(t[off] == enc[0]);
    assert(t.subrange(off + 1, off + 7) =~= s.quote@);
    assert(t.subrange(off + 7, off + 13) =~= s.base@);
    assert(got.quote =~= s.quote);
    assert(got.base =~= s.base);
    match s.instrument_type {
        InstrumentType::Future(Some(e)) => {
            assert(t.subrange(off + 14, off + 18) =~= u32_bytes(e));
            vstd::bytes::lemma_auto_spec_u32_to_from_le_bytes();
        },
        InstrumentType::Future(None) => {
            crate::market_api::lemma_same_outside_subrange(b, t, off, off + 14, off + 14, 4);
        },
        InstrumentType::Spot => {},
    }
}

/// The instrument type that encoding writes is one that decoding knows.
pub proof fn lemma_instrument_encoding_decodable(b: Seq<u8>, off: int, s: Instrument)
    requires
        0 <= off,
        off + 18 <= b.len(),
    ensures
        instrument_type_known(splice(b, off, instrument_encoding(s)), off),
{
    let enc = instrument_encoding(s);
    lemma_instrument_encoding_len(s);
    crate::market_api::lemma_splice(b, off, enc);
    crate::market_api::instrument_type::lemma_instrument_type_roundtrip(
        crate::market_api::instrument_type::InstrumentType::spot,
    );
    crate::market_api::instrument_type::lemma_instrument_type_roundtrip(
        crate::market_api::instrument_type::InstrumentType::future,
    );
    assert(splice(b, off, enc)[off + 13] == enc[13]);
}

/// The characters of an asset code, one per byte, zeros included.
pub open spec fn code_chars(a: Seq<u8>) -> Seq<char> {
    Seq::new(a.len(), |i: int| a[i] as char)
}

/// A canonical asset code, zeros included, is ASCII text that reads back as
/// the code, with none of `:`, `_` and `-` in it.
proof fn lemma_code_text(a: Seq<u8>)
    requires
        canonical_asset(a),
    ensures
        valid_utf8(a),
        decode_utf8(a) == code_chars(a),
        asset_fits(code_chars(a)),
        spec_str_to_asset(code_chars(a)) == a,
        !code_chars(a).contains(':'),
        !code_chars(a).contains('_'),
        !code_chars(a).contains('-'),
{
    let c = code_chars(a);
    assert forall|i: int| 0 <= i < 6 implies a[i] == 0 || is_lower_alnum(#[trigger] a[i]) by {
        if i >= first_zero(a) {
            assert(a[i] == 0);
        } else {
            assert(is_lower_alnum(a[i]));
        }
    }
    assert forall|i: int| 0 <= i < c.len() implies '\0' <= #[trigger] c[i] <= '\u{7f}' by {
        assert(a[i] == 0 || is_lower_alnum(a[i]));
    }
    vstd::utf8::is_ascii_chars_encode_utf8(c);
    assert(encode_utf8(c) =~= a) by {
        assert forall|i: int| 0 <= i < c.len() implies encode_utf8(c)[i] == a[i] by {
            assert(c[i] as u8 == encode_utf8(c)[i]);
            assert(a[i] == 0 || is_lower_alnum(a[i]));
        }
    }
    vstd::utf8::encode_utf8_valid_utf8(c);
    vstd::utf8::encode_utf8_decode_utf8(c);
    assert(ascii_lowercase(c) =~= c) by {
        assert forall|i: int| 0 <= i < c.len() implies ascii_lowercase(c)[i] == c[i] by {
            assert(a[i] == 0 || is_lower_alnum(a[i]));
        }
    }
    crate::util::symbol::lemma_ascii_lowercase(c);
    assert(padded_asset(a) =~= a);
    assert forall|i: int| 0 <= i < c.len() implies c[i] != ':' && c[i] != '_' && c[i] != '-' by {
        assert(a[i] == 0 || is_lower_alnum(a[i]));
    }
}

/// The text of a known exchange, canonical asset codes and a kind splits into
/// the exchange's name, the codes' characters, and pieces that give the kind.
pub proof fn lemma_text_parts(e: Exchange, base: Seq<u8>, quote: Seq<u8>, kind: Option<Option<u32>>)
    requires
        e != Exchange::NullVal,
        canonical_asset(base),
        canonical_asset(quote),
    ensures
        spec_text_parts(spec_text(e, base, quote, kind)) matches Some((n, b, q, t)) && {
            &&& spec_exchange_of(n) == Some(e)
            &&& b == code_chars(base)
            &&& q == code_chars(quote)
            &&& spec_kind_of(t) == Some(kind)
        },
        asset_fits(code_chars(base)),
        asset_fits(code_chars(quote)),
        spec_str_to_asset(code_chars(base)) == base,
        spec_str_to_asset(code_chars(quote)) == quote,
{
    reveal_strlit("binance");
    reveal_strlit("ftx");
    reveal_strlit(":");
    reveal_strlit("_");
    reveal_strlit("-");
    reveal_strlit("0");
    reveal_strlit("1");
    reveal_strlit("1_");
    lemma_code_text(base);
    lemma_code_text(quote);
    let n = spec_exchange_name(e);
    let b = code_chars(base);
    let q = code_chars(quote);
    let k = spec_kind_text(kind);
    let s = spec_text(e, base, quote, kind);
    let t0 = b + seq!['_'] + q;
    let rest = t0 + seq!['-'] + k;
    assert(s =~= n + seq![':'] + rest);
    assert(!n.contains(':')) by {
        if n.contains(':') {
            let j = choose|j: int| 0 <= j < n.len() && n[j] == ':';
        }
    }
    // the kind's text has digits and `_` only
    assert(forall|j: int| 0 <= j < k.len() ==> k[j] == '_' || is_digit(#[trigger] k[j])) by {
        if let Some(Some(e)) = kind {
            lemma_decimal_chars(e as nat);
            assert forall|j: int| 0 <= j < k.len() implies k[j] == '_' || is_digit(#[trigger] k[j]) by {
                if j >= 2 {
                    assert(k[j] == decimal_chars(e as nat)[j - 2]);
                }
            }
        }
    }
    assert(!t0.contains('-')) by {
        if t0.contains('-') {
            let j = choose|j: int| 0 <= j < t0.len() && t0[j] == '-';
            if j < b.len() {
                assert(b[j] == '-');
            } else if j > b.len() {
                assert(q[j - b.len() - 1] == '-');
            }
        }
    }
    assert(!k.contains('-')) by {
        if k.contains('-') {
            let j = choose|j: int| 0 <= j < k.len() && k[j] == '-';
        }
    }
    assert(!rest.contains(':')) by {
        if rest.contains(':') {
            let j = choose|j: int| 0 <= j < rest.len() && rest[j] == ':';
            if j < b.len() {
                assert(b[j] == ':');
            } else if b.len() < j < t0.len() {
                assert(q[j - b.len() - 1] == ':');
            } else if j > t0.len() {
                assert(k[j - t0.len() - 1] == ':');
            }
        }
    }
    lemma_split_chars_pair(n, rest, ':');
    lemma_split_chars_pair(t0, k, '-');
    lemma_split_chars_pair(b, q, '_');
    assert(spec_text_parts(s) == Some((n, b, q, seq![t0, k])));
    match kind {
        None => {
            assert(!k.contains('_'));
            lemma_split_chars_none(k, '_');
        },
        Some(None) => {
            assert(!k.contains('_'));
            lemma_split_chars_none(k, '_');
            assert(k != "0"@);
        },
        Some(Some(e)) => {
            let d = decimal_chars(e as nat);
            lemma_decimal_chars(e as nat);
            lemma_decimal_chars_parse(e);
            assert(k =~= seq!['1'] + seq!['_'] + d);
            assert(!d.contains('_')) by {
                if d.contains('_') {
                    let j = choose|j: int| 0 <= j < d.len() && d[j] == '_';
                    assert(is_digit(d[j]));
                }
            }
            lemma_split_chars_pair(seq!['1'], d, '_');
            assert(seq!['1'][0] != "0"@[0]);
            assert(seq!['1'] =~= "1"@);
        },
    }
}

/// Reading the text of an instrument gives the instrument back, when its
/// exchange is known and its asset codes are canonical.
pub proof fn lemma_text_roundtrip(i: Instrument)
    requires
        i.exchange != Exchange::NullVal,
        canonical_asset(i.base@),
        canonical_asset(i.quote@),
    ensures
        text_assets_fit(spec_text(i.exchange, i.base@, i.quote@, i.instrument_type.kind())),
        parses_as(spec_text(i.exchange, i.base@, i.quote@, i.instrument_type.kind()), Ok(i)),
{
    lemma_text_parts(i.exchange, i.base@, i.quote@, i.instrument_type.kind());
    let r = Ok::<Instrument, ()>(i);
    assert(r matches Ok(x) && x.base@ == i.base@ && x.quote@ == i.quote@);
}

} // verus!
