//! Symbols: like instruments, with assets from the fixed set of the symbol
//! composite (usd, btc, eth, usdt).
use crate::market_api::asset::Asset;
use crate::market_api::exchange::Exchange;
use crate::market_api::instrument_codec::expiry_value;
use crate::market_api::symbol_codec::{SymbolDecoder, SymbolEncoder};
use crate::market_api::{u32_at, u32_bytes, wrote, Reader, Writer};
use crate::structs::instrument::{
    exchange_of, kind_of, lemma_text_parts, spec_exchange_of, spec_kind_of, spec_text,
    spec_text_parts, text_assets_fit, text_of, text_parts,
};
use crate::util::symbol::{canonical_asset, spec_str_to_asset, str_to_asset};
use crate::util::text::split_chars;
use vstd::prelude::*;
use vstd::utf8::valid_utf8;

verus! {

#[derive(Debug, PartialEq, Eq, Copy, Clone, Hash)]
pub struct Symbol {
    pub exchange: Exchange,
    pub base: [u8; 6],
    pub quote: [u8; 6],
    pub symbol_type: SymbolType,
}

#[derive(Debug, PartialEq, Eq, Structural, Copy, Clone, Hash)]
pub enum SymbolType {
    Spot,
    /// A future, with its expiry when it has one.
    Future(Option<u32>),
}

impl SymbolType {
    pub open spec fn kind(self) -> Option<Option<u32>> {
        match self {
            SymbolType::Spot => None,
            SymbolType::Future(e) => Some(e),
        }
    }

    pub open spec fn from_kind(k: Option<Option<u32>>) -> SymbolType {
        match k {
            None => SymbolType::Spot,
            Some(e) => SymbolType::Future(e),
        }
    }
}

/// The asset code of an asset: its lowercase name padded with zeros, or six
/// zeros for no asset.
pub open spec fn spec_asset_code(a: Asset) -> Seq<u8> {
    match a {
        Asset::usd => seq![117u8, 115u8, 100u8, 0u8, 0u8, 0u8],
        Asset::btc => seq![98u8, 116u8, 99u8, 0u8, 0u8, 0u8],
        Asset::eth => seq![101u8, 116u8, 104u8, 0u8, 0u8, 0u8],
        Asset::usdt => seq![117u8, 115u8, 100u8, 116u8, 0u8, 0u8],
        Asset::NullVal => seq![0u8, 0u8, 0u8, 0u8, 0u8, 0u8],
    }
}

/// The asset of an asset code; `NullVal` for a code of none of them.
pub open spec fn spec_asset_of(b: Seq<u8>) -> Asset {
    if b == spec_asset_code(Asset::usd) {
        Asset::usd
    } else if b == spec_asset_code(Asset::btc) {
        Asset::btc
    } else if b == spec_asset_code(Asset::eth) {
        Asset::eth
    } else if b == spec_asset_code(Asset::usdt) {
        Asset::usdt
    } else {
        Asset::NullVal
    }
}

/// The asset code of an asset.
pub fn asset_code(a: Asset) -> (b: [u8; 6])
    ensures
        b@ == spec_asset_code(a),
{
    let b = match a {
        Asset::usd => [117u8, 115u8, 100u8, 0u8, 0u8, 0u8],
        Asset::btc => [98u8, 116u8, 99u8, 0u8, 0u8, 0u8],
        Asset::eth => [101u8, 116u8, 104u8, 0u8, 0u8, 0u8],
        Asset::usdt => [117u8, 115u8, 100u8, 116u8, 0u8, 0u8],
        Asset::NullVal => [0u8, 0u8, 0u8, 0u8, 0u8, 0u8],
    };
    assert(b@ =~= spec_asset_code(a));
    b
}

fn same_code(a: &[u8; 6], b: &[u8; 6]) -> (r: bool)
    ensures
        r == (a@ == b@),
{
    let mut i: usize = 0;
    while i < 6
        invariant
            0 <= i <= 6,
            a@.len() == 6,
            b@.len() == 6,
            forall|j: int| 0 <= j < i ==> a@[j] == b@[j],
        decreases 6 - i,
    {
        if a[i] != b[i] {
            return false;
        }
        i = i + 1;
    }
    assert(a@ =~= b@);
    true
}

/// The asset of an asset code.
pub fn asset_of(b: &[u8; 6]) -> (a: Asset)
    ensures
        a == spec_asset_of(b@),
{
    if same_code(b, &asset_code(Asset::usd)) {
        Asset::usd
    } else if same_code(b, &asset_code(Asset::btc)) {
        Asset::btc
    } else if same_code(b, &asset_code(Asset::eth)) {
        Asset::eth
    } else if same_code(b, &asset_code(Asset::usdt)) {
        Asset::usdt
    } else {
        Asset::NullVal
    }
}

/// An asset's code gives the asset back.
pub proof fn lemma_asset_code_roundtrip(a: Asset)
    ensures
        spec_asset_of(spec_asset_code(a)) == a,
{
    assert(spec_asset_code(Asset::usd) != spec_asset_code(Asset::btc)) by {
        assert(spec_asset_code(Asset::usd)[0] != spec_asset_code(Asset::btc)[0]);
    }
    assert(spec_asset_code(Asset::usd) != spec_asset_code(Asset::eth)) by {
        assert(spec_asset_code(Asset::usd)[0] != spec_asset_code(Asset::eth)[0]);
    }
    assert(spec_asset_code(Asset::usd) != spec_asset_code(Asset::usdt)) by {
        assert(spec_asset_code(Asset::usd)[3] != spec_asset_code(Asset::usdt)[3]);
    }
    assert(spec_asset_code(Asset::usd) != spec_asset_code(Asset::NullVal)) by {
        assert(spec_asset_code(Asset::usd)[0] != spec_asset_code(Asset::NullVal)[0]);
    }
    assert(spec_asset_code(Asset::btc) != spec_asset_code(Asset::eth)) by {
        assert(spec_asset_code(Asset::btc)[0] != spec_asset_code(Asset::eth)[0]);
    }
    assert(spec_asset_code(Asset::btc) != spec_asset_code(Asset::usdt)) by {
        assert(spec_asset_code(Asset::btc)[0] != spec_asset_code(Asset::usdt)[0]);
    }
    assert(spec_asset_code(Asset::btc) != spec_asset_code(Asset::NullVal)) by {
        assert(spec_asset_code(Asset::btc)[0] != spec_asset_code(Asset::NullVal)[0]);
    }
    assert(spec_asset_code(Asset::eth) != spec_asset_code(Asset::usdt)) by {
        assert(spec_asset_code(Asset::eth)[0] != spec_asset_code(Asset::usdt)[0]);
    }
    assert(spec_asset_code(Asset::eth) != spec_asset_code(Asset::NullVal)) by {
        assert(spec_asset_code(Asset::eth)[0] != spec_asset_code(Asset::NullVal)[0]);
    }
    assert(spec_asset_code(Asset::usdt) != spec_asset_code(Asset::NullVal)) by {
        assert(spec_asset_code(Asset::usdt)[0] != spec_asset_code(Asset::NullVal)[0]);
    }
}

/// Whether `r` is what reading the text `s` gives: `Err` when it has no `:`,
/// no `_` after it, an unknown exchange or an unknown kind; otherwise the
/// exchange, the asset codes of the base and the quote, and the kind.
pub open spec fn parses_as(s: Seq<char>, r: Result<Symbol, ()>) -> bool {
    match spec_text_parts(s) {
        None => r is Err,
        Some((e, b, q, t)) => match (spec_exchange_of(e), spec_kind_of(t)) {
            (Some(ex), Some(k)) => r matches Ok(i) && i.exchange == ex && i.base@ == spec_str_to_asset(
                b,
            ) && i.quote@ == spec_str_to_asset(q) && i.symbol_type == SymbolType::from_kind(k),
            _ => r is Err,
        },
    }
}

impl Symbol {
    /// Reads `exchange:base_quote[-kind]` as [`Instrument::from_str`](crate::structs::instrument::Instrument::from_str) does.
    pub fn from_str(s: &str) -> (r: Result<Symbol, ()>)
        requires
            text_assets_fit(s@),
        ensures
            parses_as(s@, r),
    {
        let parts = match text_parts(s) {
            Some(p) => p,
            None => return Err(()),
        };
        let exchange = match exchange_of(parts.exchange) {
            Some(e) => e,
            None => return Err(()),
        };
        let base = str_to_asset(parts.base);
        let quote = str_to_asset(parts.quote);
        proof {
            crate::util::text::lemma_split_chars_nonempty(split_chars(s@, ':')[1], '-');
        }
        let symbol_type = match kind_of(&parts.tokens) {
            Some(None) => SymbolType::Spot,
            Some(Some(e)) => SymbolType::Future(e),
            None => return Err(()),
        };
        Ok(Symbol { exchange, base, quote, symbol_type })
    }

    /// Reads the text as `from_str` does, or gives `None` where `from_str`
    /// would not take it (an asset that does not fit).
    pub fn try_from_str(s: &str) -> (r: Option<Result<Symbol, ()>>)
        ensures
            r is Some <==> text_assets_fit(s@),
            r matches Some(x) ==> parses_as(s@, x),
    {
        let fits = match text_parts(s) {
            Some(p) => match exchange_of(p.exchange) {
                Some(_) => crate::util::symbol::asset_fits_exec(p.base)
                    && crate::util::symbol::asset_fits_exec(p.quote),
                None => true,
            },
            None => true,
        };
        if fits {
            Some(Symbol::from_str(s))
        } else {
            None
        }
    }

    /// The text `exchange:base_quote-kind`, each asset code written whole.
    pub fn to_string(&self) -> (s: String)
        requires
            self.exchange != Exchange::NullVal,
            valid_utf8(self.base@),
            valid_utf8(self.quote@),
        ensures
            s@ == spec_text(self.exchange, self.base@, self.quote@, self.symbol_type.kind()),
    {
        let kind = match self.symbol_type {
            SymbolType::Spot => None,
            SymbolType::Future(e) => Some(e),
        };
        text_of(self.exchange, &self.base, &self.quote, kind)
    }
}

/// The bytes of the symbol composite that encoding writes: exchange, quote and
/// base assets, symbol type, and the expiry when there is one.
pub open spec fn symbol_encoding(s: Symbol) -> Seq<u8> {
    let head = seq![
        s.exchange.spec_to_u8(),
        spec_asset_of(s.quote@).spec_to_u8(),
        spec_asset_of(s.base@).spec_to_u8(),
        match s.symbol_type {
            SymbolType::Spot => crate::market_api::symbol_type::SymbolType::spot,
            SymbolType::Future(_) => crate::market_api::symbol_type::SymbolType::future,
        }.spec_to_u8(),
    ];
    match s.symbol_type {
        SymbolType::Future(Some(e)) => head + u32_bytes(e),
        _ => head,
    }
}

pub fn encode_symbol<T: Writer>(s: Symbol, symbol_e: &mut SymbolEncoder<T>)
    requires
        old(symbol_e).has_wbuf(),
        old(symbol_e).spec_offset() + 8 <= old(symbol_e).wbuf()@.len(),
    ensures
        wrote(*old(symbol_e), *final(symbol_e), old(symbol_e).spec_offset() as int, symbol_encoding(s)),
        final(symbol_e).spec_offset() == old(symbol_e).spec_offset(),
{
    let ghost w0 = *symbol_e;
    let ghost off = w0.spec_offset() as int;
    let Symbol { exchange, quote, base, symbol_type } = s;
    let qa = asset_of(&quote);
    let ba = asset_of(&base);
    symbol_e.exchange(exchange);
    let ghost w1 = *symbol_e;
    symbol_e.quote(qa);
    let ghost w2 = *symbol_e;
    proof {
        crate::market_api::lemma_wrote_twice(w0, w1, w2, off, seq![exchange.spec_to_u8()], seq![qa.spec_to_u8()]);
    }
    symbol_e.base(ba);
    let ghost w3 = *symbol_e;
    proof {
        crate::market_api::lemma_wrote_twice(w0, w2, w3, off, seq![exchange.spec_to_u8()] + seq![qa.spec_to_u8()], seq![ba.spec_to_u8()]);
    }
    let ghost head = seq![exchange.spec_to_u8()] + seq![qa.spec_to_u8()] + seq![ba.spec_to_u8()];
    match symbol_type {
        SymbolType::Spot => {
            symbol_e.symbol_type(crate::market_api::symbol_type::SymbolType::spot);
            proof {
                crate::market_api::lemma_wrote_twice(w0, w3, *symbol_e, off, head, seq![crate::market_api::symbol_type::SymbolType::spot.spec_to_u8()]);
                assert(head + seq![crate::market_api::symbol_type::SymbolType::spot.spec_to_u8()] =~= symbol_encoding(s));
            }
        },
        SymbolType::Future(expiry) => {
            symbol_e.symbol_type(crate::market_api::symbol_type::SymbolType::future);
            let ghost w4 = *symbol_e;
            proof {
                crate::market_api::lemma_wrote_twice(w0, w3, w4, off, head, seq![crate::market_api::symbol_type::SymbolType::future.spec_to_u8()]);
                assert(head + seq![crate::market_api::symbol_type::SymbolType::future.spec_to_u8()] =~= seq![
                    exchange.spec_to_u8(),
                    qa.spec_to_u8(),
                    ba.spec_to_u8(),
                    crate::market_api::symbol_type::SymbolType::future.spec_to_u8(),
                ]);
            }
            if let Some(expiry) = expiry {
                symbol_e.expiry(expiry);
                proof {
                    crate::market_api::lemma_encodings_len(0, expiry, 0, 0);
                    crate::market_api::lemma_wrote_twice(w0, w4, *symbol_e, off, head + seq![crate::market_api::symbol_type::SymbolType::future.spec_to_u8()], u32_bytes(expiry));
                }
            }
        },
    }
}

/// Whether `s` is what the symbol composite at `off` in `b` holds.
pub open spec fn decodes_symbol(b: Seq<u8>, off: int, s: Symbol) -> bool {
    let t = crate::market_api::symbol_type::SymbolType::spec_from_u8(b[off + 3]);
    &&& s.exchange == Exchange::spec_from_u8(b[off])
    &&& s.quote@ == spec_asset_code(Asset::spec_from_u8(b[off + 1]))
    &&& s.base@ == spec_asset_code(Asset::spec_from_u8(b[off + 2]))
    &&& s.symbol_type == (if t == crate::market_api::symbol_type::SymbolType::spot {
        SymbolType::Spot
    } else {
        SymbolType::Future(expiry_value(u32_at(b, off + 4)))
    })
}

/// Whether the symbol type byte at `off` is spot or future.
pub open spec fn symbol_type_known(b: Seq<u8>, off: int) -> bool {
    let t = crate::market_api::symbol_type::SymbolType::spec_from_u8(b[off + 3]);
    t == crate::market_api::symbol_type::SymbolType::spot || t
        == crate::market_api::symbol_type::SymbolType::future
}

pub fn decode_symbol<'a, T: Reader<'a>>(symbol_d: &mut SymbolDecoder<T>) -> (s: Symbol)
    requires
        old(symbol_d).has_rbuf(),
        old(symbol_d).spec_offset() + 8 <= old(symbol_d).rbuf().len(),
        symbol_type_known(old(symbol_d).rbuf(), old(symbol_d).spec_offset() as int),
    ensures
        decodes_symbol(old(symbol_d).rbuf(), old(symbol_d).spec_offset() as int, s),
        *final(symbol_d) == *old(symbol_d),
{
    let exchange = symbol_d.exchange();
    let quote = asset_code(symbol_d.quote());
    let base = asset_code(symbol_d.base());
    let symbol_type = match symbol_d.symbol_type() {
        crate::market_api::symbol_type::SymbolType::spot => SymbolType::Spot,
        crate::market_api::symbol_type::SymbolType::future => SymbolType::Future(symbol_d.expiry()),
        _ => vstd::pervasive::unreached(),
    };
    Symbol { exchange, quote, base, symbol_type }
}

/// Reading the text of a symbol gives the symbol back, when its exchange is
/// known and its asset codes are canonical.
pub proof fn lemma_symbol_text_roundtrip(sym: Symbol)
    requires
        sym.exchange != Exchange::NullVal,
        canonical_asset(sym.base@),
        canonical_asset(sym.quote@),
    ensures
        text_assets_fit(spec_text(sym.exchange, sym.base@, sym.quote@, sym.symbol_type.kind())),
        parses_as(spec_text(sym.exchange, sym.base@, sym.quote@, sym.symbol_type.kind()), Ok(sym)),
{
    lemma_text_parts(sym.exchange, sym.base@, sym.quote@, sym.symbol_type.kind());
}

/// The symbol composite takes 4 bytes, and 8 with an expiry.
pub proof fn lemma_symbol_encoding_len(s: Symbol)
    ensures
        symbol_encoding(s).len() == (if s.symbol_type matches SymbolType::Future(Some(_)) {
            8int
        } else {
            4int
        }),
{
    if let SymbolType::Future(Some(e)) = s.symbol_type {
        crate::market_api::lemma_encodings_len(0, e, 0, 0);
    }
}

/// Decoding the composite that encoding wrote gives the symbol back, when its
/// asset codes are those of assets of the composite (or of none), and its
/// expiry reads back: written when known and not the value that stands for
/// none, else already reading as none.
pub proof fn lemma_symbol_roundtrip(b: Seq<u8>, off: int, s: Symbol, got: Symbol)
    requires
        0 <= off,
        off + 8 <= b.len(),
        spec_asset_code(spec_asset_of(s.base@)) == s.base@,
        spec_asset_code(spec_asset_of(s.quote@)) == s.quote@,
        match s.symbol_type {
            SymbolType::Future(None) => u32_at(b, off + 4) == 0xffffffffu32,
            SymbolType::Future(Some(e)) => e != 0xffffffffu32,
            SymbolType::Spot => true,
        },
        decodes_symbol(crate::market_api::splice(b, off, symbol_encoding(s)), off, got),
    ensures
        symbol_type_known(crate::market_api::splice(b, off, symbol_encoding(s)), off),
        got == s,
{
    let enc = symbol_encoding(s);
    let t = crate::market_api::splice(b, off, enc);
    lemma_symbol_encoding_len(s);
    crate::market_api::lemma_splice(b, off, enc);
    crate::market_api::exchange::lemma_exchange_roundtrip(s.exchange);
    crate::market_api::asset::lemma_asset_roundtrip(spec_asset_of(s.quote@));
    crate::market_api::asset::lemma_asset_roundtrip(spec_asset_of(s.base@));
    crate::market_api::symbol_type::lemma_symbol_type_roundtrip(
        crate::market_api::symbol_type::SymbolType::spot,
    );
    crate::market_api::symbol_type::lemma_symbol_type_roundtrip(
        crate::market_api::symbol_type::SymbolType::future,
    );
    assert(t[off] == enc[0]);
    assert(t[off + 1] == enc[1]);
    assert(t[off + 2] == enc[2]);
    assert(t[off + 3] == enc[3]);
    assert(got.quote =~= s.quote);
    assert(got.base =~= s.base);
    match s.symbol_type {
        SymbolType::Future(Some(e)) => {
            assert(t.subrange(off + 4, off + 8) =~= u32_bytes(e));
            vstd::bytes::lemma_auto_spec_u32_to_from_le_bytes();
        },
        SymbolType::Future(None) => {
            crate::market_api::lemma_same_outside_subrange(b, t, off, off + 4, off + 4, 4);
        },
        SymbolType::Spot => {},
    }
}

} // verus!
