//! Binance names of assets and instruments: a spot symbol is the base asset's
//! name followed by the quote asset's, `BTCUSDT` in messages and `btcusdt` in
//! stream names.
use crate::market_api::exchange::Exchange;
use crate::structs::instrument::{Instrument, InstrumentType};
use crate::util::symbol::{
    asset_fits, asset_text, asset_to_str, ends_with, lemma_ascii_lowercase, spec_str_to_asset,
    split_currency_quote, str_to_asset,
};
use crate::util::text::{lemma_split_chars_none, lemma_split_chars_push, split_chars};
use vstd::prelude::*;
use vstd::string::{StrSliceExecFns, StringExecFns, StringSliceAdditionalSpecFns};
use vstd::utf8::{decode_utf8, encode_utf8, is_ascii_chars, is_char_boundary, valid_utf8};

verus! {

/// The asset code of a name.
pub fn de_ccy(s: &str) -> (a: [u8; 6])
    requires
        asset_fits(s@),
    ensures
        a@ == spec_str_to_asset(s@),
{
    str_to_asset(s)
}

/// The quote asset that spot symbols are split at.
pub open spec fn usdt() -> Seq<char> {
    seq!['U', 'S', 'D', 'T']
}

/// The base of a symbol: the text before its last 4 bytes.
pub open spec fn symbol_base(b: Seq<u8>) -> Seq<char> {
    decode_utf8(b.subrange(0, b.len() - 4))
}

/// Whether the bytes of a symbol can be split by `de_inst`: at least 4 of them,
/// the last 4 starting at a character boundary, and a base that fits an asset
/// code when the symbol ends with `USDT`.
pub open spec fn de_inst_accepts(b: Seq<u8>) -> bool {
    &&& b.len() >= 4
    &&& is_char_boundary(b, b.len() - 4)
    &&& ends_with(b, encode_utf8(usdt())) ==> asset_fits(symbol_base(b))
}

/// Whether `i` is the spot instrument of the symbol with bytes `b`: its base is
/// the text before `USDT`, its quote `USDT`, both as asset codes.
pub open spec fn is_inst_of(b: Seq<u8>, i: Instrument) -> bool {
    &&& i.exchange == Exchange::binance
    &&& i.base@ == spec_str_to_asset(symbol_base(b))
    &&& i.quote@ == spec_str_to_asset(usdt())
    &&& i.instrument_type == InstrumentType::Spot
}

/// Whether `de_inst` takes the symbol.
pub fn de_inst_takes(s: &str) -> (r: bool)
    ensures
        r == de_inst_accepts(s.spec_bytes()),
{
    let n = s.as_bytes().len();
    if n < 4 || !s.is_char_boundary(n - 4) {
        return false;
    }
    let (base, rest) = s.split_at(n - 4);
    proof {
        reveal_strlit("USDT");
        assert("USDT"@ =~= usdt());
        vstd::utf8::is_ascii_chars_encode_utf8(usdt());
        vstd::utf8::encode_utf8_decode_utf8(rest@);
        vstd::utf8::encode_utf8_decode_utf8(usdt());
        vstd::utf8::encode_utf8_decode_utf8(base@);
        assert(rest.spec_bytes() =~= s.spec_bytes().subrange(n - 4, n as int));
    }
    if crate::util::text::str_eq(rest, "USDT") {
        crate::util::symbol::asset_fits_exec(base)
    } else {
        true
    }
}

/// The spot instrument of a symbol that ends with `USDT`: its base is what
/// comes before.
pub fn de_inst(s: &str) -> (r: Option<Instrument>)
    requires
        de_inst_accepts(s.spec_bytes()),
    ensures
        r is Some <==> ends_with(s.spec_bytes(), encode_utf8(usdt())),
        r matches Some(i) ==> is_inst_of(s.spec_bytes(), i),
{
    let base_currencies: [&'static str; 1] = ["USDT"];
    proof {
        reveal_strlit("USDT");
        assert("USDT"@ =~= usdt());
        assert(is_ascii_chars(usdt()));
        lemma_ascii_lowercase(usdt());
        assert(base_currencies@ =~= seq!["USDT"]);
        vstd::utf8::is_ascii_chars_encode_utf8(usdt());
    }
    let split = split_currency_quote(s, vstd::array::array_as_slice(&base_currencies));
    let (base, quote) = match split {
        Some(parts) => parts,
        None => {
            proof {
                assert(!ends_with(s.spec_bytes(), base_currencies@[0].spec_bytes()));
            }
            return None;
        },
    };
    proof {
        vstd::utf8::encode_utf8_decode_utf8(base@);
    }
    Some(
        Instrument {
            exchange: Exchange::binance,
            base: de_ccy(base),
            quote: de_ccy(quote),
            instrument_type: InstrumentType::Spot,
        },
    )
}

/// The text of an asset code: its bytes up to the first zero.
pub fn se_ccy(a: &[u8; 6]) -> (s: String)
    requires
        valid_utf8(asset_text(a@)),
    ensures
        s@ == decode_utf8(asset_text(a@)),
{
    String::from_str(asset_to_str(vstd::array::array_as_slice(a)))
}

/// Whether the asset codes of an instrument have text.
pub open spec fn assets_readable(i: Instrument) -> bool {
    &&& valid_utf8(asset_text(i.base@))
    &&& valid_utf8(asset_text(i.quote@))
}

/// The name of an instrument: its base's text, then its quote's.
pub open spec fn spec_se_inst(i: Instrument) -> Seq<char> {
    decode_utf8(asset_text(i.base@)) + decode_utf8(asset_text(i.quote@))
}

/// The name of an instrument: its base's text, then its quote's.
pub fn se_inst(s: &Instrument) -> (r: String)
    requires
        assets_readable(*s),
    ensures
        r@ == spec_se_inst(*s),
{
    let mut r = se_ccy(&s.base);
    let quote = se_ccy(&s.quote);
    r.append(quote.as_str());
    r
}

/// The stream names of instruments: each name with `suffix`, joined by `/`.
pub open spec fn stream_names(insts: Seq<Instrument>, suffix: Seq<char>) -> Seq<char>
    decreases insts.len(),
{
    if insts.len() == 0 {
        Seq::empty()
    } else if insts.len() == 1 {
        spec_se_inst(insts[0]) + suffix
    } else {
        stream_names(insts.drop_last(), suffix) + "/"@ + spec_se_inst(insts.last()) + suffix
    }
}

/// Adding an instrument adds its stream name at the end: after a `/` when
/// there were names before it.
pub proof fn lemma_stream_names_push(insts: Seq<Instrument>, x: Instrument, suffix: Seq<char>)
    ensures
        stream_names(insts.push(x), suffix) == if insts.len() == 0 {
            spec_se_inst(x) + suffix
        } else {
            stream_names(insts, suffix) + seq!['/'] + spec_se_inst(x) + suffix
        },
        stream_names(insts.push(x), suffix).len() == stream_names(insts, suffix).len()
            + spec_se_inst(x).len() + suffix.len() + (if insts.len() == 0 {
            0int
        } else {
            1int
        }),
{
    reveal_strlit("/");
    assert(insts.push(x).drop_last() =~= insts);
    assert(insts.push(x).last() == x);
    if insts.len() == 0 {
        assert(insts.push(x)[0] == x);
        assert(stream_names(insts, suffix) =~= Seq::<char>::empty());
    }
}

/// The stream list names every instrument, in order: split at `/`, it gives
/// each instrument's name with the suffix, when no name and not the suffix
/// holds a `/`.
pub proof fn lemma_stream_names_split(insts: Seq<Instrument>, suffix: Seq<char>)
    requires
        insts.len() >= 1,
        !suffix.contains('/'),
        forall|k: int| 0 <= k < insts.len() ==> !(#[trigger] spec_se_inst(insts[k])).contains('/'),
    ensures
        split_chars(stream_names(insts, suffix), '/') == insts.map_values(
            |i: Instrument| spec_se_inst(i) + suffix,
        ),
    decreases insts.len(),
{
    let n = insts.len();
    let last = spec_se_inst(insts[n - 1]) + suffix;
    assert(!last.contains('/')) by {
        if last.contains('/') {
            let k = choose|k: int| 0 <= k < last.len() && last[k] == '/';
            if k < spec_se_inst(insts[n - 1]).len() {
                assert(spec_se_inst(insts[n - 1]).contains('/'));
            } else {
                assert(suffix[k - spec_se_inst(insts[n - 1]).len()] == '/');
                assert(suffix.contains('/'));
            }
        }
    }
    if n == 1 {
        lemma_split_chars_none(last, '/');
        assert(insts.map_values(|i: Instrument| spec_se_inst(i) + suffix) =~= seq![last]);
    } else {
        let prev = insts.drop_last();
        assert forall|k: int| 0 <= k < prev.len() implies !(#[trigger] spec_se_inst(prev[k])).contains('/') by {
            assert(prev[k] == insts[k]);
        }
        lemma_stream_names_split(prev, suffix);
        reveal_strlit("/");
        let p = stream_names(prev, suffix);
        assert(stream_names(insts, suffix) =~= p + seq!['/'] + last);
        lemma_split_chars_push(p, last, '/');
        assert(insts.map_values(|i: Instrument| spec_se_inst(i) + suffix) =~= prev.map_values(
            |i: Instrument| spec_se_inst(i) + suffix,
        ).push(last));
    }
}

/// The address of the combined stream of `suffix` for instruments.
pub open spec fn stream_link(base_url: Seq<char>, insts: Seq<Instrument>, suffix: Seq<char>) -> Seq<
    char,
> {
    base_url + "/stream?streams="@ + stream_names(insts, suffix)
}

/// Writes the combined stream address of `suffix` for instruments.
fn stream_link_of(base_url: &str, i: &[&Instrument], suffix: &str) -> (r: String)
    requires
        forall|k: int| 0 <= k < i@.len() ==> assets_readable(*#[trigger] i@[k]),
    ensures
        r@ == stream_link(base_url@, i@.map_values(|x: &Instrument| *x), suffix@),
{
    let ghost insts = i@.map_values(|x: &Instrument| *x);
    let mut r = String::from_str(base_url);
    r.append("/stream?streams=");
    let mut k: usize = 0;
    while k < i.len()
        invariant
            0 <= k <= i@.len(),
            insts == i@.map_values(|x: &Instrument| *x),
            forall|j: int| 0 <= j < i@.len() ==> assets_readable(*#[trigger] i@[j]),
            r@ == base_url@ + "/stream?streams="@ + stream_names(insts.take(k as int), suffix@),
        decreases i@.len() - k,
    {
        if k > 0 {
            r.append("/");
        }
        let name = se_inst(i[k]);
        r.append(name.as_str());
        r.append(suffix);
        proof {
            let t = insts.take(k + 1);
            assert(t.drop_last() =~= insts.take(k as int));
            assert(t.last() == *i@[k as int]);
            if k == 0 {
                assert(t.len() == 1);
                assert(insts.take(0) =~= Seq::<Instrument>::empty());
            }
        }
        k += 1;
    }
    proof {
        assert(insts.take(i@.len() as int) =~= insts);
    }
    r
}

/// The address of the best-bid-and-offer streams of instruments, one address
/// for them all.
pub fn get_spot_bbo_links(base_url: &str, i: &[&Instrument]) -> (r: Vec<String>)
    requires
        forall|k: int| 0 <= k < i@.len() ==> assets_readable(*#[trigger] i@[k]),
    ensures
        r@.len() == 1,
        r@[0]@ == stream_link(base_url@, i@.map_values(|x: &Instrument| *x), "@bookTicker"@),
{
    vec![stream_link_of(base_url, i, "@bookTicker")]
}

/// The address of the trade streams of instruments, one address for them all.
pub fn get_spot_trade_links(base_url: &str, i: &[&Instrument]) -> (r: Vec<String>)
    requires
        forall|k: int| 0 <= k < i@.len() ==> assets_readable(*#[trigger] i@[k]),
    ensures
        r@.len() == 1,
        r@[0]@ == stream_link(base_url@, i@.map_values(|x: &Instrument| *x), "@trade"@),
{
    vec![stream_link_of(base_url, i, "@trade")]
}

} // verus!
