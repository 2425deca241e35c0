//! FTX names of assets and markets: `BTC/USD` is spot, `BTC-PERP` a perpetual
//! future, `BTC-0325` a dated future, and other names with `-` futures quoted
//! in what follows the `-`.
use crate::market_api::exchange::Exchange;
use crate::structs::instrument::{Instrument, InstrumentType};
use crate::util::symbol::{
    asset_chars, asset_readable, asset_fits, asset_fits_exec, asset_text, asset_to_str, canonical_asset,
    is_lower_alnum, lemma_ascii_lowercase, lemma_asset_text_roundtrip, spec_str_to_asset,
    str_to_asset,
};
use crate::util::text::{
    contains_char, contains_str, contains_text, digit_char, is_digit, lemma_split_chars_contains,
    lemma_split_chars_first,
    lemma_split_chars_pair, split_chars, split_str, str_eq,
};
use vstd::prelude::*;
use vstd::string::{StrSliceExecFns, StringExecFns};
use vstd::utf8::{decode_utf8, is_ascii_chars, valid_utf8};

verus! {

/// The asset code of a name.
pub fn de_ccy(s: &str) -> (a: [u8; 6])
    requires
        asset_fits(s@),
    ensures
        a@ == spec_str_to_asset(s@),
{
    str_to_asset(s)
}

/// What a market name says: its base's name, its quote's name and its kind, or
/// `None` for a name with `move` in it after a `-`, or a name with neither `-`
/// nor `/`. The quote of a perpetual or dated future is `usd`; a dated future
/// is given the expiry 0.
pub open spec fn spec_market_parts(s: Seq<char>) -> Option<(Seq<char>, Seq<char>, InstrumentType)> {
    if s.contains('-') {
        if contains_text(s, "move"@) {
            None
        } else {
            let v = split_chars(s, '-');
            let quote = v[1];
            if quote == "PERP"@ {
                Some((v[0], "usd"@, InstrumentType::Future(None)))
            } else if is_digit(quote[0]) {
                Some((v[0], "usd"@, InstrumentType::Future(Some(0))))
            } else {
                Some((v[0], quote, InstrumentType::Future(None)))
            }
        }
    } else {
        let v = split_chars(s, '/');
        if v.len() < 2 {
            None
        } else {
            Some((v[0], v[1], InstrumentType::Spot))
        }
    }
}

/// Whether `de_inst` takes a market name: after a `-` there is text, and the
/// names it reads fit asset codes.
pub open spec fn de_inst_accepts(s: Seq<char>) -> bool {
    &&& (s.contains('-') && !contains_text(s, "move"@)) ==> split_chars(s, '-')[1].len() > 0
    &&& match spec_market_parts(s) {
        Some((base, quote, _)) => asset_fits(base) && asset_fits(quote),
        None => true,
    }
}

/// Whether `i` is the instrument of a market whose name says `parts`.
pub open spec fn is_inst_of(parts: (Seq<char>, Seq<char>, InstrumentType), i: Instrument) -> bool {
    &&& i.exchange == Exchange::ftx
    &&& i.base@ == spec_str_to_asset(parts.0)
    &&& i.quote@ == spec_str_to_asset(parts.1)
    &&& i.instrument_type == parts.2
}

/// The instrument of a market name.
pub fn de_inst(s: &str) -> (r: Option<Instrument>)
    requires
        de_inst_accepts(s@),
    ensures
        r is Some <==> spec_market_parts(s@) is Some,
        r matches Some(i) ==> is_inst_of(spec_market_parts(s@).unwrap(), i),
{
    let symbol = s;
    proof {
        reveal_strlit("usd");
        reveal_strlit("PERP");
        reveal_strlit("move");
        assert(is_ascii_chars("usd"@));
        lemma_ascii_lowercase("usd"@);
    }
    if contains_char(symbol, '-') {
        if contains_str(symbol, "move") {
            return None;
        }
        let v: Vec<&str> = split_str(symbol, '-');
        proof {
            lemma_split_chars_contains(symbol@, '-');
            assert(v@[0]@ == split_chars(symbol@, '-')[0]);
            assert(v@[1]@ == split_chars(symbol@, '-')[1]);
        }
        let (base, quote) = (v[0], v[1]);
        let first = quote.get_char(0);
        if str_eq(quote, "PERP") {
            Some(
                Instrument {
                    exchange: Exchange::ftx,
                    base: de_ccy(base),
                    quote: de_ccy("usd"),
                    instrument_type: InstrumentType::Future(None),
                },
            )
        } else if '0' <= first && first <= '9' {
            Some(
                Instrument {
                    exchange: Exchange::ftx,
                    base: de_ccy(base),
                    quote: de_ccy("usd"),
                    instrument_type: InstrumentType::Future(Some(0)),
                },
            )
        } else {
            Some(
                Instrument {
                    exchange: Exchange::ftx,
                    base: de_ccy(base),
                    quote: de_ccy(quote),
                    instrument_type: InstrumentType::Future(None),
                },
            )
        }
    } else {
        let v: Vec<&str> = split_str(symbol, '/');
        if v.len() < 2 {
            return None;
        }
        proof {
            assert(v@[0]@ == split_chars(symbol@, '/')[0]);
            assert(v@[1]@ == split_chars(symbol@, '/')[1]);
        }
        let (base, quote) = (v[0], v[1]);
        Some(
            Instrument {
                exchange: Exchange::ftx,
                base: de_ccy(base),
                quote: de_ccy(quote),
                instrument_type: InstrumentType::Spot,
            },
        )
    }
}

/// Whether `de_inst` takes a market name.
pub fn de_inst_takes(s: &str) -> (r: bool)
    ensures
        r == de_inst_accepts(s@),
{
    proof {
        reveal_strlit("usd");
        reveal_strlit("PERP");
        reveal_strlit("move");
        assert(is_ascii_chars("usd"@));
        lemma_ascii_lowercase("usd"@);
    }
    if contains_char(s, '-') {
        if contains_str(s, "move") {
            return true;
        }
        let v: Vec<&str> = split_str(s, '-');
        proof {
            lemma_split_chars_contains(s@, '-');
            assert(v@[0]@ == split_chars(s@, '-')[0]);
            assert(v@[1]@ == split_chars(s@, '-')[1]);
        }
        let (base, quote) = (v[0], v[1]);
        if quote.unicode_len() == 0 {
            return false;
        }
        let first = quote.get_char(0);
        if str_eq(quote, "PERP") {
            asset_fits_exec(base)
        } else if '0' <= first && first <= '9' {
            asset_fits_exec(base)
        } else {
            asset_fits_exec(base) && asset_fits_exec(quote)
        }
    } else {
        let v: Vec<&str> = split_str(s, '/');
        if v.len() < 2 {
            return true;
        }
        proof {
            assert(v@[0]@ == split_chars(s@, '/')[0]);
            assert(v@[1]@ == split_chars(s@, '/')[1]);
        }
        asset_fits_exec(v[0]) && asset_fits_exec(v[1])
    }
}

/// The text of an asset code: its bytes up to the first zero.
pub fn se_ccy(a: &[u8; 6]) -> (s: String)
    requires
        valid_utf8(asset_text(a@)),
    ensures
        s@ == decode_utf8(asset_text(a@)),
{
    String::from_str(asset_to_str(vstd::array::array_as_slice(a)))
}

/// The month and day of the proleptic Gregorian date `days` days after
/// 1970-01-01, for `days >= 0`: the civil-from-days computation, counting
/// 400-year eras from 0000-03-01.
pub open spec fn civil_month_day(days: int) -> (int, int) {
    let z = days + 719468;
    let era = z / 146097;
    let doe = z - era * 146097;
    let yoe = (doe - doe / 1460 + doe / 36524 - doe / 146096) / 365;
    let doy = doe - (365 * yoe + yoe / 4 - yoe / 100);
    let mp = (5 * doy + 2) / 153;
    let day = doy - (153 * mp + 2) / 5 + 1;
    let month = if mp < 10 {
        mp + 3
    } else {
        mp - 9
    };
    (month, day)
}

/// A month is 1 to 12 and a day 1 to 31.
pub proof fn lemma_civil_month_day_bounds(days: int)
    requires
        0 <= days,
    ensures
        1 <= civil_month_day(days).0 <= 12,
        1 <= civil_month_day(days).1 <= 31,
{
    let z = days + 719468;
    let era = z / 146097;
    let doe = z - era * 146097;
    assert(0 <= doe < 146097);
    let yoe = (doe - doe / 1460 + doe / 36524 - doe / 146096) / 365;
    assert(0 <= yoe <= 399);
    let doy = doe - (365 * yoe + yoe / 4 - yoe / 100);
    assert(0 <= doy <= 365);
    let mp = (5 * doy + 2) / 153;
    assert(0 <= mp <= 11);
    let day = doy - (153 * mp + 2) / 5 + 1;
    assert(1 <= day <= 31);
}

/// `n`, below 100, in two digits.
pub open spec fn two_digits(n: int) -> Seq<char> {
    seq![digit_char((n / 10) as nat), digit_char((n % 10) as nat)]
}

/// The month and day, `MMDD`, of the date `secs` seconds after the epoch, in UTC.
pub open spec fn month_day_of(secs: u32) -> Seq<char> {
    let (month, day) = civil_month_day(secs as int / 86400);
    two_digits(month) + two_digits(day)
}

/// Formats `chrono::NaiveDateTime::from_timestamp(secs, 0)` with `%m%d`. The
/// claim is that the text is the month and the day of that UTC date, each
/// zero-padded to 2 digits, as chrono documents `%m` and `%d`.
#[verifier::external_body]
#[allow(deprecated)]
fn month_day(secs: u32) -> (r: String)
    ensures
        r@ == month_day_of(secs),
        r@.len() == 4,
        forall|i: int| 0 <= i < 4 ==> #[trigger] is_digit(r@[i]),
{
    chrono::NaiveDateTime::from_timestamp(secs as i64, 0).format("%m%d").to_string()
}

/// Whether the asset codes of an instrument have text.
pub open spec fn assets_readable(i: Instrument) -> bool {
    &&& valid_utf8(asset_text(i.base@))
    &&& valid_utf8(asset_text(i.quote@))
}

/// Whether both asset codes of an instrument have text, as the names of the
/// markets and streams of either exchange need.
pub fn instrument_readable(i: &Instrument) -> (r: bool)
    ensures
        r == assets_readable(*i),
        r == crate::data::exchange::binance::serde::assets_readable(*i),
{
    asset_readable(vstd::array::array_as_slice(&i.base)) && asset_readable(
        vstd::array::array_as_slice(&i.quote),
    )
}

/// The market name of an instrument: `base/quote` for spot, `base-PERP` for a
/// future without expiry, and `base-MMDD` for one with an expiry.
pub open spec fn spec_se_inst(i: Instrument) -> Seq<char> {
    let base = decode_utf8(asset_text(i.base@));
    match i.instrument_type {
        InstrumentType::Spot => base + "/"@ + decode_utf8(asset_text(i.quote@)),
        InstrumentType::Future(Some(e)) => base + "-"@ + month_day_of(e),
        InstrumentType::Future(None) => base + "-PERP"@,
    }
}

/// The market name of an instrument.
pub fn se_inst(s: &Instrument) -> (r: String)
    requires
        assets_readable(*s),
    ensures
        r@ == spec_se_inst(*s),
{
    let mut r = se_ccy(&s.base);
    match s.instrument_type {
        InstrumentType::Spot => {
            r.append("/");
            let quote = se_ccy(&s.quote);
            r.append(quote.as_str());
        },
        InstrumentType::Future(expiry) => {
            if let Some(expiry) = expiry {
                r.append("-");
                let md = month_day(expiry);
                r.append(md.as_str());
            } else {
                r.append("-PERP");
            }
        },
    }
    r
}

/// The message that subscribes to `channel` of the market of an instrument:
/// `{"op":"subscribe","channel":"<channel>","market":"<market name>"}`.
pub open spec fn spec_subscribe_message(channel: Seq<char>, i: Instrument) -> Seq<char> {
    "{\"op\":\"subscribe\",\"channel\":\""@ + channel + "\",\"market\":\""@ + spec_se_inst(i)
        + "\"}"@
}

/// The message that subscribes to `channel` of the market of an instrument.
pub fn subscribe_message(channel: &str, i: &Instrument) -> (r: String)
    requires
        assets_readable(*i),
    ensures
        r@ == spec_subscribe_message(channel@, *i),
{
    let mut r = String::from_str("{\"op\":\"subscribe\",\"channel\":\"");
    r.append(channel);
    r.append("\",\"market\":\"");
    let market = se_inst(i);
    r.append(market.as_str());
    r.append("\"}");
    r
}

/// The messages that subscribe to `channel` of the markets of instruments, in
/// their order.
pub fn subscribe_messages(channel: &str, insts: &Vec<Instrument>) -> (r: Vec<String>)
    requires
        forall|k: int| 0 <= k < insts@.len() ==> assets_readable(#[trigger] insts@[k]),
    ensures
        r@.len() == insts@.len(),
        forall|k: int|
            0 <= k < insts@.len() ==> (#[trigger] r@[k])@ == spec_subscribe_message(
                channel@,
                insts@[k],
            ),
{
    let mut r: Vec<String> = Vec::new();
    let mut k: usize = 0;
    while k < insts.len()
        invariant
            k <= insts@.len(),
            r@.len() == k,
            forall|j: int| 0 <= j < insts@.len() ==> assets_readable(#[trigger] insts@[j]),
            forall|j: int|
                0 <= j < k ==> (#[trigger] r@[j])@ == spec_subscribe_message(channel@, insts@[j]),
        decreases insts@.len() - k,
    {
        r.push(subscribe_message(channel, &insts[k]));
        k += 1;
    }
    r
}

/// Text of lowercase letters and digits has neither `-` nor `/` in it.
proof fn lemma_alnum_no_separators(b: Seq<char>)
    requires
        forall|i: int| 0 <= i < b.len() ==> is_lower_alnum(#[trigger] b[i] as u8),
        is_ascii_chars(b),
    ensures
        !b.contains('-'),
        !b.contains('/'),
{
    assert forall|i: int| 0 <= i < b.len() implies b[i] != '-' && b[i] != '/' by {
        assert(is_lower_alnum(b[i] as u8));
    }
}

/// The base of a market name is the text before its first separator: before
/// the first `-` for a future (a name with `-` and no `move`), before the first
/// `/` for a spot market. Every instrument that the name says has the asset
/// code of that text as its base, and is a future exactly when the name has a
/// `-`; a perpetual (`-PERP`) has quote `usd` and no expiry, and a dated
/// future (a digit after the `-`) has quote `usd` and the expiry 0.
pub proof fn lemma_market_base(s: Seq<char>, i: Instrument)
    requires
        spec_market_parts(s) is Some,
        is_inst_of(spec_market_parts(s).unwrap(), i),
    ensures
        ({
            let sep = if s.contains('-') {
                '-'
            } else {
                '/'
            };
            let b = spec_market_parts(s).unwrap().0;
            &&& b.len() < s.len()
            &&& s.take(b.len() as int) == b
            &&& !b.contains(sep)
            &&& s[b.len() as int] == sep
            &&& i.base@ == spec_str_to_asset(b)
        }),
        i.exchange == Exchange::ftx,
        s.contains('-') <==> i.instrument_type is Future,
        s.contains('-') && (split_chars(s, '-')[1] == "PERP"@ || is_digit(split_chars(s, '-')[1][0]))
            ==> i.quote@ == spec_str_to_asset("usd"@),
        s.contains('-') && split_chars(s, '-')[1] == "PERP"@ ==> i.instrument_type
            == InstrumentType::Future(None),
        s.contains('-') && split_chars(s, '-')[1] != "PERP"@ && is_digit(split_chars(s, '-')[1][0])
            ==> i.instrument_type == InstrumentType::Future(Some(0)),
{
    let sep = if s.contains('-') {
        '-'
    } else {
        '/'
    };
    lemma_split_chars_first(s, sep);
    if s.contains('-') {
        assert(s.contains(sep));
    } else {
        assert(split_chars(s, '/').len() >= 2);
        assert(s.contains('/')) by {
            if !s.contains('/') {
                crate::util::text::lemma_split_chars_none(s, '/');
            }
        }
    }
}

/// Reading the market name of a spot instrument, or of a perpetual future
/// quoted in `usd`, gives the instrument back, when its asset codes are
/// canonical and the base's text has no `move` in it.
pub proof fn lemma_inst_roundtrip(i: Instrument)
    requires
        i.exchange == Exchange::ftx,
        canonical_asset(i.base@),
        canonical_asset(i.quote@),
        !(i.instrument_type matches InstrumentType::Future(Some(_))),
        i.instrument_type == InstrumentType::Future(None) ==> {
            &&& i.quote@ == spec_str_to_asset("usd"@)
            &&& !contains_text(asset_chars(i.base@), "move"@)
        },
    ensures
        assets_readable(i),
        de_inst_accepts(spec_se_inst(i)),
        spec_market_parts(spec_se_inst(i)) matches Some(parts) && is_inst_of(parts, i),
{
    let b = asset_chars(i.base@);
    let q = asset_chars(i.quote@);
    lemma_asset_text_roundtrip(i.base@);
    lemma_asset_text_roundtrip(i.quote@);
    lemma_alnum_no_separators(b);
    lemma_alnum_no_separators(q);
    let s = spec_se_inst(i);
    if i.instrument_type == InstrumentType::Spot {
        reveal_strlit("/");
        assert(s =~= b + seq!['/'] + q);
        lemma_split_chars_pair(b, q, '/');
        assert(!s.contains('-')) by {
            if s.contains('-') {
                let k = choose|k: int| 0 <= k < s.len() && s[k] == '-';
                if k < b.len() {
                    assert(b[k] == '-');
                } else if k > b.len() {
                    assert(q[k - b.len() - 1] == '-');
                }
            }
        }
    } else {
        reveal_strlit("-PERP");
        reveal_strlit("PERP");
        reveal_strlit("move");
        reveal_strlit("usd");
        let p = "PERP"@;
        assert(s =~= b + seq!['-'] + p);
        assert(!p.contains('-'));
        lemma_split_chars_pair(b, p, '-');
        assert(s[b.len() as int] == '-');
        assert(!contains_text(s, "move"@)) by {
            if contains_text(s, "move"@) {
                let k = choose|k: int|
                    0 <= k && k + 4 <= s.len() && #[trigger] s.subrange(k, k + 4) == "move"@;
                if k + 4 <= b.len() {
                    assert(b.subrange(k, k + 4) =~= s.subrange(k, k + 4));
                    assert(contains_text(b, "move"@));
                } else if k <= b.len() {
                    assert(s.subrange(k, k + 4)[b.len() - k] == '-');
                } else {
                    assert(s.subrange(k, k + 4)[0] == s[k]);
                }
            }
        }
        assert(is_ascii_chars("usd"@));
        lemma_ascii_lowercase("usd"@);
    }
}

/// A month and day is four digits.
pub proof fn lemma_month_day_digits(secs: u32)
    ensures
        month_day_of(secs).len() == 4,
        forall|k: int| 0 <= k < 4 ==> is_digit(#[trigger] month_day_of(secs)[k]),
{
    let (m, d) = civil_month_day(secs as int / 86400);
    lemma_civil_month_day_bounds(secs as int / 86400);
    let t = month_day_of(secs);
    assert(t =~= two_digits(m) + two_digits(d));
    assert forall|k: int| 0 <= k < 4 implies is_digit(#[trigger] t[k]) by {
        let n: nat = if k == 0 {
            (m / 10) as nat
        } else if k == 1 {
            (m % 10) as nat
        } else if k == 2 {
            (d / 10) as nat
        } else {
            (d % 10) as nat
        };
        assert(t[k] == digit_char(n));
        assert(n < 10);
        assert(((n + '0' as nat) as u32) as char as int == n + 48);
    }
}

/// Reading the market name of a dated future gives a dated future of the same
/// base, quoted in `usd`, with the expiry 0 (the name carries only the month
/// and day), when its base is canonical and has no `move` in it.
pub proof fn lemma_dated_inst_roundtrip(i: Instrument, got: Instrument)
    requires
        i.exchange == Exchange::ftx,
        canonical_asset(i.base@),
        canonical_asset(i.quote@),
        i.instrument_type matches InstrumentType::Future(Some(_)),
        !contains_text(asset_chars(i.base@), "move"@),
        is_inst_of(spec_market_parts(spec_se_inst(i)).unwrap(), got),
    ensures
        assets_readable(i),
        de_inst_accepts(spec_se_inst(i)),
        spec_market_parts(spec_se_inst(i)) is Some,
        got.exchange == Exchange::ftx,
        got.base == i.base,
        got.quote@ == spec_str_to_asset("usd"@),
        got.instrument_type == InstrumentType::Future(Some(0)),
{
    let e = match i.instrument_type {
        InstrumentType::Future(Some(e)) => e,
        _ => 0,
    };
    let b = asset_chars(i.base@);
    let md = month_day_of(e);
    lemma_asset_text_roundtrip(i.base@);
    lemma_asset_text_roundtrip(i.quote@);
    lemma_alnum_no_separators(b);
    lemma_month_day_digits(e);
    reveal_strlit("-");
    reveal_strlit("move");
    reveal_strlit("usd");
    reveal_strlit("PERP");
    let s = spec_se_inst(i);
    assert(s =~= b + seq!['-'] + md);
    assert(!md.contains('-')) by {
        if md.contains('-') {
            let k = choose|k: int| 0 <= k < md.len() && md[k] == '-';
            assert(is_digit(md[k]));
        }
    }
    lemma_split_chars_pair(b, md, '-');
    assert(s[b.len() as int] == '-');
    assert(s.contains('-'));
    assert(is_digit(md[0]));
    assert(md != "PERP"@) by {
        assert("PERP"@[0] == 'P');
    }
    assert(!contains_text(s, "move"@)) by {
        if contains_text(s, "move"@) {
            let k = choose|k: int|
                0 <= k && k + 4 <= s.len() && #[trigger] s.subrange(k, k + 4) == "move"@;
            if k + 4 <= b.len() {
                assert(b.subrange(k, k + 4) =~= s.subrange(k, k + 4));
                assert(contains_text(b, "move"@));
            } else if k <= b.len() {
                assert(s.subrange(k, k + 4)[b.len() - k] == '-');
            } else {
                assert(s.subrange(k, k + 4)[0] == s[k]);
                assert(is_digit(md[k - b.len() - 1]));
            }
        }
    }
    assert(is_ascii_chars("usd"@));
    lemma_ascii_lowercase("usd"@);
    assert(spec_str_to_asset(b) == i.base@);
    assert(got.base@ == i.base@);
    assert(got.base =~= i.base);
}

} // verus!
