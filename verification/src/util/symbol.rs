//! Asset codes: the 6-byte, zero-padded, lowercase form that messages carry,
//! and splitting an exchange's symbol name into base and quote.
use crate::util::text::{ascii_lowercase, lowercase_of, str_from_utf8, to_lowercase};
use vstd::prelude::*;
use vstd::string::StringSliceAdditionalSpecFns;
use vstd::utf8::{decode_utf8, encode_utf8, is_ascii_chars, is_char_boundary, valid_utf8};

verus! {

/// Whether `b` ends with `q`.
pub open spec fn ends_with(b: Seq<u8>, q: Seq<u8>) -> bool {
    q.len() <= b.len() && b.subrange(b.len() - q.len(), b.len() as int) == q
}

/// The quotes that `split_currency_quote` tries before it finds one that `symbol`
/// ends with can be cut from its end: each is no longer than the symbol and the
/// cut falls on a character boundary.
pub open spec fn quotes_cuttable(symbol: Seq<u8>, quotes: Seq<&str>) -> bool {
    forall|i: int|
        0 <= i < quotes.len() && (forall|j: int|
            0 <= j < i ==> !ends_with(symbol, #[trigger] quotes[j].spec_bytes())) ==> {
            &&& (#[trigger] quotes[i]).spec_bytes().len() <= symbol.len()
            &&& is_char_boundary(symbol, symbol.len() - quotes[i].spec_bytes().len())
        }
}

/// Splits `symbol` into the part before the first of `quotes` that it ends with,
/// and that quote.
pub fn split_currency_quote<'a>(symbol: &'a str, quotes: &[&'static str]) -> (r: Option<
    (&'a str, &'a str),
>)
    requires
        quotes_cuttable(symbol.spec_bytes(), quotes@),
    ensures
        match r {
            Some((base, quote)) => exists|i: int|
                0 <= i < quotes@.len() && ends_with(symbol.spec_bytes(), quotes@[i].spec_bytes())
                    && (forall|j: int|
                    0 <= j < i ==> !ends_with(symbol.spec_bytes(), #[trigger] quotes@[j].spec_bytes()))
                    && quote@ == quotes@[i]@ && base.spec_bytes() == symbol.spec_bytes().subrange(
                    0,
                    symbol.spec_bytes().len() - quotes@[i].spec_bytes().len(),
                ),
            None => forall|i: int|
                0 <= i < quotes@.len() ==> !ends_with(symbol.spec_bytes(), #[trigger] quotes@[i].spec_bytes()),
        },
{
    let sb = symbol.as_bytes();
    let mut i: usize = 0;
    while i < quotes.len()
        invariant
            0 <= i <= quotes@.len(),
            sb@ == symbol.spec_bytes(),
            quotes_cuttable(symbol.spec_bytes(), quotes@),
            forall|j: int| 0 <= j < i ==> !ends_with(sb@, #[trigger] quotes@[j].spec_bytes()),
        decreases quotes@.len() - i,
    {
        let quote = quotes[i];
        let qb = quote.as_bytes();
        assert(quotes@[i as int] == quote);
        let sl = sb.len();
        let start = sl - qb.len();
        let mut k: usize = 0;
        let mut same = true;
        while k < qb.len()
            invariant
                0 <= k <= qb@.len(),
                sl == sb@.len(),
                start + qb@.len() == sb@.len(),
                same == (forall|j: int| 0 <= j < k ==> sb@[start + j] == #[trigger] qb@[j]),
            decreases qb@.len() - k,
        {
            if sb[start + k] != qb[k] {
                same = false;
            }
            k = k + 1;
        }
        proof {
            if same {
                assert(sb@.subrange(start as int, sl as int) =~= qb@);
            } else {
                let j = choose|j: int| 0 <= j < k && sb@[start + j] != #[trigger] qb@[j];
                assert(sb@.subrange(start as int, sl as int)[j] != qb@[j]);
            }
        }
        if same {
            let (base, _rest) = symbol.split_at(start);
            return Some((base, quote));
        }
        i = i + 1;
    }
    None
}

/// The index of the first zero byte, or the length.
pub open spec fn first_zero(b: Seq<u8>) -> int
    decreases b.len(),
{
    if b.len() == 0 {
        0
    } else if b[0] == 0 {
        0
    } else {
        1 + first_zero(b.drop_first())
    }
}

/// The text of an asset code: its bytes up to the first zero.
pub open spec fn asset_text(b: Seq<u8>) -> Seq<u8> {
    b.take(first_zero(b))
}

proof fn lemma_first_zero(b: Seq<u8>, k: int)
    requires
        0 <= k <= b.len(),
        forall|j: int| 0 <= j < k ==> b[j] != 0,
        k == b.len() || b[k] == 0,
    ensures
        first_zero(b) == k,
    decreases k,
{
    if k > 0 {
        lemma_first_zero(b.drop_first(), k - 1);
    }
}

/// The lowercase form of a name: ASCII capitals made small, or for other
/// names what `str::to_lowercase` gives.
pub open spec fn asset_lowercase(s: Seq<char>) -> Seq<char> {
    if is_ascii_chars(s) {
        ascii_lowercase(s)
    } else {
        lowercase_of(s)
    }
}

/// The lowercase form of `s` fits an asset code: lowercasing keeps its length
/// in bytes, which is at most 6. An ASCII name fits when it has at most 6
/// characters.
pub open spec fn asset_fits(s: Seq<char>) -> bool {
    &&& encode_utf8(asset_lowercase(s)).len() == encode_utf8(s).len()
    &&& encode_utf8(s).len() <= 6
}

/// Lowercasing an ASCII name keeps it ASCII, one byte per character.
pub proof fn lemma_ascii_lowercase(s: Seq<char>)
    requires
        is_ascii_chars(s),
    ensures
        is_ascii_chars(ascii_lowercase(s)),
        encode_utf8(ascii_lowercase(s)).len() == s.len(),
        encode_utf8(s).len() == s.len(),
{
    let l = ascii_lowercase(s);
    assert forall|i: int| 0 <= i < l.len() implies '\0' <= #[trigger] l[i] <= '\u{7f}' by {
        let c = s[i];
        if 'A' <= c <= 'Z' {
            assert(((c as u32) + 32) as char == l[i]);
        }
    }
    vstd::utf8::is_ascii_chars_encode_utf8(s);
    vstd::utf8::is_ascii_chars_encode_utf8(l);
}

/// `b` padded with zeros to 6 bytes.
pub open spec fn padded_asset(b: Seq<u8>) -> Seq<u8> {
    b + Seq::new((6 - b.len()) as nat, |i: int| 0u8)
}

/// The asset code of a name: its lowercase form, padded with zeros.
pub open spec fn spec_str_to_asset(s: Seq<char>) -> Seq<u8> {
    padded_asset(encode_utf8(asset_lowercase(s)))
}

/// The asset code of a name: its lowercase form, padded with zeros.
pub fn str_to_asset(s: &str) -> (a: [u8; 6])
    requires
        asset_fits(s@),
    ensures
        a@ == spec_str_to_asset(s@),
{
    let mut rt = [0u8; 6];
    let lower = to_lowercase(s);
    proof {
        if is_ascii_chars(s@) {
            lemma_ascii_lowercase(s@);
        }
    }
    let lb = lower.as_str().as_bytes();
    let n = s.as_bytes().len();
    let mut k: usize = 0;
    while k < n
        invariant
            0 <= k <= n,
            n <= 6,
            lb@ == encode_utf8(asset_lowercase(s@)),
            lb@.len() == n,
            rt@.len() == 6,
            forall|j: int| 0 <= j < k ==> rt@[j] == lb@[j],
            forall|j: int| k <= j < 6 ==> rt@[j] == 0,
        decreases n - k,
    {
        rt[k] = lb[k];
        k = k + 1;
    }
    assert(rt@ =~= spec_str_to_asset(s@));
    rt
}

/// Whether `s` fits an asset code.
pub fn asset_fits_exec(s: &str) -> (r: bool)
    ensures
        r == asset_fits(s@),
{
    let lower = to_lowercase(s);
    proof {
        if is_ascii_chars(s@) {
            lemma_ascii_lowercase(s@);
        }
    }
    let ls = lower.as_str();
    let lb = ls.as_bytes();
    let n = lb.len();
    let m = s.as_bytes().len();
    n == m && m <= 6
}

/// The asset code of a name, or `None` where `str_to_asset` would not take it.
pub fn try_str_to_asset(s: &str) -> (r: Option<[u8; 6]>)
    ensures
        r is Some <==> asset_fits(s@),
        r matches Some(a) ==> a@ == spec_str_to_asset(s@),
{
    if asset_fits_exec(s) {
        Some(str_to_asset(s))
    } else {
        None
    }
}

/// The text of an asset code, up to its first zero byte.
pub fn asset_to_str(u: &[u8]) -> (s: &str)
    requires
        valid_utf8(asset_text(u@)),
    ensures
        s@ == decode_utf8(asset_text(u@)),
        s.spec_bytes() == asset_text(u@),
{
    let mut k: usize = 0;
    while k < u.len() && u[k] != 0
        invariant
            0 <= k <= u@.len(),
            forall|j: int| 0 <= j < k ==> u@[j] != 0,
        decreases u@.len() - k,
    {
        k = k + 1;
    }
    proof {
        lemma_first_zero(u@, k as int);
    }
    let token = vstd::slice::slice_subrange(u, 0, k);
    proof {
        vstd::utf8::decode_utf8_encode_utf8(token@);
    }
    str_from_utf8(token).unwrap()
}

/// Whether an asset code has text: its bytes up to the first zero are UTF-8.
pub fn asset_readable(u: &[u8]) -> (r: bool)
    ensures
        r == valid_utf8(asset_text(u@)),
{
    let mut k: usize = 0;
    while k < u.len() && u[k] != 0
        invariant
            0 <= k <= u@.len(),
            forall|j: int| 0 <= j < k ==> u@[j] != 0,
        decreases u@.len() - k,
    {
        k = k + 1;
    }
    proof {
        lemma_first_zero(u@, k as int);
    }
    let token = vstd::slice::slice_subrange(u, 0, k);
    str_from_utf8(token).is_some()
}

/// Where the first zero byte is: no zero before it.
proof fn lemma_first_zero_bounds(b: Seq<u8>)
    ensures
        0 <= first_zero(b) <= b.len(),
        forall|j: int| 0 <= j < first_zero(b) ==> b[j] != 0,
        first_zero(b) < b.len() ==> b[first_zero(b)] == 0,
    decreases b.len(),
{
    if b.len() > 0 && b[0] != 0 {
        lemma_first_zero_bounds(b.drop_first());
        assert forall|j: int| 0 <= j < first_zero(b) implies b[j] != 0 by {
            if j > 0 {
                assert(b[j] == b.drop_first()[j - 1]);
            }
        }
    }
}

/// Reading back the asset code of an ASCII name of at most 6 characters with
/// no zero character gives the name with its ASCII capitals made small: the
/// code fits, its text up to the first zero byte is valid UTF-8, and it reads
/// as the lowercased name.
pub proof fn lemma_asset_name_roundtrip(s: Seq<char>)
    requires
        is_ascii_chars(s),
        s.len() <= 6,
        !s.contains('\0'),
    ensures
        asset_fits(s),
        valid_utf8(asset_text(spec_str_to_asset(s))),
        decode_utf8(asset_text(spec_str_to_asset(s))) == ascii_lowercase(s),
{
    lemma_ascii_lowercase(s);
    let l = ascii_lowercase(s);
    let e = encode_utf8(l);
    vstd::utf8::is_ascii_chars_encode_utf8(l);
    let a = spec_str_to_asset(s);
    assert forall|j: int| 0 <= j < e.len() implies a[j] != 0 by {
        assert(e[j] == l[j] as u8);
        assert(s[j] != '\0') by {
            if s[j] == '\0' {
                assert(s.contains(s[j]));
            }
        }
        let c = s[j];
        if 'A' <= c <= 'Z' {
            assert(((c as u32) + 32) as char == l[j]);
        }
        assert(a[j] == e[j]);
    }
    assert(e.len() == a.len() || a[e.len() as int] == 0);
    lemma_first_zero(a, e.len() as int);
    assert(asset_text(a) =~= e);
    vstd::utf8::encode_utf8_valid_utf8(l);
    vstd::utf8::encode_utf8_decode_utf8(l);
}

/// Whether a byte is a lowercase ASCII letter or a digit.
pub open spec fn is_lower_alnum(b: u8) -> bool {
    (97 <= b <= 122) || (48 <= b <= 57)
}

/// Whether `a` is an asset code as names give them: lowercase ASCII letters and
/// digits, then zeros.
pub open spec fn canonical_asset(a: Seq<u8>) -> bool {
    &&& a.len() == 6
    &&& forall|i: int| 0 <= i < first_zero(a) ==> #[trigger] is_lower_alnum(a[i])
    &&& forall|i: int| first_zero(a) <= i < 6 ==> a[i] == 0
}

/// The text of a canonical asset code: its characters, one per byte.
pub open spec fn asset_chars(a: Seq<u8>) -> Seq<char> {
    Seq::new(first_zero(a) as nat, |i: int| a[i] as char)
}

/// The text of a canonical asset code reads back as the code: it is its
/// characters, ASCII, at most 6 of them, with no capitals.
pub proof fn lemma_asset_text_roundtrip(a: Seq<u8>)
    requires
        canonical_asset(a),
    ensures
        valid_utf8(asset_text(a)),
        decode_utf8(asset_text(a)) == asset_chars(a),
        is_ascii_chars(asset_chars(a)),
        asset_fits(asset_chars(a)),
        spec_str_to_asset(asset_chars(a)) == a,
        forall|i: int| 0 <= i < asset_chars(a).len() ==> is_lower_alnum(#[trigger] asset_chars(a)[i] as u8),
{
    lemma_first_zero_bounds(a);
    let k = first_zero(a);
    let t = asset_text(a);
    let c = asset_chars(a);
    assert forall|i: int| 0 <= i < c.len() implies '\0' <= #[trigger] c[i] <= '\u{7f}' by {
        assert(is_lower_alnum(a[i]));
    }
    vstd::utf8::is_ascii_chars_encode_utf8(c);
    assert(encode_utf8(c) =~= t) by {
        assert forall|i: int| 0 <= i < c.len() implies encode_utf8(c)[i] == t[i] by {
            assert(c[i] as u8 == encode_utf8(c)[i]);
            assert(is_lower_alnum(a[i]));
        }
    }
    vstd::utf8::encode_utf8_valid_utf8(c);
    vstd::utf8::encode_utf8_decode_utf8(c);
    assert(ascii_lowercase(c) =~= c) by {
        assert forall|i: int| 0 <= i < c.len() implies ascii_lowercase(c)[i] == c[i] by {
            assert(is_lower_alnum(a[i]));
        }
    }
    lemma_ascii_lowercase(c);
    assert(padded_asset(t) =~= a) by {
        assert forall|i: int| 0 <= i < 6 implies padded_asset(t)[i] == a[i] by {
            if i >= k {
                assert(a[i] == 0);
            }
        }
    }
    assert forall|i: int| 0 <= i < c.len() implies is_lower_alnum(#[trigger] c[i] as u8) by {
        assert(is_lower_alnum(a[i]));
    }
}

} // verus!
