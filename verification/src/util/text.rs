//! Text helpers: splitting, comparing, decimal numbers, and the calls into `str`
//! that the library relies on.
use vstd::prelude::*;
use vstd::string::{StrSliceExecFns, StringExecFns};
use vstd::utf8::is_ascii_chars;

verus! {

/// The pieces of `s` between occurrences of `c`, as `str::split` with a char
/// pattern gives them: `n` occurrences give `n + 1` pieces, empty ones included.
pub open spec fn split_chars(s: Seq<char>, c: char) -> Seq<Seq<char>>
    decreases s.len(),
{
    if s.len() == 0 {
        seq![Seq::<char>::empty()]
    } else {
        let r = split_chars(s.drop_last(), c);
        if s.last() == c {
            r.push(Seq::<char>::empty())
        } else {
            r.update(r.len() - 1, r.last().push(s.last()))
        }
    }
}

pub proof fn lemma_split_chars_nonempty(s: Seq<char>, c: char)
    ensures
        split_chars(s, c).len() >= 1,
    decreases s.len(),
{
    if s.len() > 0 {
        lemma_split_chars_nonempty(s.drop_last(), c);
    }
}

/// Splits `s` at every `c`.
pub fn split_str<'a>(s: &'a str, c: char) -> (v: Vec<&'a str>)
    ensures
        v@.map_values(|x: &str| x@) == split_chars(s@, c),
{
    let n = s.unicode_len();
    let mut v: Vec<&'a str> = Vec::new();
    let mut start: usize = 0;
    let mut i: usize = 0;
    proof {
        assert(s@.take(0) =~= Seq::<char>::empty());
    }
    while i < n
        invariant
            0 <= start <= i <= n,
            n == s@.len(),
            v@.map_values(|x: &str| x@).push(s@.subrange(start as int, i as int)) == split_chars(
                s@.take(i as int),
                c,
            ),
        decreases n - i,
    {
        let ch = s.get_char(i);
        let ghost before = v@.map_values(|x: &str| x@);
        proof {
            assert(s@.take(i + 1).drop_last() =~= s@.take(i as int));
            assert(s@.take(i + 1).last() == ch);
            lemma_split_chars_nonempty(s@.take(i as int), c);
        }
        if ch == c {
            let piece = s.substring_char(start, i);
            v.push(piece);
            proof {
                assert(v@.map_values(|x: &str| x@) =~= before.push(s@.subrange(start as int, i as int)));
                assert(s@.subrange((i + 1) as int, (i + 1) as int) =~= Seq::<char>::empty());
            }
            start = i + 1;
        } else {
            proof {
                assert(s@.subrange(start as int, i + 1) =~= s@.subrange(start as int, i as int).push(ch));
            }
        }
        i = i + 1;
    }
    let last = s.substring_char(start, n);
    let ghost before = v@.map_values(|x: &str| x@);
    v.push(last);
    proof {
        assert(v@.map_values(|x: &str| x@) =~= before.push(s@.subrange(start as int, n as int)));
        assert(s@.take(n as int) =~= s@);
    }
    v
}

/// A string with `c` in it splits at `c` into at least two pieces.
pub proof fn lemma_split_chars_contains(s: Seq<char>, c: char)
    requires
        s.contains(c),
    ensures
        split_chars(s, c).len() >= 2,
    decreases s.len(),
{
    lemma_split_chars_nonempty(s, c);
    if s.last() != c {
        let k = choose|k: int| 0 <= k < s.len() && s[k] == c;
        assert(s.drop_last()[k] == c);
        lemma_split_chars_contains(s.drop_last(), c);
    } else {
        lemma_split_chars_nonempty(s.drop_last(), c);
    }
}

/// A string without `c` splits at `c` into itself.
pub proof fn lemma_split_chars_none(s: Seq<char>, c: char)
    requires
        !s.contains(c),
    ensures
        split_chars(s, c) == seq![s],
    decreases s.len(),
{
    if s.len() > 0 {
        assert(!s.drop_last().contains(c)) by {
            if s.drop_last().contains(c) {
                let k = choose|k: int| 0 <= k < s.drop_last().len() && s.drop_last()[k] == c;
                assert(s[k] == c);
            }
        }
        lemma_split_chars_none(s.drop_last(), c);
        assert(s.last() != c) by {
            assert(s[s.len() - 1] == s.last());
        }
        assert(s.drop_last().push(s.last()) =~= s);
    } else {
        assert(s =~= Seq::<char>::empty());
    }
}

/// Text without `c` added after a string lengthens its last piece.
proof fn lemma_split_chars_append(p: Seq<char>, y: Seq<char>, c: char)
    requires
        !y.contains(c),
    ensures
        split_chars(p + y, c) == split_chars(p, c).update(
            split_chars(p, c).len() - 1,
            split_chars(p, c).last() + y,
        ),
    decreases y.len(),
{
    lemma_split_chars_nonempty(p, c);
    if y.len() == 0 {
        assert(p + y =~= p);
        assert(split_chars(p, c).last() + y =~= split_chars(p, c).last());
        assert(split_chars(p, c).update(split_chars(p, c).len() - 1, split_chars(p, c).last())
            =~= split_chars(p, c));
    } else {
        let y0 = y.drop_last();
        assert(!y0.contains(c)) by {
            if y0.contains(c) {
                let k = choose|k: int| 0 <= k < y0.len() && y0[k] == c;
                assert(y[k] == c);
            }
        }
        lemma_split_chars_append(p, y0, c);
        assert((p + y).drop_last() =~= p + y0);
        assert((p + y).last() == y.last());
        assert(y.last() != c) by {
            assert(y[y.len() - 1] == y.last());
        }
        assert((split_chars(p, c).last() + y0).push(y.last()) =~= split_chars(p, c).last() + y);
        assert(split_chars(p + y, c) =~= split_chars(p, c).update(
            split_chars(p, c).len() - 1,
            split_chars(p, c).last() + y,
        ));
    }
}

/// Two strings without `c`, joined by `c`, split at `c` into the two.
pub proof fn lemma_split_chars_pair(x: Seq<char>, y: Seq<char>, c: char)
    requires
        !x.contains(c),
        !y.contains(c),
    ensures
        split_chars(x + seq![c] + y, c) == seq![x, y],
{
    lemma_split_chars_none(x, c);
    let xc = x + seq![c];
    assert(xc.drop_last() =~= x);
    assert(xc.last() == c);
    assert(split_chars(xc, c) == seq![x, Seq::<char>::empty()]);
    lemma_split_chars_append(xc, y, c);
    assert(Seq::<char>::empty() + y =~= y);
    assert(split_chars(xc, c).update(1, Seq::<char>::empty() + y) =~= seq![x, y]);
}

/// Text without `c` added after a string and a `c` is one more piece.
pub proof fn lemma_split_chars_push(p: Seq<char>, y: Seq<char>, c: char)
    requires
        !y.contains(c),
    ensures
        split_chars(p + seq![c] + y, c) == split_chars(p, c).push(y),
{
    let pc = p + seq![c];
    assert(pc.drop_last() =~= p);
    assert(pc.last() == c);
    lemma_split_chars_nonempty(p, c);
    lemma_split_chars_append(pc, y, c);
    assert(Seq::<char>::empty() + y =~= y);
    assert(split_chars(pc, c).update(split_chars(pc, c).len() - 1, split_chars(pc, c).last() + y)
        =~= split_chars(p, c).push(y));
}

/// The first piece of `s` split at `c` is the text before the first `c`: a
/// prefix of `s` without `c`, followed in `s` by `c` unless it is all of `s`.
pub proof fn lemma_split_chars_first(s: Seq<char>, c: char)
    ensures
        split_chars(s, c)[0].len() <= s.len(),
        s.take(split_chars(s, c)[0].len() as int) == split_chars(s, c)[0],
        !split_chars(s, c)[0].contains(c),
        split_chars(s, c)[0].len() < s.len() ==> s[split_chars(s, c)[0].len() as int] == c,
        split_chars(s, c)[0].len() == s.len() <==> !s.contains(c),
    decreases s.len(),
{
    lemma_split_chars_nonempty(s, c);
    if s.len() == 0 {
        assert(s.take(0) =~= s);
    } else {
        let d = s.drop_last();
        lemma_split_chars_first(d, c);
        lemma_split_chars_nonempty(d, c);
        let r = split_chars(d, c);
        let p = r[0];
        assert(s.last() == s[s.len() - 1]);
        if s.last() == c {
            assert(split_chars(s, c)[0] == p);
            assert(s.take(p.len() as int) =~= d.take(p.len() as int));
            if p.len() < d.len() {
                assert(s[p.len() as int] == d[p.len() as int]);
            }
            assert(s.contains(c));
        } else if r.len() == 1 {
            assert(!d.contains(c)) by {
                if d.contains(c) {
                    lemma_split_chars_contains(d, c);
                }
            }
            lemma_split_chars_none(d, c);
            assert(p == d);
            assert(split_chars(s, c)[0] == d.push(s.last()));
            assert(d.push(s.last()) =~= s);
            assert(s.take(s.len() as int) =~= s);
            assert(!s.contains(c)) by {
                if s.contains(c) {
                    let k = choose|k: int| 0 <= k < s.len() && s[k] == c;
                    if k < d.len() {
                        assert(d[k] == c);
                        assert(d.contains(c));
                    }
                }
            }
        } else {
            assert(split_chars(s, c)[0] == p);
            assert(s.take(p.len() as int) =~= d.take(p.len() as int));
            if p.len() < d.len() {
                assert(s[p.len() as int] == d[p.len() as int]);
            }
            assert(d.contains(c)) by {
                if !d.contains(c) {
                    lemma_split_chars_none(d, c);
                }
            }
            let k = choose|k: int| 0 <= k < d.len() && d[k] == c;
            assert(s[k] == c);
            assert(s.contains(c));
        }
    }
}

/// Whether `c` is in `s`, as `str::find` with a char finds it.
pub fn contains_char(s: &str, c: char) -> (r: bool)
    ensures
        r == s@.contains(c),
{
    let n = s.unicode_len();
    let mut i: usize = 0;
    while i < n
        invariant
            0 <= i <= n,
            n == s@.len(),
            forall|j: int| 0 <= j < i ==> s@[j] != c,
        decreases n - i,
    {
        if s.get_char(i) == c {
            return true;
        }
        i = i + 1;
    }
    false
}

/// Whether `p` occurs in `s`.
pub open spec fn contains_text(s: Seq<char>, p: Seq<char>) -> bool {
    exists|i: int| 0 <= i && i + p.len() <= s.len() && #[trigger] s.subrange(i, i + p.len()) == p
}

/// Whether `p` occurs in `s`, as `str::contains` with a string finds it.
pub fn contains_str(s: &str, p: &str) -> (r: bool)
    ensures
        r == contains_text(s@, p@),
{
    let n = s.unicode_len();
    let m = p.unicode_len();
    if m > n {
        proof {
            assert forall|i: int| 0 <= i && i + p@.len() <= s@.len() implies #[trigger] s@.subrange(
                i,
                i + p@.len(),
            ) != p@ by {}
        }
        return false;
    }
    let mut i: usize = 0;
    while i <= n - m
        invariant
            0 <= i <= n - m + 1,
            m <= n,
            n == s@.len(),
            m == p@.len(),
            forall|j: int| 0 <= j < i ==> #[trigger] s@.subrange(j, j + m) != p@,
        decreases n - m + 1 - i,
    {
        let mut k: usize = 0;
        let mut same = true;
        while k < m
            invariant
                0 <= k <= m,
                i + m <= n,
                n == s@.len(),
                m == p@.len(),
                same == (forall|j: int| 0 <= j < k ==> s@[i + j] == #[trigger] p@[j]),
            decreases m - k,
        {
            if s.get_char(i + k) != p.get_char(k) {
                same = false;
            }
            k = k + 1;
        }
        if same {
            assert(s@.subrange(i as int, i + m) =~= p@);
            return true;
        }
        proof {
            let j = choose|j: int| 0 <= j < m && s@[i + j] != #[trigger] p@[j];
            assert(s@.subrange(i as int, i + m)[j] != p@[j]);
        }
        i = i + 1;
    }
    proof {
        assert forall|j: int| 0 <= j && j + p@.len() <= s@.len() implies #[trigger] s@.subrange(
            j,
            j + p@.len(),
        ) != p@ by {
            assert(j < i);
        }
    }
    false
}

/// Whether the two strings hold the same characters.
pub fn str_eq(a: &str, b: &str) -> (r: bool)
    ensures
        r == (a@ == b@),
{
    let n = a.unicode_len();
    if n != b.unicode_len() {
        return false;
    }
    let mut i: usize = 0;
    while i < n
        invariant
            0 <= i <= n,
            n == a@.len(),
            n == b@.len(),
            forall|j: int| 0 <= j < i ==> a@[j] == b@[j],
        decreases n - i,
    {
        if a.get_char(i) != b.get_char(i) {
            return false;
        }
        i = i + 1;
    }
    assert(a@ =~= b@);
    true
}

/// Whether `c` is an ASCII digit.
pub open spec fn is_digit(c: char) -> bool {
    '0' <= c <= '9'
}

/// The value of a digit.
pub open spec fn digit_value(c: char) -> int {
    c as int - '0' as int
}

/// The value of a string of digits, most significant first.
pub open spec fn digits_value(d: Seq<char>) -> int
    decreases d.len(),
{
    if d.len() == 0 {
        0
    } else {
        10 * digits_value(d.drop_last()) + digit_value(d.last())
    }
}

/// `s` without a leading `+`.
pub open spec fn unsigned_part(s: Seq<char>) -> Seq<char> {
    if s.len() > 0 && s[0] == '+' {
        s.drop_first()
    } else {
        s
    }
}

/// Whether every character is a digit.
pub open spec fn all_digits(d: Seq<char>) -> bool {
    forall|i: int| 0 <= i < d.len() ==> #[trigger] is_digit(d[i])
}

/// What `u32::from_str` accepts: an optional `+`, then at least one digit, of
/// value at most `u32::MAX`.
pub open spec fn spec_parse_u32(s: Seq<char>) -> Option<u32> {
    let d = unsigned_part(s);
    if d.len() == 0 || !all_digits(d) {
        None
    } else if digits_value(d) > u32::MAX {
        None
    } else {
        Some(digits_value(d) as u32)
    }
}

proof fn lemma_digits_value_nonneg(d: Seq<char>)
    requires
        forall|i: int| 0 <= i < d.len() ==> #[trigger] is_digit(d[i]),
    ensures
        digits_value(d) >= 0,
    decreases d.len(),
{
    if d.len() > 0 {
        assert(is_digit(d[d.len() - 1]));
        assert forall|i: int| 0 <= i < d.drop_last().len() implies #[trigger] is_digit(
            d.drop_last()[i],
        ) by {
            assert(is_digit(d[i]));
        }
        lemma_digits_value_nonneg(d.drop_last());
    }
}

proof fn lemma_digits_value_monotone(d: Seq<char>, k: int)
    requires
        0 <= k <= d.len(),
        forall|i: int| 0 <= i < d.len() ==> #[trigger] is_digit(d[i]),
    ensures
        digits_value(d.take(k)) <= digits_value(d),
    decreases d.len(),
{
    if k < d.len() {
        assert(d.drop_last().take(k) =~= d.take(k));
        assert(is_digit(d[d.len() - 1]));
        assert forall|i: int| 0 <= i < d.drop_last().len() implies #[trigger] is_digit(
            d.drop_last()[i],
        ) by {
            assert(is_digit(d[i]));
        }
        lemma_digits_value_monotone(d.drop_last(), k);
        lemma_digits_value_nonneg(d.drop_last());
    } else {
        assert(d.take(k) =~= d);
    }
}

/// Parses a decimal `u32` as `u32::from_str` does.
pub fn parse_u32(s: &str) -> (r: Option<u32>)
    ensures
        r == spec_parse_u32(s@),
{
    let n = s.unicode_len();
    let mut first: usize = 0;
    if n > 0 && s.get_char(0) == '+' {
        first = 1;
    }
    let ghost d = unsigned_part(s@);
    assert(d =~= s@.subrange(first as int, n as int));
    if first == n {
        return None;
    }
    let mut i: usize = first;
    while i < n
        invariant
            first <= i <= n,
            n == s@.len(),
            d == s@.subrange(first as int, n as int),
            d == unsigned_part(s@),
            forall|j: int| 0 <= j < i - first ==> #[trigger] is_digit(d[j]),
        decreases n - i,
    {
        let ch = s.get_char(i);
        assert(ch == d[i - first]);
        if !('0' <= ch && ch <= '9') {
            assert(!is_digit(d[i - first]));
            return None;
        }
        i = i + 1;
    }
    let mut value: u64 = 0;
    let mut i: usize = first;
    while i < n
        invariant
            first <= i <= n,
            n == s@.len(),
            d == s@.subrange(first as int, n as int),
            d == unsigned_part(s@),
            forall|j: int| 0 <= j < d.len() ==> #[trigger] is_digit(d[j]),
            value == digits_value(d.take(i - first)),
            value <= u32::MAX,
        decreases n - i,
    {
        let ch = s.get_char(i);
        assert(ch == d[i - first]);
        assert(is_digit(d[i - first]));
        let digit = (ch as u32 - '0' as u32) as u64;
        let next = value * 10 + digit;
        proof {
            assert(d.take(i - first + 1).drop_last() =~= d.take(i - first));
            assert(d.take(i - first + 1).last() == ch);
            assert(next == digits_value(d.take(i - first + 1)));
        }
        if next > 4294967295u64 {
            proof {
                lemma_digits_value_monotone(d, i - first + 1);
            }
            return None;
        }
        value = next;
        i = i + 1;
    }
    proof {
        assert(d.take(n - first) =~= d);
    }
    Some(value as u32)
}

/// The decimal digits of `n`, most significant first, without leading zeros.
pub open spec fn decimal_chars(n: nat) -> Seq<char>
    decreases n,
{
    if n < 10 {
        seq![digit_char(n)]
    } else {
        decimal_chars(n / 10).push(digit_char(n % 10))
    }
}

/// The character of a digit.
pub open spec fn digit_char(d: nat) -> char {
    ((d + '0' as nat) as u32) as char
}

/// Decimal text is digits, at least one, of value the number.
pub proof fn lemma_decimal_chars(n: nat)
    ensures
        decimal_chars(n).len() >= 1,
        all_digits(decimal_chars(n)),
        digits_value(decimal_chars(n)) == n,
    decreases n,
{
    let d = (n % 10) as nat;
    assert(((d + '0' as nat) as u32) as char as int == d + 48);
    assert(digit_value(digit_char(d)) == d);
    assert(decimal_chars(n).last() == digit_char(d));
    assert(digits_value(decimal_chars(n)) == 10 * digits_value(decimal_chars(n).drop_last())
        + digit_value(decimal_chars(n).last()));
    if n < 10 {
        assert(decimal_chars(n).drop_last() =~= Seq::<char>::empty());
        assert(digits_value(Seq::<char>::empty()) == 0);
    } else {
        lemma_decimal_chars(n / 10);
        let p = decimal_chars(n / 10);
        assert(decimal_chars(n).drop_last() =~= p);
        assert(n == 10 * (n / 10) + d);
        assert forall|i: int| 0 <= i < decimal_chars(n).len() implies #[trigger] is_digit(
            decimal_chars(n)[i],
        ) by {
            if i < p.len() {
                assert(decimal_chars(n)[i] == p[i]);
            }
        }
    }
}

/// Reading the decimal text of a number gives the number back.
pub proof fn lemma_decimal_chars_parse(n: u32)
    ensures
        spec_parse_u32(decimal_chars(n as nat)) == Some(n),
{
    lemma_decimal_chars(n as nat);
    let d = decimal_chars(n as nat);
    assert(is_digit(d[0]));
    assert(unsigned_part(d) == d);
}

/// `n` in decimal, as `u32`'s `Display` writes it.
pub fn u32_to_string(n: u32) -> (r: String)
    ensures
        r@ == decimal_chars(n as nat),
    decreases n,
{
    let digits = "0123456789";
    proof {
        reveal_strlit("0123456789");
    }
    let d = (n % 10) as usize;
    let c = digits.substring_char(d, d + 1);
    proof {
        assert(c@ =~= seq![digit_char(d as nat)]);
    }
    if n < 10 {
        String::from_str(c)
    } else {
        let mut s = u32_to_string(n / 10);
        s.append(c);
        s
    }
}

/// `s` with its ASCII capitals made small.
pub open spec fn ascii_lowercase(s: Seq<char>) -> Seq<char> {
    s.map_values(
        |c: char|
            if 'A' <= c <= 'Z' {
                ((c as u32) + 32) as char
            } else {
                c
            },
    )
}

/// What `str::to_lowercase` gives for a string: it depends on the string alone.
pub uninterp spec fn lowercase_of(s: Seq<char>) -> Seq<char>;

/// `str::to_lowercase`: the string lowercased by the Unicode lowercase mapping.
/// The claim is that the result depends on the characters alone, and that an
/// ASCII string only has its capitals A-Z made small.
#[verifier::external_body]
pub(crate) fn to_lowercase(s: &str) -> (r: String)
    ensures
        r@ == lowercase_of(s@),
        is_ascii_chars(s@) ==> r@ == ascii_lowercase(s@),
{
    s.to_lowercase()
}

/// `std::str::from_utf8`: the bytes as a string when they are valid UTF-8.
/// The claim is that it succeeds exactly on valid UTF-8, and that the string
/// holds the bytes.
#[verifier::external_body]
pub(crate) fn str_from_utf8(b: &[u8]) -> (r: Option<&str>)
    ensures
        r is Some <==> vstd::utf8::valid_utf8(b@),
        r matches Some(t) ==> t@ == vstd::utf8::decode_utf8(b@),
{
    std::str::from_utf8(b).ok()
}

} // verus!
