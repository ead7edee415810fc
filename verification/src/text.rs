//! Character-level helpers on strings, each with the statement it meets.

use vstd::prelude::*;
use vstd::string::StringExecFns;

verus! {

/// Unicode `White_Space`: the characters `str::trim` strips.
pub open spec fn is_white_space(c: char) -> bool {
    let n = c as u32;
    ||| 0x9 <= n <= 0xD
    ||| n == 0x20
    ||| n == 0x85
    ||| n == 0xA0
    ||| n == 0x1680
    ||| 0x2000 <= n <= 0x200A
    ||| n == 0x2028
    ||| n == 0x2029
    ||| n == 0x202F
    ||| n == 0x205F
    ||| n == 0x3000
}

pub fn is_white_space_char(c: char) -> (r: bool)
    ensures
        r == is_white_space(c),
{
    let n = c as u32;
    (0x9 <= n && n <= 0xD) || n == 0x20 || n == 0x85 || n == 0xA0 || n == 0x1680 || (0x2000 <= n
        && n <= 0x200A) || n == 0x2028 || n == 0x2029 || n == 0x202F || n == 0x205F || n == 0x3000
}

/// Index of the first character at or after `i` that is not white space (or the length).
pub open spec fn first_non_ws_from(s: Seq<char>, i: int) -> int
    decreases s.len() - i,
{
    if i >= s.len() || i < 0 {
        s.len() as int
    } else if !is_white_space(s[i]) {
        i
    } else {
        first_non_ws_from(s, i + 1)
    }
}

/// End of `s[lo..j]` once white space at its end is dropped.
pub open spec fn last_non_ws_end(s: Seq<char>, lo: int, j: int) -> int
    decreases j - lo,
{
    if j <= lo {
        lo
    } else if !is_white_space(s[j - 1]) {
        j
    } else {
        last_non_ws_end(s, lo, j - 1)
    }
}

/// What `str::trim` gives back: `s` without white space at either end.
pub open spec fn trim(s: Seq<char>) -> Seq<char> {
    let lo = first_non_ws_from(s, 0);
    s.subrange(lo, last_non_ws_end(s, lo, s.len() as int))
}

/// `c`, lowercased, is the character `t`, for a `t` that is ASCII and not an
/// uppercase letter.  Besides `t` itself only its ASCII capital has that
/// lowercase, and for `k` also U+212A KELVIN SIGN.
pub open spec fn lowers_to(c: char, t: char) -> bool {
    ||| c == t
    ||| ('a' <= t <= 'z' && c as u32 + 32 == t as u32)
    ||| (t == 'k' && c as u32 == 0x212A)
}

/// `s.to_lowercase() == t` for a `t` made of ASCII characters that are not capitals.
pub open spec fn eq_ignore_case(s: Seq<char>, t: Seq<char>) -> bool {
    &&& s.len() == t.len()
    &&& forall|i: int| 0 <= i < s.len() ==> lowers_to(#[trigger] s[i], t[i])
}

pub fn char_lowers_to(c: char, t: char) -> (r: bool)
    ensures
        r == lowers_to(c, t),
{
    let cn = c as u32;
    let tn = t as u32;
    c == t || ('a' <= t && t <= 'z' && cn + 32 == tn) || (t == 'k' && cn == 0x212A)
}

/// Bounds of `s` once white space is dropped at both ends.
pub fn trim_bounds(s: &str) -> (r: (usize, usize))
    ensures
        r.0 == first_non_ws_from(s@, 0),
        r.1 == last_non_ws_end(s@, r.0 as int, s@.len() as int),
        r.0 <= r.1 <= s@.len(),
        s@.subrange(r.0 as int, r.1 as int) == trim(s@),
{
    let n = s.unicode_len();
    let mut i: usize = 0;
    while i < n && is_white_space_char(s.get_char(i))
        invariant
            n == s@.len(),
            i <= n,
            first_non_ws_from(s@, i as int) == first_non_ws_from(s@, 0),
        decreases n - i,
    {
        i = i + 1;
    }
    let mut j: usize = n;
    while j > i && is_white_space_char(s.get_char(j - 1))
        invariant
            n == s@.len(),
            i <= j <= n,
            i == first_non_ws_from(s@, 0),
            last_non_ws_end(s@, i as int, j as int) == last_non_ws_end(s@, i as int, n as int),
        decreases j - i,
    {
        j = j - 1;
    }
    (i, j)
}

/// Whether `s[lo..hi]`, lowercased, is `t` (see `eq_ignore_case`).
pub fn range_eq_ignore_case(s: &str, lo: usize, hi: usize, t: &str) -> (r: bool)
    requires
        lo <= hi <= s@.len(),
    ensures
        r == eq_ignore_case(s@.subrange(lo as int, hi as int), t@),
{
    let tn = t.unicode_len();
    if hi - lo != tn {
        return false;
    }
    let mut k: usize = 0;
    while k < tn
        invariant
            tn == t@.len(),
            hi - lo == tn,
            lo <= hi <= s@.len(),
            k <= tn,
            forall|i: int| 0 <= i < k ==> lowers_to(s@[lo + i], t@[i]),
        decreases tn - k,
    {
        if !char_lowers_to(s.get_char(lo + k), t.get_char(k)) {
            assert(!lowers_to(s@.subrange(lo as int, hi as int)[k as int], t@[k as int]));
            return false;
        }
        k = k + 1;
    }
    assert forall|i: int| 0 <= i < s@.subrange(lo as int, hi as int).len() implies lowers_to(
        #[trigger] s@.subrange(lo as int, hi as int)[i],
        t@[i],
    ) by {
        assert(s@.subrange(lo as int, hi as int)[i] == s@[lo + i]);
    }
    true
}

/// Whether `s.to_lowercase() == t`, for a `t` without ASCII capitals.
pub fn str_eq_ignore_case(s: &str, t: &str) -> (r: bool)
    ensures
        r == eq_ignore_case(s@, t@),
{
    let n = s.unicode_len();
    let r = range_eq_ignore_case(s, 0, n, t);
    assert(s@.subrange(0, n as int) =~= s@);
    r
}

/// Character-wise equality of two string slices.
pub fn str_eq(a: &str, b: &str) -> (r: bool)
    ensures
        r == (a@ == b@),
{
    let n = a.unicode_len();
    if n != b.unicode_len() {
        return false;
    }
    let mut k: usize = 0;
    while k < n
        invariant
            n == a@.len(),
            n == b@.len(),
            k <= n,
            forall|i: int| 0 <= i < k ==> a@[i] == b@[i],
        decreases n - k,
    {
        if a.get_char(k) != b.get_char(k) {
            return false;
        }
        k = k + 1;
    }
    assert(a@ =~= b@);
    true
}

/// Whether `s` starts with `'-'`.
pub fn starts_with_dash(s: &str) -> (r: bool)
    ensures
        r == (s@.len() > 0 && s@[0] == '-'),
{
    let n = s.unicode_len();
    n > 0 && s.get_char(0) == '-'
}

} // verus!

verus! {

/// `parts` with `sep` between each two of them.
pub open spec fn join(parts: Seq<Seq<char>>, sep: Seq<char>) -> Seq<char>
    decreases parts.len(),
{
    if parts.len() == 0 {
        Seq::empty()
    } else if parts.len() == 1 {
        parts[0]
    } else {
        join(parts.drop_last(), sep) + sep + parts.last()
    }
}

/// The strings of `parts` with `sep` between each two of them.
pub fn join_strings(parts: &Vec<String>, sep: &str) -> (r: String)
    ensures
        r@ == join(parts.deep_view(), sep@),
{
    let mut r = String::new();
    let ghost all = parts.deep_view();
    let mut k: usize = 0;
    while k < parts.len()
        invariant
            all == parts.deep_view(),
            k <= parts.len(),
            r@ == join(all.take(k as int), sep@),
        decreases parts.len() - k,
    {
        assert(all.take(k + 1).drop_last() =~= all.take(k as int));
        assert(all.take(k + 1).last() == parts@[k as int]@);
        if k > 0 {
            r.append(sep);
        } else {
            assert(all.take(1) =~= seq![parts@[0]@]);
        }
        r.append(parts[k].as_str());
        k = k + 1;
    }
    assert(all.take(parts.len() as int) =~= all);
    r
}

/// Decimal digits of `n`, most significant first, without leading zeros.
pub open spec fn decimal(n: nat) -> Seq<char>
    decreases n,
{
    if n < 10 {
        seq![digit_char(n)]
    } else {
        decimal(n / 10).push(digit_char(n % 10))
    }
}

pub open spec fn digit_char(d: nat) -> char {
    if d == 0 { '0' }
    else if d == 1 { '1' }
    else if d == 2 { '2' }
    else if d == 3 { '3' }
    else if d == 4 { '4' }
    else if d == 5 { '5' }
    else if d == 6 { '6' }
    else if d == 7 { '7' }
    else if d == 8 { '8' }
    else { '9' }
}

/// The one-character text of decimal digit `d`.
fn digit_str(d: u64) -> (r: &'static str)
    requires
        d < 10,
    ensures
        r@ == seq![digit_char(d as nat)],
{
    proof {
        reveal_strlit("0");
        reveal_strlit("1");
        reveal_strlit("2");
        reveal_strlit("3");
        reveal_strlit("4");
        reveal_strlit("5");
        reveal_strlit("6");
        reveal_strlit("7");
        reveal_strlit("8");
        reveal_strlit("9");
    }
    if d == 0 { "0" }
    else if d == 1 { "1" }
    else if d == 2 { "2" }
    else if d == 3 { "3" }
    else if d == 4 { "4" }
    else if d == 5 { "5" }
    else if d == 6 { "6" }
    else if d == 7 { "7" }
    else if d == 8 { "8" }
    else { "9" }
}

/// The decimal digits of `n`, as `u64::to_string` writes them.
pub(crate) fn u64_to_string(n: u64) -> (r: String)
    ensures
        r@ == decimal(n as nat),
    decreases n,
{
    if n < 10 {
        String::from_str(digit_str(n))
    } else {
        let mut r = u64_to_string(n / 10);
        r.append(digit_str(n % 10));
        r
    }
}

/// The decimal digits of a `usize`.
pub fn usize_to_string(n: usize) -> (r: String)
    ensures
        r@ == decimal(n as nat),
{
    u64_to_string(n as u64)
}

/// `"true"` or `"false"`, as `Display` writes a `bool`.
pub open spec fn bool_text(b: bool) -> Seq<char> {
    if b { "true"@ } else { "false"@ }
}

pub fn bool_to_string(b: bool) -> (r: String)
    ensures
        r@ == bool_text(b),
{
    if b { String::from_str("true") } else { String::from_str("false") }
}

} // verus!

verus! {

pub open spec fn is_digit(c: char) -> bool {
    '0' <= c <= '9'
}

pub open spec fn digit_value(c: char) -> nat {
    (c as u32 - '0' as u32) as nat
}

pub open spec fn all_digits(s: Seq<char>) -> bool {
    forall|i: int| 0 <= i < s.len() ==> is_digit(#[trigger] s[i])
}

/// The number that a string of decimal digits writes (leading zeros allowed).
pub open spec fn digits_value(s: Seq<char>) -> nat
    decreases s.len(),
{
    if s.len() == 0 {
        0
    } else {
        digits_value(s.drop_last()) * 10 + digit_value(s.last())
    }
}

/// What `str::parse::<u64>` gives: an optional `+`, then at least one decimal
/// digit, for a number that fits in a `u64`.
pub open spec fn parse_u64_spec(s: Seq<char>) -> Option<u64> {
    let d = if s.len() > 0 && s[0] == '+' { s.drop_first() } else { s };
    if d.len() > 0 && all_digits(d) && digits_value(d) <= u64::MAX {
        Some(digits_value(d) as u64)
    } else {
        None
    }
}

/// `k` zeros.
pub open spec fn zeros(k: int) -> Seq<char> {
    Seq::new(if k < 0 { 0 } else { k as nat }, |i: int| '0')
}

/// `d` with zeros in front up to `w` characters, as `{:0w}` formats.
pub open spec fn zero_pad(d: Seq<char>, w: int) -> Seq<char> {
    zeros(w - d.len()) + d
}

pub proof fn lemma_digit_char(d: nat)
    requires
        d < 10,
    ensures
        is_digit(digit_char(d)),
        digit_value(digit_char(d)) == d,
{
}

/// The decimal digits of `n` are digits, at least one, and write `n`.
pub proof fn lemma_decimal(n: nat)
    ensures
        decimal(n).len() >= 1,
        all_digits(decimal(n)),
        digits_value(decimal(n)) == n,
    decreases n,
{
    if n < 10 {
        lemma_digit_char(n);
        let d = decimal(n);
        assert(d.drop_last() =~= Seq::<char>::empty());
        assert(digits_value(d.drop_last()) == 0);
        assert(d.last() == digit_char(n));
    } else {
        lemma_decimal(n / 10);
        lemma_digit_char(n % 10);
        let d = decimal(n);
        assert(d.drop_last() =~= decimal(n / 10));
        assert forall|i: int| 0 <= i < d.len() implies is_digit(#[trigger] d[i]) by {
            if i < d.len() - 1 {
                assert(d[i] == decimal(n / 10)[i]);
            }
        }
        assert(d.last() == digit_char(n % 10));
        assert(digits_value(d) == digits_value(decimal(n / 10)) * 10 + n % 10);
        assert((n / 10) * 10 + n % 10 == n);
    }
}

/// Zeros in front change nothing of the number.
pub proof fn lemma_leading_zeros(k: int, s: Seq<char>)
    requires
        all_digits(s),
    ensures
        all_digits(zeros(k) + s),
        digits_value(zeros(k) + s) == digits_value(s),
    decreases s.len(),
{
    let z = zeros(k);
    assert forall|i: int| 0 <= i < (z + s).len() implies is_digit(#[trigger] (z + s)[i]) by {
        if i >= z.len() {
            assert((z + s)[i] == s[i - z.len()]);
        }
    }
    if s.len() == 0 {
        assert(z + s =~= z);
        lemma_zeros_value(z.len() as int);
    } else {
        assert((z + s).drop_last() =~= z + s.drop_last());
        lemma_leading_zeros(k, s.drop_last());
    }
}

pub proof fn lemma_zeros_value(k: int)
    requires
        k >= 0,
    ensures
        digits_value(zeros(k)) == 0,
    decreases k,
{
    if k > 0 {
        assert(zeros(k).drop_last() =~= zeros(k - 1));
        lemma_zeros_value(k - 1);
    }
}

/// A prefix of a string of digits writes no larger a number.
pub proof fn lemma_prefix_value(s: Seq<char>, k: int)
    requires
        0 <= k <= s.len(),
    ensures
        digits_value(s.take(k)) <= digits_value(s),
    decreases s.len() - k,
{
    if k < s.len() {
        lemma_prefix_value(s, k + 1);
        assert(s.take(k + 1).drop_last() =~= s.take(k));
    } else {
        assert(s.take(k) =~= s);
    }
}

/// `n` zero-padded reads back as `n`.
pub proof fn lemma_parse_padded(n: u64, w: int)
    ensures
        parse_u64_spec(zero_pad(decimal(n as nat), w)) == Some(n),
{
    lemma_decimal(n as nat);
    lemma_leading_zeros(w - decimal(n as nat).len(), decimal(n as nat));
    let p = zero_pad(decimal(n as nat), w);
    assert(p.len() > 0);
    assert(is_digit(p[0]));
}

/// Parse a decimal `u64` as `str::parse::<u64>` does.
pub fn parse_u64(s: &str) -> (r: Option<u64>)
    ensures
        r == parse_u64_spec(s@),
{
    let n = s.unicode_len();
    let mut start: usize = 0;
    if n > 0 && s.get_char(0) == '+' {
        start = 1;
    }
    let ghost d = if s@.len() > 0 && s@[0] == '+' { s@.drop_first() } else { s@ };
    assert(d =~= s@.skip(start as int));
    if start == n {
        return None;
    }
    let mut v: u64 = 0;
    let mut k: usize = start;
    while k < n
        invariant
            n == s@.len(),
            start <= k <= n,
            d == s@.skip(start as int),
            d == (if s@.len() > 0 && s@[0] == '+' { s@.drop_first() } else { s@ }),
            d.len() > 0,
            all_digits(d.take(k - start)),
            v == digits_value(d.take(k - start)),
        decreases n - k,
    {
        let c = s.get_char(k);
        assert(d[k - start] == c);
        if !('0' <= c && c <= '9') {
            assert(!is_digit(d[(k - start) as int]));
            return None;
        }
        let dv = (c as u32 - '0' as u32) as u64;
        assert(d.take(k - start + 1).drop_last() =~= d.take(k - start));
        assert(d.take(k - start + 1).last() == c);
        if v > (u64::MAX - dv) / 10 {
            assert(v * 10 + dv > u64::MAX) by (nonlinear_arith)
                requires
                    v > (u64::MAX - dv) / 10,
                    dv <= 9,
            ;
            assert(digits_value(d.take(k - start + 1)) == v * 10 + dv);
            proof {
                if all_digits(d) {
                    lemma_prefix_value(d, k - start + 1);
                }
            }
            return None;
        }
        assert(v * 10 + dv <= u64::MAX) by (nonlinear_arith)
            requires
                v <= (u64::MAX - dv) / 10,
                dv <= 9,
        ;
        v = v * 10 + dv;
        assert forall|i: int| 0 <= i < d.take(k - start + 1).len() implies is_digit(
            #[trigger] d.take(k - start + 1)[i],
        ) by {
            if i < k - start {
                assert(d.take(k - start + 1)[i] == d.take(k - start)[i]);
            }
        }
        k = k + 1;
    }
    assert(d.take(n - start) =~= d);
    Some(v)
}

} // verus!

verus! {

/// Whether `needle` occurs in `hay` (the empty string occurs everywhere).
pub open spec fn contains_seq(hay: Seq<char>, needle: Seq<char>) -> bool {
    exists|i: int|
        0 <= i <= hay.len() - needle.len() && #[trigger] hay.subrange(i, i + needle.len()) == needle
}

/// Whether `needle` occurs in `hay` at `at`.
fn occurs_at(hay: &str, needle: &str, at: usize) -> (r: bool)
    requires
        at + needle@.len() <= hay@.len(),
        hay@.len() <= usize::MAX,
    ensures
        r == (hay@.subrange(at as int, at + needle@.len()) == needle@),
{
    let n = needle.unicode_len();
    let mut k: usize = 0;
    while k < n
        invariant
            n == needle@.len(),
            at + n <= hay@.len(),
            hay@.len() <= usize::MAX,
            k <= n,
            forall|j: int| 0 <= j < k ==> hay@[at + j] == needle@[j],
        decreases n - k,
    {
        if hay.get_char(at + k) != needle.get_char(k) {
            assert(hay@.subrange(at as int, at + n)[k as int] != needle@[k as int]);
            return false;
        }
        k = k + 1;
    }
    assert(hay@.subrange(at as int, at + n) =~= needle@);
    true
}

/// Whether `needle` occurs in `hay`, as `str::contains` with a `&str` pattern.
pub fn str_contains(hay: &str, needle: &str) -> (r: bool)
    ensures
        r == contains_seq(hay@, needle@),
{
    let h = hay.unicode_len();
    let n = needle.unicode_len();
    if n > h {
        return false;
    }
    if n == 0 {
        assert(hay@.subrange(0int, 0int + needle@.len()) =~= needle@);
        return true;
    }
    let mut i: usize = 0;
    while i <= h - n
        invariant
            h == hay@.len(),
            n == needle@.len(),
            0 < n <= h,
            i <= h - n + 1,
            forall|j: int| 0 <= j < i ==> #[trigger] hay@.subrange(j, j + n) != needle@,
        decreases h - n + 1 - i,
    {
        if occurs_at(hay, needle, i) {
            return true;
        }
        i = i + 1;
    }
    false
}

} // verus!

verus! {

/// Whether `v` holds a string equal to `s`.
pub fn vec_contains_str(v: &Vec<String>, s: &str) -> (r: bool)
    ensures
        r == v.deep_view().contains(s@),
{
    let mut k: usize = 0;
    while k < v.len()
        invariant
            k <= v.len(),
            forall|i: int| 0 <= i < k ==> v.deep_view()[i] != s@,
        decreases v.len() - k,
    {
        if str_eq(v[k].as_str(), s) {
            assert(v.deep_view()[k as int] == s@);
            return true;
        }
        k = k + 1;
    }
    false
}

} // verus!

verus! {

/// What `str::to_lowercase` gives for a string: full Unicode lowercasing.
pub uninterp spec fn lowercase(s: Seq<char>) -> Seq<char>;

/// `str::to_lowercase`.  Its result is named, not stated: it depends on the
/// argument alone (Unicode case mapping, no locale).
#[verifier::external_body]
pub(crate) fn to_lowercase(s: &str) -> (r: String)
    ensures
        r@ == lowercase(s@),
{
    s.to_lowercase()
}

} // verus!
