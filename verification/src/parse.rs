//! Trimming and decimal parsing with the meaning that `str::trim` and
//! `str::parse` give them for unsigned integers.
use vstd::prelude::*;

use crate::text::{dec, digit_char, lemma_digit_char, slice_to_string, str_chars};

verus! {

/// Characters with the Unicode `White_Space` property (`char::is_whitespace`).
pub open spec fn is_ws(c: char) -> bool {
    let u = c as u32;
    (0x9 <= u <= 0xd) || u == 0x20 || u == 0x85 || u == 0xa0 || u == 0x1680 || (0x2000 <= u
        <= 0x200a) || u == 0x2028 || u == 0x2029 || u == 0x202f || u == 0x205f || u == 0x3000
}

/// `char::is_whitespace`.
pub fn is_whitespace(c: char) -> (res: bool)
    ensures
        res == is_ws(c),
{
    let u = c as u32;
    (0x9 <= u && u <= 0xd) || u == 0x20 || u == 0x85 || u == 0xa0 || u == 0x1680 || (0x2000 <= u
        && u <= 0x200a) || u == 0x2028 || u == 0x2029 || u == 0x202f || u == 0x205f || u == 0x3000
}

/// `s` without leading whitespace.
pub open spec fn trim_start_spec(s: Seq<char>) -> Seq<char>
    decreases s.len(),
{
    if s.len() > 0 && is_ws(s[0]) {
        trim_start_spec(s.drop_first())
    } else {
        s
    }
}

/// `s` without trailing whitespace.
pub open spec fn trim_end_spec(s: Seq<char>) -> Seq<char>
    decreases s.len(),
{
    if s.len() > 0 && is_ws(s.last()) {
        trim_end_spec(s.drop_last())
    } else {
        s
    }
}

/// `s` without leading and trailing whitespace (`str::trim`).
pub open spec fn trim_spec(s: Seq<char>) -> Seq<char> {
    trim_end_spec(trim_start_spec(s))
}

/// Position of the first non-whitespace character at or after `from`.
fn skip_ws(s: &[char], from: usize) -> (res: usize)
    requires
        from <= s@.len(),
    ensures
        from <= res <= s@.len(),
        trim_start_spec(s@.skip(from as int)) == s@.skip(res as int),
{
    let mut i = from;
    while i < s.len() && is_whitespace(s[i])
        invariant
            from <= i <= s@.len(),
            trim_start_spec(s@.skip(from as int)) == trim_start_spec(s@.skip(i as int)),
        decreases s@.len() - i,
    {
        assert(s@.skip(i as int).drop_first() =~= s@.skip(i + 1));
        i = i + 1;
    }
    i
}

/// End of `s[..to]` without trailing whitespace.
fn skip_ws_back(s: &[char], to: usize) -> (res: usize)
    requires
        to <= s@.len(),
    ensures
        res <= to,
        trim_end_spec(s@.take(to as int)) == s@.take(res as int),
{
    let mut j = to;
    while j > 0 && is_whitespace(s[j - 1])
        invariant
            j <= to <= s@.len(),
            trim_end_spec(s@.take(to as int)) == trim_end_spec(s@.take(j as int)),
        decreases j,
    {
        assert(s@.take(j as int).drop_last() =~= s@.take(j - 1));
        j = j - 1;
    }
    j
}

proof fn lemma_trim_end_take(s: Seq<char>, n: int)
    requires
        0 <= n <= s.len(),
    ensures
        trim_end_spec(s.take(n)).len() <= n,
    decreases n,
{
    if n > 0 && is_ws(s.take(n).last()) {
        assert(s.take(n).drop_last() =~= s.take(n - 1));
        lemma_trim_end_take(s, n - 1);
    }
}

proof fn lemma_trim_start_at(s: Seq<char>) -> (a: int)
    ensures
        0 <= a <= s.len(),
        trim_start_spec(s) == s.skip(a),
        forall|k: int| 0 <= k < a ==> is_ws(#[trigger] s[k]),
        a < s.len() ==> !is_ws(s[a]),
    decreases s.len(),
{
    if s.len() > 0 && is_ws(s[0]) {
        let a1 = lemma_trim_start_at(s.drop_first());
        assert(s.drop_first().skip(a1) =~= s.skip(a1 + 1));
        assert forall|k: int| 0 <= k < a1 + 1 implies is_ws(#[trigger] s[k]) by {
            if k > 0 {
                assert(s[k] == s.drop_first()[k - 1]);
            }
        }
        a1 + 1
    } else {
        assert(s.skip(0) =~= s);
        0
    }
}

proof fn lemma_trim_end_at(s: Seq<char>) -> (b: int)
    ensures
        0 <= b <= s.len(),
        trim_end_spec(s) == s.take(b),
        forall|k: int| b <= k < s.len() ==> is_ws(#[trigger] s[k]),
        b > 0 ==> !is_ws(s[b - 1]),
    decreases s.len(),
{
    if s.len() > 0 && is_ws(s.last()) {
        let b1 = lemma_trim_end_at(s.drop_last());
        assert(s.drop_last().take(b1) =~= s.take(b1));
        assert forall|k: int| b1 <= k < s.len() implies is_ws(#[trigger] s[k]) by {
            if k < s.len() - 1 {
                assert(s[k] == s.drop_last()[k]);
            }
        }
        b1
    } else {
        assert(s.take(s.len() as int) =~= s);
        s.len() as int
    }
}

/// Trimming cuts a run of whitespace off each end and nothing else: the
/// result is the slice `s[a..b]`, everything before `a` and from `b` on is
/// whitespace, and a non-empty result starts and ends with a character that
/// is not whitespace.
pub proof fn trim_law(s: Seq<char>)
    ensures
        exists|a: int, b: int|
            #![trigger s.subrange(a, b)]
            {
                &&& 0 <= a <= b <= s.len()
                &&& trim_spec(s) == s.subrange(a, b)
                &&& forall|k: int| 0 <= k < a ==> is_ws(#[trigger] s[k])
                &&& forall|k: int| b <= k < s.len() ==> is_ws(#[trigger] s[k])
                &&& a < b ==> !is_ws(s[a]) && !is_ws(s[b - 1])
            },
{
    let a = lemma_trim_start_at(s);
    let t = s.skip(a);
    let n = lemma_trim_end_at(t);
    let b = a + n;
    assert(t.take(n) =~= s.subrange(a, b));
    assert forall|k: int| b <= k < s.len() implies is_ws(#[trigger] s[k]) by {
        assert(s[k] == t[k - a]);
    }
    if a < b {
        assert(s[b - 1] == t[n - 1]);
    }
    assert(s.subrange(a, b) == s.subrange(a, b));
}

/// `str::trim`: the slice without leading and trailing whitespace.
pub fn trim(s: &str) -> (res: String)
    ensures
        res@ == trim_spec(s@),
{
    let chars = str_chars(s);
    let start = skip_ws(chars.as_slice(), 0);
    assert(chars@.skip(0) =~= chars@);
    let rest = slice_to_string(chars.as_slice(), start, chars.len());
    let rest_chars = str_chars(rest.as_str());
    assert(rest@ =~= chars@.skip(start as int));
    let end = skip_ws_back(rest_chars.as_slice(), rest_chars.len());
    assert(rest_chars@.take(rest_chars@.len() as int) =~= rest_chars@);
    slice_to_string(rest_chars.as_slice(), 0, end)
}

/// `str::trim_start`.
pub fn trim_start(s: &str) -> (res: String)
    ensures
        res@ == trim_start_spec(s@),
{
    let chars = str_chars(s);
    let start = skip_ws(chars.as_slice(), 0);
    assert(chars@.skip(0) =~= chars@);
    let res = slice_to_string(chars.as_slice(), start, chars.len());
    assert(res@ =~= chars@.skip(start as int));
    res
}

/// An ASCII decimal digit.
pub open spec fn is_digit(c: char) -> bool {
    '0' <= c <= '9'
}

/// The value of a string of decimal digits.
pub open spec fn digits_value(d: Seq<char>) -> nat
    decreases d.len(),
{
    if d.len() == 0 {
        0
    } else {
        digits_value(d.drop_last()) * 10 + ((d.last() as u32) - 48) as nat
    }
}

/// What `str::parse` gives for an unsigned integer type whose maximum is
/// `max`: an optional `+`, then one or more ASCII digits, the value at most
/// `max`; anything else is an error (`None`).
pub open spec fn parse_uint_spec(s: Seq<char>, max: nat) -> Option<nat> {
    let d = unsigned_digits(s);
    if d.len() > 0 && all_digits(d) && digits_value(d) <= max {
        Some(digits_value(d))
    } else {
        None
    }
}

/// The text after an optional leading `+`.
pub open spec fn unsigned_digits(s: Seq<char>) -> Seq<char> {
    if s.len() > 0 && s[0] == '+' {
        s.drop_first()
    } else {
        s
    }
}

/// Every character is an ASCII digit.
pub open spec fn all_digits(d: Seq<char>) -> bool {
    forall|i: int| 0 <= i < d.len() ==> is_digit(#[trigger] d[i])
}

proof fn lemma_digits_value_mono(d: Seq<char>, n: int)
    requires
        0 <= n <= d.len(),
        forall|i: int| 0 <= i < d.len() ==> is_digit(#[trigger] d[i]),
    ensures
        digits_value(d.take(n)) <= digits_value(d),
    decreases d.len() - n,
{
    if n < d.len() {
        lemma_digits_value_mono(d, n + 1);
        assert(d.take(n + 1).drop_last() =~= d.take(n));
        assert(is_digit(d[n]));
    } else {
        assert(d.take(n) =~= d);
    }
}

proof fn lemma_dec_digits(n: nat)
    ensures
        dec(n).len() >= 1,
        all_digits(dec(n)),
        dec(n)[0] != '0' || n == 0,
        digits_value(dec(n)) == n,
    decreases n,
{
    if n < 10 {
        lemma_digit_char(n as int);
        assert(dec(n).drop_last() =~= Seq::<char>::empty());
        assert(dec(n)[0] as int == '0' as int + n);
        assert(digits_value(dec(n).drop_last()) == 0);
    } else {
        lemma_dec_digits(n / 10);
        lemma_digit_char((n % 10) as int);
        let d = dec(n);
        assert(d.drop_last() =~= dec(n / 10));
        assert(d[0] == dec(n / 10)[0]);
        assert(n / 10 != 0);
        assert(d.last() == digit_char((n % 10) as int));
        assert(digits_value(d) == digits_value(dec(n / 10)) * 10 + (n % 10));
        assert forall|k: int| 0 <= k < d.len() implies is_digit(#[trigger] d[k]) by {
            if k < d.len() - 1 {
                assert(d[k] == dec(n / 10)[k]);
            }
        }
    }
}

/// Decimal notation reads back: it is one or more ASCII digits with no
/// leading zero (but for zero itself), and parsing it as an unsigned
/// integer whose maximum is at least `n` gives `n`.
pub proof fn dec_parse_roundtrip(n: nat, max: nat)
    requires
        n <= max,
    ensures
        dec(n).len() >= 1,
        all_digits(dec(n)),
        dec(n)[0] != '0' || n == 0,
        parse_uint_spec(dec(n), max) == Some(n),
{
    lemma_dec_digits(n);
    assert(is_digit(dec(n)[0]));
    assert(unsigned_digits(dec(n)) == dec(n));
}

/// `s.parse::<u128>()`, as an option.
pub fn parse_u128(s: &str) -> (res: Option<u128>)
    ensures
        match res {
            Some(v) => parse_uint_spec(s@, u128::MAX as nat) == Some(v as nat),
            None => parse_uint_spec(s@, u128::MAX as nat) is None,
        },
{
    let chars = str_chars(s);
    let start: usize = if chars.len() > 0 && chars[0] == '+' { 1 } else { 0 };
    let ghost d = unsigned_digits(s@);
    assert(d =~= chars@.skip(start as int));
    if start == chars.len() {
        return None;
    }
    let mut value: u128 = 0;
    let mut i: usize = start;
    while i < chars.len()
        invariant
            start <= i <= chars@.len(),
            chars@ == s@,
            d == unsigned_digits(s@),
            d == chars@.skip(start as int),
            forall|k: int| 0 <= k < i - start ==> is_digit(#[trigger] d[k]),
            value as nat == digits_value(d.take(i - start)),
        decreases chars@.len() - i,
    {
        let c = chars[i];
        assert(d[i - start] == c);
        if !('0' <= c && c <= '9') {
            assert(!is_digit(d[i - start]));
            assert(!all_digits(d));
            return None;
        }
        let digit = (c as u32 - 48) as u128;
        assert(d.take(i - start + 1).drop_last() =~= d.take(i - start));
        match value.checked_mul(10) {
            Some(m) => match m.checked_add(digit) {
                Some(v) => {
                    value = v;
                },
                None => {
                    proof { lemma_overflow_stays(d, i - start + 1); }
                    return None;
                },
            },
            None => {
                proof { lemma_overflow_stays(d, i - start + 1); }
                return None;
            },
        }
        i = i + 1;
    }
    assert(d.take(d.len() as int) =~= d);
    Some(value)
}

proof fn lemma_overflow_stays(d: Seq<char>, n: int)
    requires
        0 < n <= d.len(),
        forall|k: int| 0 <= k < n ==> is_digit(#[trigger] d[k]),
        digits_value(d.take(n)) > u128::MAX,
    ensures
        !(all_digits(d) && digits_value(d) <= u128::MAX),
{
    if all_digits(d) {
        lemma_digits_value_mono(d, n);
    }
}

/// `s.parse::<usize>()`, as an option.
pub fn parse_usize(s: &str) -> (res: Option<usize>)
    ensures
        match res {
            Some(v) => parse_uint_spec(s@, usize::MAX as nat) == Some(v as nat),
            None => parse_uint_spec(s@, usize::MAX as nat) is None,
        },
{
    match parse_u128(s) {
        Some(v) => {
            if v <= usize::MAX as u128 {
                Some(v as usize)
            } else {
                None
            }
        },
        None => {
            None
        },
    }
}

/// `s.parse::<u64>()`, as an option.
pub fn parse_u64(s: &str) -> (res: Option<u64>)
    ensures
        match res {
            Some(v) => parse_uint_spec(s@, u64::MAX as nat) == Some(v as nat),
            None => parse_uint_spec(s@, u64::MAX as nat) is None,
        },
{
    match parse_u128(s) {
        Some(v) => {
            if v <= u64::MAX as u128 {
                Some(v as u64)
            } else {
                None
            }
        },
        None => None,
    }
}

} // verus!
