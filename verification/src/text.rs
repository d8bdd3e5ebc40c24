//! Character-level string helpers shared by the rest of the library:
//! building strings, decimal and hexadecimal notation.
use vstd::prelude::*;
use vstd::string::StringExecFns;

verus! {

/// Appends one character to a string (`String::push`).
#[verifier::external_body]
pub(crate) fn push_char(s: &mut String, c: char)
    ensures
        final(s)@ == old(s)@.push(c),
{
    s.push(c);
}

/// Appends a string slice to a string.
pub fn push_str(s: &mut String, t: &str)
    ensures
        final(s)@ == old(s)@ + t@,
{
    s.append(t);
}

/// The characters of a string slice, in order.
pub fn str_chars(s: &str) -> (v: Vec<char>)
    ensures
        v@ == s@,
{
    let mut v: Vec<char> = Vec::new();
    for c in it: s.chars()
        invariant
            v@ == it.seq().take(it.index() as int),
    {
        v.push(c);
    }
    v
}

/// A string holding the given characters.
pub fn chars_to_string(v: &[char]) -> (s: String)
    ensures
        s@ == v@,
{
    let mut s = String::new();
    let mut i: usize = 0;
    while i < v.len()
        invariant
            i <= v@.len(),
            s@ == v@.take(i as int),
        decreases v@.len() - i,
    {
        push_char(&mut s, v[i]);
        i = i + 1;
        assert(s@ =~= v@.take(i as int));
    }
    assert(v@.take(v@.len() as int) =~= v@);
    s
}

/// Lowercase hexadecimal digits; the first ten are the decimal digits.
pub const HEX_DIGITS: [char; 16] = [
    '0', '1', '2', '3', '4', '5', '6', '7', '8', '9', 'a', 'b', 'c', 'd', 'e', 'f',
];

/// The ASCII digit for a value below ten.
pub open spec fn digit_char(d: int) -> char
    recommends
        0 <= d < 10,
{
    HEX_DIGITS@[d]
}

/// Decimal notation of a natural number, without leading zeros.
pub open spec fn dec(n: nat) -> Seq<char>
    decreases n,
{
    if n < 10 {
        seq![digit_char(n as int)]
    } else {
        dec(n / 10).push(digit_char((n % 10) as int))
    }
}

/// Decimal notation of an integer, with a leading `-` when negative.
pub open spec fn dec_signed(n: int) -> Seq<char> {
    if n < 0 {
        seq!['-'] + dec((-n) as nat)
    } else {
        dec(n as nat)
    }
}

pub(crate) proof fn lemma_digit_char(d: int)
    requires
        0 <= d < 10,
    ensures
        digit_char(d) as int == '0' as int + d,
{
    assert(HEX_DIGITS@[0] == '0' && HEX_DIGITS@[1] == '1' && HEX_DIGITS@[2] == '2');
    assert(HEX_DIGITS@[3] == '3' && HEX_DIGITS@[4] == '4' && HEX_DIGITS@[5] == '5');
    assert(HEX_DIGITS@[6] == '6' && HEX_DIGITS@[7] == '7' && HEX_DIGITS@[8] == '8');
    assert(HEX_DIGITS@[9] == '9');
}

proof fn lemma_dec_nonempty(n: nat)
    ensures
        dec(n).len() >= 1,
    decreases n,
{
    if n >= 10 {
        lemma_dec_nonempty(n / 10);
    }
}

fn digit(d: u64) -> (c: char)
    requires
        d < 10,
    ensures
        c == digit_char(d as int),
{
    HEX_DIGITS[d as usize]
}

/// `n.to_string()` for unsigned integers: its decimal notation.
pub fn u64_to_string(n: u64) -> (s: String)
    ensures
        s@ == dec(n as nat),
{
    // Collect the digits least significant first, then reverse.
    let mut rev: Vec<char> = Vec::new();
    let mut m: u64 = n;
    while m >= 10
        invariant
            dec(n as nat) == dec(m as nat) + rev@.reverse(),
        decreases m,
    {
        let d = digit(m % 10);
        let ghost old_rev = rev@;
        rev.push(d);
        assert(rev@.reverse() =~= seq![d] + old_rev.reverse());
        assert(dec(m as nat) == dec((m / 10) as nat).push(d));
        assert(dec(m as nat) + old_rev.reverse() =~= dec((m / 10) as nat) + rev@.reverse());
        m = m / 10;
    }
    let d = digit(m);
    let ghost old_rev = rev@;
    rev.push(d);
    assert(rev@.reverse() =~= seq![d] + old_rev.reverse());
    assert(dec(n as nat) =~= rev@.reverse());
    let mut out: Vec<char> = Vec::new();
    let mut i: usize = rev.len();
    while i > 0
        invariant
            i <= rev@.len(),
            out@ == rev@.reverse().take((rev@.len() - i) as int),
        decreases i,
    {
        i = i - 1;
        out.push(rev[i]);
        assert(out@ =~= rev@.reverse().take((rev@.len() - i) as int));
    }
    assert(out@ =~= rev@.reverse());
    chars_to_string(out.as_slice())
}

/// `n.to_string()` for signed integers.
pub fn i64_to_string(n: i64) -> (s: String)
    ensures
        s@ == dec_signed(n as int),
{
    if n < 0 {
        let mag: u64 = if n == i64::MIN {
            9223372036854775808u64
        } else {
            (-n) as u64
        };
        let digits = u64_to_string(mag);
        let mut s = String::new();
        push_char(&mut s, '-');
        push_str(&mut s, digits.as_str());
        s
    } else {
        u64_to_string(n as u64)
    }
}

/// Lowercase hexadecimal digit for a value below sixteen.
pub open spec fn hex_char(d: int) -> char
    recommends
        0 <= d < 16,
{
    HEX_DIGITS@[d]
}

/// Two lowercase hexadecimal digits per byte, most significant first
/// (what `{:02x}` writes for each byte).
pub open spec fn hex_lower_spec(bytes: Seq<u8>) -> Seq<char>
    decreases bytes.len(),
{
    if bytes.len() == 0 {
        Seq::empty()
    } else {
        seq![hex_char((bytes[0] / 16) as int), hex_char((bytes[0] % 16) as int)]
            + hex_lower_spec(bytes.drop_first())
    }
}

/// The value of a lowercase hexadecimal digit.
pub open spec fn hex_value(c: char) -> int {
    if '0' <= c <= '9' {
        c as int - '0' as int
    } else {
        c as int - 'a' as int + 10
    }
}

/// A lowercase hexadecimal digit.
pub open spec fn is_hex_lower(c: char) -> bool {
    ('0' <= c <= '9') || ('a' <= c <= 'f')
}

proof fn lemma_hex_char(d: int)
    requires
        0 <= d < 16,
    ensures
        is_hex_lower(hex_char(d)),
        hex_value(hex_char(d)) == d,
{
    assert(HEX_DIGITS@[0] == '0' && HEX_DIGITS@[1] == '1' && HEX_DIGITS@[2] == '2');
    assert(HEX_DIGITS@[3] == '3' && HEX_DIGITS@[4] == '4' && HEX_DIGITS@[5] == '5');
    assert(HEX_DIGITS@[6] == '6' && HEX_DIGITS@[7] == '7' && HEX_DIGITS@[8] == '8');
    assert(HEX_DIGITS@[9] == '9' && HEX_DIGITS@[10] == 'a' && HEX_DIGITS@[11] == 'b');
    assert(HEX_DIGITS@[12] == 'c' && HEX_DIGITS@[13] == 'd' && HEX_DIGITS@[14] == 'e');
    assert(HEX_DIGITS@[15] == 'f');
}

/// Lowercase hexadecimal notation takes two digits per byte, and the two
/// digits of byte `i`, high then low, give its value.
pub proof fn hex_lower_law(bytes: Seq<u8>)
    ensures
        hex_lower_spec(bytes).len() == 2 * bytes.len(),
        forall|k: int| 0 <= k < hex_lower_spec(bytes).len() ==> is_hex_lower(#[trigger] hex_lower_spec(bytes)[k]),
        forall|i: int|
            0 <= i < bytes.len() ==> 16 * hex_value(#[trigger] hex_lower_spec(bytes)[2 * i]) + hex_value(
                hex_lower_spec(bytes)[2 * i + 1],
            ) == bytes[i],
    decreases bytes.len(),
{
    if bytes.len() > 0 {
        let b = bytes[0];
        let rest = bytes.drop_first();
        hex_lower_law(rest);
        lemma_hex_char((b / 16) as int);
        lemma_hex_char((b % 16) as int);
        let h = hex_lower_spec(bytes);
        let t = hex_lower_spec(rest);
        assert(h == seq![hex_char((b / 16) as int), hex_char((b % 16) as int)] + t);
        assert forall|k: int| 0 <= k < h.len() implies is_hex_lower(#[trigger] h[k]) by {
            if k >= 2 {
                assert(h[k] == t[k - 2]);
            }
        }
        assert forall|i: int| 0 <= i < bytes.len() implies 16 * hex_value(#[trigger] h[2 * i])
            + hex_value(h[2 * i + 1]) == bytes[i] by {
            if i > 0 {
                assert(h[2 * i] == t[2 * (i - 1)]);
                assert(h[2 * i + 1] == t[2 * (i - 1) + 1]);
                assert(bytes[i] == rest[i - 1]);
            }
        }
    }
}

proof fn lemma_hex_lower_push(bytes: Seq<u8>, b: u8)
    ensures
        hex_lower_spec(bytes.push(b)) == hex_lower_spec(bytes) + seq![
            hex_char((b / 16) as int),
            hex_char((b % 16) as int),
        ],
    decreases bytes.len(),
{
    if bytes.len() == 0 {
        assert(bytes.push(b).drop_first() =~= Seq::<u8>::empty());
        assert(hex_lower_spec(Seq::<u8>::empty()) == Seq::<char>::empty());
    } else {
        lemma_hex_lower_push(bytes.drop_first(), b);
        assert(bytes.push(b).drop_first() =~= bytes.drop_first().push(b));
    }
}

fn hex_digit(d: u8) -> (c: char)
    requires
        d < 16,
    ensures
        c == hex_char(d as int),
{
    HEX_DIGITS[d as usize]
}

/// Lowercase hexadecimal notation of a byte string.
pub fn hex_lower(bytes: &[u8]) -> (s: String)
    ensures
        s@ == hex_lower_spec(bytes@),
        s@.len() == 2 * bytes@.len(),
{
    let mut s = String::new();
    let mut i: usize = 0;
    while i < bytes.len()
        invariant
            i <= bytes@.len(),
            s@ == hex_lower_spec(bytes@.take(i as int)),
            s@.len() == 2 * i,
        decreases bytes@.len() - i,
    {
        let b = bytes[i];
        push_char(&mut s, hex_digit(b / 16));
        push_char(&mut s, hex_digit(b % 16));
        proof {
            lemma_hex_lower_push(bytes@.take(i as int), b);
            assert(bytes@.take(i as int).push(b) =~= bytes@.take(i + 1));
        }
        i = i + 1;
    }
    assert(bytes@.take(bytes@.len() as int) =~= bytes@);
    s
}

/// Index of the first occurrence of `c` in `s`, if any.
pub open spec fn find_char(s: Seq<char>, c: char) -> Option<int>
    decreases s.len(),
{
    if s.len() == 0 {
        None
    } else if s[0] == c {
        Some(0)
    } else {
        match find_char(s.drop_first(), c) {
            Some(i) => Some(i + 1),
            None => None,
        }
    }
}

/// Index of the last occurrence of `c` in `s`, if any.
pub open spec fn rfind_char(s: Seq<char>, c: char) -> Option<int>
    decreases s.len(),
{
    if s.len() == 0 {
        None
    } else if s.last() == c {
        Some(s.len() - 1)
    } else {
        rfind_char(s.drop_last(), c)
    }
}

pub(crate) proof fn lemma_find_char(s: Seq<char>, c: char)
    ensures
        match find_char(s, c) {
            Some(i) => 0 <= i < s.len() && s[i] == c && forall|k: int| 0 <= k < i ==> s[k] != c,
            None => forall|k: int| 0 <= k < s.len() ==> s[k] != c,
        },
    decreases s.len(),
{
    if s.len() > 0 && s[0] != c {
        let t = s.drop_first();
        lemma_find_char(t, c);
        match find_char(t, c) {
            Some(j) => {
                assert(s[j + 1] == t[j]);
                assert forall|k: int| 0 <= k < j + 1 implies s[k] != c by {
                    if k > 0 {
                        assert(s[k] == t[k - 1]);
                    }
                }
            },
            None => {
                assert forall|k: int| 0 <= k < s.len() implies s[k] != c by {
                    if k > 0 {
                        assert(s[k] == t[k - 1]);
                    }
                }
            },
        }
    }
}

pub(crate) proof fn lemma_rfind_char(s: Seq<char>, c: char)
    ensures
        match rfind_char(s, c) {
            Some(i) => 0 <= i < s.len() && s[i] == c && forall|k: int| i < k < s.len() ==> s[k] != c,
            None => forall|k: int| 0 <= k < s.len() ==> s[k] != c,
        },
    decreases s.len(),
{
    if s.len() > 0 && s.last() != c {
        let t = s.drop_last();
        lemma_rfind_char(t, c);
        match rfind_char(t, c) {
            Some(j) => {
                assert(s[j] == t[j]);
                assert forall|k: int| j < k < s.len() implies s[k] != c by {
                    if k < s.len() - 1 {
                        assert(s[k] == t[k]);
                    }
                }
            },
            None => {
                assert forall|k: int| 0 <= k < s.len() implies s[k] != c by {
                    if k < s.len() - 1 {
                        assert(s[k] == t[k]);
                    }
                }
            },
        }
    }
}

/// Position of the first `c` in `s`.
pub fn find_char_exec(s: &[char], c: char) -> (res: Option<usize>)
    ensures
        match res {
            Some(i) => find_char(s@, c) == Some(i as int),
            None => find_char(s@, c) is None,
        },
{
    proof { lemma_find_char(s@, c); }
    let mut i: usize = 0;
    while i < s.len()
        invariant
            i <= s@.len(),
            forall|k: int| 0 <= k < i ==> s@[k] != c,
        decreases s@.len() - i,
    {
        if s[i] == c {
            proof {
                lemma_find_char(s@, c);
                assert(s@[i as int] == c);
                match find_char(s@, c) {
                    Some(j) => {
                        if j < i {
                            assert(s@[j] != c);
                        }
                        if j > i {
                            assert(s@[i as int] != c);
                        }
                    },
                    None => {
                        assert(s@[i as int] != c);
                    },
                }
            }
            return Some(i);
        }
        i = i + 1;
    }
    proof {
        match find_char(s@, c) {
            Some(j) => {
                assert(s@[j] == c);
            },
            None => {},
        }
    }
    None
}

/// Position of the last `c` in `s`.
pub fn rfind_char_exec(s: &[char], c: char) -> (res: Option<usize>)
    ensures
        match res {
            Some(i) => rfind_char(s@, c) == Some(i as int),
            None => rfind_char(s@, c) is None,
        },
{
    proof { lemma_rfind_char(s@, c); }
    let mut i: usize = s.len();
    while i > 0
        invariant
            i <= s@.len(),
            forall|k: int| i <= k < s@.len() ==> s@[k] != c,
        decreases i,
    {
        if s[i - 1] == c {
            proof {
                lemma_rfind_char(s@, c);
                assert(s@[i - 1] == c);
                match rfind_char(s@, c) {
                    Some(j) => {
                        if j > i - 1 {
                            assert(s@[j] != c);
                        }
                        if j < i - 1 {
                            assert(s@[i - 1] != c);
                        }
                    },
                    None => {
                        assert(s@[i - 1] != c);
                    },
                }
            }
            return Some(i - 1);
        }
        i = i - 1;
    }
    proof {
        match rfind_char(s@, c) {
            Some(j) => {
                assert(s@[j] == c);
            },
            None => {},
        }
    }
    None
}

/// The characters `s[from..to]` as a string.
pub fn slice_to_string(s: &[char], from: usize, to: usize) -> (res: String)
    requires
        from <= to <= s@.len(),
    ensures
        res@ == s@.subrange(from as int, to as int),
{
    let mut res = String::new();
    let mut i: usize = from;
    while i < to
        invariant
            from <= i <= to <= s@.len(),
            res@ == s@.subrange(from as int, i as int),
        decreases to - i,
    {
        push_char(&mut res, s[i]);
        i = i + 1;
        assert(res@ =~= s@.subrange(from as int, i as int));
    }
    res
}

/// `pat` occurs in `s` at position `i`.
pub open spec fn occurs_at(s: Seq<char>, pat: Seq<char>, i: int) -> bool {
    0 <= i && i + pat.len() <= s.len() && s.subrange(i, i + pat.len()) == pat
}

/// Position of the first occurrence of `pat` in `s` at or after `from`.
pub open spec fn find_str_from(s: Seq<char>, pat: Seq<char>, from: int) -> Option<int>
    decreases s.len() + 1 - from,
{
    if from < 0 || from + pat.len() > s.len() {
        None
    } else if occurs_at(s, pat, from) {
        Some(from)
    } else {
        find_str_from(s, pat, from + 1)
    }
}

/// Position of the first occurrence of `pat` in `s` (`str::find`).
pub open spec fn find_str(s: Seq<char>, pat: Seq<char>) -> Option<int> {
    find_str_from(s, pat, 0)
}

proof fn lemma_find_str_from_range(s: Seq<char>, pat: Seq<char>, from: int)
    ensures
        find_str_from(s, pat, from) matches Some(i) ==> from <= i && i + pat.len() <= s.len(),
    decreases s.len() + 1 - from,
{
    if !(from < 0 || from + pat.len() > s.len()) && !occurs_at(s, pat, from) {
        lemma_find_str_from_range(s, pat, from + 1);
    }
}

/// Finds the first occurrence of `pat` in `s`.
pub fn find_str_exec(s: &[char], pat: &[char]) -> (res: Option<usize>)
    ensures
        match res {
            Some(i) => find_str(s@, pat@) == Some(i as int) && i + pat@.len() <= s@.len(),
            None => find_str(s@, pat@) is None,
        },
{
    if pat.len() > s.len() {
        return None;
    }
    let n = s.len();
    let last = n - pat.len();
    let mut i: usize = 0;
    while i <= last
        invariant
            n == s@.len(),
            last == s@.len() - pat@.len(),
            i <= last + 1,
            find_str(s@, pat@) == find_str_from(s@, pat@, i as int),
        decreases last + 1 - i,
    {
        let mut k: usize = 0;
        while k < pat.len() && s[i + k] == pat[k]
            invariant
                n == s@.len(),
                k <= pat@.len(),
                i <= last,
                last == s@.len() - pat@.len(),
                forall|t: int| 0 <= t < k ==> s@[i + t] == pat@[t],
            decreases pat@.len() - k,
        {
            k = k + 1;
        }
        if k == pat.len() {
            assert(s@.subrange(i as int, i + pat@.len()) =~= pat@);
            return Some(i);
        }
        assert(s@.subrange(i as int, i + pat@.len())[k as int] != pat@[k as int]);
        i = i + 1;
    }
    None
}

/// `s` starts with `pat`.
pub open spec fn starts_with(s: Seq<char>, pat: Seq<char>) -> bool {
    pat.len() <= s.len() && s.take(pat.len() as int) == pat
}

/// `str::strip_prefix`: the rest of `s` after `pat`, if `s` starts with it.
pub fn strip_prefix(s: &str, pat: &str) -> (res: Option<String>)
    ensures
        match res {
            Some(r) => starts_with(s@, pat@) && r@ == s@.skip(pat@.len() as int),
            None => !starts_with(s@, pat@),
        },
{
    let x = str_chars(s);
    let p = str_chars(pat);
    if p.len() > x.len() {
        return None;
    }
    let mut k: usize = 0;
    while k < p.len()
        invariant
            x@ == s@,
            p@ == pat@,
            k <= p@.len() <= x@.len(),
            forall|t: int| 0 <= t < k ==> x@[t] == p@[t],
        decreases p@.len() - k,
    {
        if x[k] != p[k] {
            assert(x@.take(p@.len() as int)[k as int] != p@[k as int]);
            return None;
        }
        k = k + 1;
    }
    assert(x@.take(p@.len() as int) =~= p@);
    let r = slice_to_string(x.as_slice(), p.len(), x.len());
    assert(r@ =~= s@.skip(pat@.len() as int));
    Some(r)
}

/// Whether two string slices hold the same characters.
pub fn str_eq(a: &str, b: &str) -> (res: bool)
    ensures
        res == (a@ == b@),
{
    let x = str_chars(a);
    let y = str_chars(b);
    if x.len() != y.len() {
        return false;
    }
    let mut i: usize = 0;
    while i < x.len()
        invariant
            x@ == a@,
            y@ == b@,
            x@.len() == y@.len(),
            i <= x@.len(),
            forall|k: int| 0 <= k < i ==> x@[k] == y@[k],
        decreases x@.len() - i,
    {
        if x[i] != y[i] {
            return false;
        }
        i = i + 1;
    }
    assert(x@ =~= y@);
    true
}

} // verus!
