//! Video ids: the numeric `av` id and the `BV` id, which writes the same
//! number scrambled in base 58.
use vstd::prelude::*;

use crate::text::{chars_to_string, str_chars};

verus! {

/// The number the id is masked with.
pub const XOR_CODE: u64 = 23442827791579;

/// The low 51 bits.
pub const MASK_CODE: u64 = 2251799813685247;

/// The bit set above every `av` id; ids must be below it.
pub const MAX_AID: u64 = 2251799813685248;

/// The digits of a `BV` id, in order of value.
pub const ALPHABET: [char; 58] = [
    'F', 'c', 'w', 'A', 'P', 'N', 'K', 'T', 'M', 'u', 'g', '3', 'G', 'V', '5', 'L', 'j', '7', 'E',
    'J', 'n', 'H', 'p', 'W', 's', 'x', '4', 't', 'b', '8', 'h', 'a', 'Y', 'e', 'v', 'i', 'q', 'B',
    'z', '6', 'r', 'k', 'C', 'y', '1', '2', 'm', 'U', 'S', 'D', 'Q', 'X', '9', 'R', 'd', 'o', 'Z',
    'f',
];

/// The last `n` base-58 digits of `t`, most significant first.
pub open spec fn b58_digits(t: nat, n: nat) -> Seq<char>
    decreases n,
{
    if n == 0 {
        Seq::empty()
    } else {
        b58_digits(t / 58, (n - 1) as nat).push(ALPHABET@[(t % 58) as int])
    }
}

/// An id with positions 3 and 9, and 4 and 7, exchanged.
pub open spec fn swap_positions(s: Seq<char>) -> Seq<char> {
    s.update(3, s[9]).update(9, s[3]).update(4, s[7]).update(7, s[4])
}

/// The number that the digits of a `BV` id write.
pub open spec fn masked_aid(aid: u64) -> u64 {
    (MAX_AID | aid) ^ XOR_CODE
}

/// The `BV` id of an `av` id: `BV1` and the nine base-58 digits of the
/// masked number, with two pairs of positions exchanged.
pub open spec fn av_to_bv_spec(aid: u64) -> Seq<char> {
    swap_positions("BV1"@ + b58_digits(masked_aid(aid) as nat, 9))
}

proof fn lemma_digits_len(t: nat, n: nat)
    ensures
        b58_digits(t, n).len() == n,
    decreases n,
{
    if n > 0 {
        lemma_digits_len(t / 58, (n - 1) as nat);
    }
}

fn b58_exec(t: u64, n: usize) -> (res: Vec<char>)
    ensures
        res@ == b58_digits(t as nat, n as nat),
    decreases n,
{
    if n == 0 {
        Vec::new()
    } else {
        let mut v = b58_exec(t / 58, n - 1);
        v.push(ALPHABET[(t % 58) as usize]);
        v
    }
}

fn swap_exec(v: &mut Vec<char>)
    requires
        old(v)@.len() == 12,
    ensures
        final(v)@ == swap_positions(old(v)@),
{
    let a = v[3];
    let b = v[9];
    v.set(3, b);
    v.set(9, a);
    let c = v[4];
    let d = v[7];
    v.set(4, d);
    v.set(7, c);
}

/// The `BV` id of an `av` id below `MAX_AID` (see `av_to_bv_spec`).
pub fn av_to_bv(aid: u64) -> (res: String)
    requires
        aid < MAX_AID,
    ensures
        res@ == av_to_bv_spec(aid),
        res@.len() == 12,
{
    let t = (MAX_AID | aid) ^ XOR_CODE;
    let digits = b58_exec(t, 9);
    proof {
        lemma_digits_len(t as nat, 9);
    }
    let mut v: Vec<char> = Vec::new();
    v.push('B');
    v.push('V');
    v.push('1');
    let mut i: usize = 0;
    while i < 9
        invariant
            i <= 9,
            digits@.len() == 9,
            v@ == seq!['B', 'V', '1'] + digits@.take(i as int),
        decreases 9 - i,
    {
        v.push(digits[i]);
        i = i + 1;
        assert(v@ =~= seq!['B', 'V', '1'] + digits@.take(i as int));
    }
    proof {
        reveal_strlit("BV1");
        assert(digits@.take(9) =~= digits@);
        assert(v@ =~= "BV1"@ + digits@);
    }
    swap_exec(&mut v);
    chars_to_string(v.as_slice())
}

/// The first position from `i` on at which `c` stands in the alphabet.
pub open spec fn index_from(c: char, i: nat) -> Option<nat>
    decreases 58 - i,
{
    if i >= 58 {
        None
    } else if ALPHABET@[i as int] == c {
        Some(i)
    } else {
        index_from(c, i + 1)
    }
}

/// The value of a digit, if it is one: its position in the alphabet.
pub open spec fn digit_value(c: char) -> Option<nat> {
    index_from(c, 0)
}

proof fn lemma_index_bound(c: char, i: nat)
    ensures
        index_from(c, i) matches Some(d) ==> i <= d < 58,
    decreases 58 - i,
{
    if i < 58 && ALPHABET@[i as int] != c {
        lemma_index_bound(c, i + 1);
    }
}

/// The number written by base-58 digits, most significant first; `None` if
/// a character is not a digit.
pub open spec fn b58_value(s: Seq<char>) -> Option<nat>
    decreases s.len(),
{
    if s.len() == 0 {
        Some(0)
    } else {
        match (b58_value(s.drop_last()), digit_value(s.last())) {
            (Some(v), Some(d)) => Some(v * 58 + d),
            _ => None,
        }
    }
}

/// The `av` id of a `BV` id: the twelve characters with the positions
/// exchanged back, the nine digits after the first three read in base 58,
/// masked and unmasked. `None` for another length or a character that is
/// not a digit.
pub open spec fn bv_to_av_spec(bvid: Seq<char>) -> Option<u64> {
    if bvid.len() != 12 {
        None
    } else {
        match b58_value(swap_positions(bvid).skip(3)) {
            Some(v) => Some(((v as u64) & MASK_CODE) ^ XOR_CODE),
            None => None,
        }
    }
}

/// 58 to the power `n`.
pub open spec fn p58(n: nat) -> nat
    decreases n,
{
    if n == 0 {
        1
    } else {
        58 * p58((n - 1) as nat)
    }
}

proof fn lemma_value_bound(s: Seq<char>)
    ensures
        b58_value(s) matches Some(v) ==> v < p58(s.len()),
    decreases s.len(),
{
    if s.len() > 0 {
        lemma_value_bound(s.drop_last());
        if let (Some(v), Some(d)) = (b58_value(s.drop_last()), digit_value(s.last())) {
            let p = p58((s.len() - 1) as nat);
            lemma_index_bound(s.last(), 0);
            assert(d < 58);
            assert(v * 58 + d < p * 58) by (nonlinear_arith)
                requires
                    v < p,
                    d < 58,
            ;
        }
    }
}

fn digit_exec(c: char) -> (res: Option<u64>)
    ensures
        match res {
            Some(d) => digit_value(c) == Some(d as nat) && d < 58,
            None => digit_value(c) is None,
        },
{
    let mut i: usize = 0;
    while i < 58
        invariant
            i <= 58,
            index_from(c, 0) == index_from(c, i as nat),
        decreases 58 - i,
    {
        if ALPHABET[i] == c {
            return Some(i as u64);
        }
        i = i + 1;
    }
    None
}

/// The `av` id of a `BV` id (see `bv_to_av_spec`).
pub fn bv_to_av(bvid: &str) -> (res: Option<u64>)
    ensures
        res == bv_to_av_spec(bvid@),
{
    let mut v = str_chars(bvid);
    if v.len() != 12 {
        return None;
    }
    let ghost orig = v@;
    swap_exec(&mut v);
    let ghost digits = v@.skip(3);
    let mut t: u64 = 0;
    let mut i: usize = 3;
    while i < 12
        invariant
            3 <= i <= 12,
            v@.len() == 12,
            digits == v@.skip(3),
            digits == swap_positions(bvid@).skip(3),
            bvid@.len() == 12,
            b58_value(digits.take(i - 3)) == Some(t as nat),
            t < p58((i - 3) as nat),
        decreases 12 - i,
    {
        assert(digits.take(i - 2).drop_last() =~= digits.take(i - 3));
        assert(digits.take(i - 2).last() == v@[i as int]);
        match digit_exec(v[i]) {
            Some(d) => {
                proof {
                    let p = p58((i - 3) as nat);
                    assert(p58(0) == 1);
                    assert(p58(1) == 58);
                    assert(p58(2) == 3364);
                    assert(p58(3) == 195112);
                    assert(p58(4) == 11316496);
                    assert(p58(5) == 656356768);
                    assert(p58(6) == 38068692544);
                    assert(p58(7) == 2207984167552);
                    assert(p58(8) == 128063081718016);
                    assert(p58(9) == 7427658739644928);
                    lemma_p58_mono((i - 3) as nat, 8);
                    assert(t * 58 + d < p * 58) by (nonlinear_arith)
                        requires
                            t < p,
                            d < 58,
                    ;
                }
                t = t * 58 + d;
            },
            None => {
                proof {
                    lemma_none_stays(digits, i - 2);
                    assert(digits.take(9) =~= digits);
                }
                return None;
            },
        }
        i = i + 1;
    }
    assert(digits.take(9) =~= digits);
    Some((t & MASK_CODE) ^ XOR_CODE)
}

proof fn lemma_p58_mono(a: nat, b: nat)
    requires
        a <= b,
    ensures
        p58(a) <= p58(b),
    decreases b,
{
    if a < b {
        lemma_p58_mono(a, (b - 1) as nat);
    }
}

proof fn lemma_none_stays(s: Seq<char>, n: int)
    requires
        0 < n <= s.len(),
        b58_value(s.take(n)) is None,
    ensures
        b58_value(s) is None,
    decreases s.len() - n,
{
    if n < s.len() {
        assert(s.take(n + 1).drop_last() =~= s.take(n));
        lemma_none_stays(s, n + 1);
    } else {
        assert(s.take(n) =~= s);
    }
}

proof fn lemma_alphabet_distinct()
    ensures
        forall|i: int, j: int| 0 <= i < j < 58 ==> ALPHABET@[i] != ALPHABET@[j],
{
}

proof fn lemma_index_of_digit(d: int, i: nat)
    requires
        0 <= i <= d < 58,
    ensures
        index_from(ALPHABET@[d], i) == Some(d as nat),
    decreases d - i,
{
    lemma_alphabet_distinct();
    if i < d {
        assert(ALPHABET@[i as int] != ALPHABET@[d]);
        lemma_index_of_digit(d, i + 1);
    }
}

proof fn lemma_value_of_digits(t: nat, n: nat)
    ensures
        b58_value(b58_digits(t, n)) == Some(t % p58(n)),
    decreases n,
{
    if n == 0 {
        assert(t % 1 == 0) by (nonlinear_arith);
    } else {
        let m = (n - 1) as nat;
        lemma_value_of_digits(t / 58, m);
        let s = b58_digits(t, n);
        let d = t % 58;
        lemma_index_of_digit(d as int, 0);
        assert(s.drop_last() =~= b58_digits(t / 58, m));
        assert(s.last() == ALPHABET@[d as int]);
        let p = p58(m);
        assert(p > 0) by {
            lemma_p58_pos(m);
        }
        assert(((t / 58) % p) * 58 + t % 58 == t % (58 * p)) by (nonlinear_arith)
            requires
                p > 0,
        {
            vstd::arithmetic::div_mod::lemma_breakdown(t as int, 58, p as int);
        }
    }
}

proof fn lemma_p58_pos(n: nat)
    ensures
        p58(n) > 0,
    decreases n,
{
    if n > 0 {
        lemma_p58_pos((n - 1) as nat);
    }
}

/// Reading back the `BV` id of an `av` id gives the `av` id.
pub proof fn bv_av_roundtrip(aid: u64)
    requires
        aid < MAX_AID,
    ensures
        bv_to_av_spec(av_to_bv_spec(aid)) == Some(aid),
{
    let t = masked_aid(aid);
    let digits = b58_digits(t as nat, 9);
    lemma_digits_len(t as nat, 9);
    reveal_strlit("BV1");
    let plain = "BV1"@ + digits;
    assert(plain.len() == 12);
    let bv = av_to_bv_spec(aid);
    assert(swap_positions(bv) =~= plain);
    assert(plain.skip(3) =~= digits);
    lemma_value_of_digits(t as nat, 9);
    assert(p58(0) == 1);
    assert(p58(1) == 58);
    assert(p58(2) == 3364);
    assert(p58(3) == 195112);
    assert(p58(4) == 11316496);
    assert(p58(5) == 656356768);
    assert(p58(6) == 38068692544);
    assert(p58(7) == 2207984167552);
    assert(p58(8) == 128063081718016);
    assert(p58(9) == 7427658739644928);
    assert(t < 4503599627370496) by (bit_vector)
        requires
            t == (2251799813685248u64 | aid) ^ 23442827791579u64,
            aid < 2251799813685248u64,
    ;
    vstd::arithmetic::div_mod::lemma_small_mod(t as nat, p58(9));
    assert((t & 2251799813685247u64) ^ 23442827791579u64 == aid) by (bit_vector)
        requires
            t == (2251799813685248u64 | aid) ^ 23442827791579u64,
            aid < 2251799813685248u64,
    ;
}

/// A video id as written: an `av` number or a `BV` id.
pub enum BiliId {
    AV(u64),
    BV(String),
}

impl BiliId {
    /// Both forms of the id: an `av` number below `MAX_AID` with its `BV`
    /// id, or a `BV` id with the number it encodes; `Err(())` for an `av`
    /// number out of range or a `BV` id that does not decode.
    pub fn to_raw(&self) -> (res: Result<(u64, String), ()>)
        ensures
            match *self {
                BiliId::AV(aid) => if aid < MAX_AID {
                    res matches Ok((a, b)) && a == aid && b@ == av_to_bv_spec(aid)
                } else {
                    res is Err
                },
                BiliId::BV(s) => match bv_to_av_spec(s@) {
                    Some(a) => res matches Ok((x, b)) && x == a && b@ == s@,
                    None => res is Err,
                },
            },
    {
        match self {
            BiliId::AV(aid) => {
                if *aid < MAX_AID {
                    Ok((*aid, av_to_bv(*aid)))
                } else {
                    Err(())
                }
            },
            BiliId::BV(s) => match bv_to_av(s.as_str()) {
                Some(a) => Ok((a, s.clone())),
                None => Err(()),
            },
        }
    }
}

} // verus!
