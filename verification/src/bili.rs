//! Video-site API helpers: WBI request signing, description rendering,
//! query and cookie construction and the classification of API replies.
use vstd::prelude::*;
use vstd::utf8::encode_utf8;

use crate::clock::{now_millis, now_seconds};
use crate::digest::{md5_digest, md5_hex};
use crate::text::{
    chars_to_string, dec, dec_signed, find_char, find_char_exec, hex_lower_spec, i64_to_string,
    lemma_find_char, lemma_rfind_char, push_char, push_str, rfind_char, rfind_char_exec,
    slice_to_string, str_chars, u64_to_string,
};
use crate::urlencode::{form_urlencoded_spec, query_view, urlencode_pairs};

verus! {

/// Permutation that mixes the two WBI image keys into the signing key.
pub const MIXIN_KEY_ENC_TAB: [u8; 64] = [
    46, 47, 18, 2, 53, 8, 23, 32, 15, 50, 10, 31, 58, 3, 45, 35, 27, 43, 5, 49, 33, 9, 42, 19, 29,
    28, 14, 39, 12, 38, 41, 13, 37, 48, 7, 16, 24, 55, 40, 61, 26, 17, 0, 1, 60, 51, 30, 4, 22, 25,
    54, 21, 56, 59, 6, 63, 57, 62, 11, 36, 20, 34, 44, 52,
];

/// One item of a structured video description.
pub struct DescItem {
    /// Item kind: `2` is a mention of a user, anything else plain text.
    pub desc_type: i32,
    /// The text of the item.
    pub raw_text: String,
    /// The mentioned user's id, for mentions.
    pub biz_id: u64,
}

/// The text that one description item contributes.
pub open spec fn desc_piece(d: DescItem) -> Seq<char> {
    if d.desc_type == 2 {
        seq!['['] + d.raw_text@ + "](https://space.bilibili.com/"@ + dec(d.biz_id as nat) + seq![
            ')',
        ]
    } else {
        d.raw_text@
    }
}

/// The whole description: the pieces of all items, concatenated.
pub open spec fn parse_desc_spec(desc: Seq<DescItem>) -> Seq<char>
    decreases desc.len(),
{
    if desc.len() == 0 {
        Seq::empty()
    } else {
        parse_desc_spec(desc.drop_last()) + desc_piece(desc.last())
    }
}

/// Renders a structured description: mentions become Markdown links to the
/// user's space, other items are copied.
pub fn parse_desc(desc: &[DescItem]) -> (res: String)
    ensures
        res@ == parse_desc_spec(desc@),
{
    let mut res = String::new();
    let mut i: usize = 0;
    while i < desc.len()
        invariant
            i <= desc@.len(),
            res@ == parse_desc_spec(desc@.take(i as int)),
        decreases desc@.len() - i,
    {
        let d = &desc[i];
        if d.desc_type == 2 {
            push_char(&mut res, '[');
            push_str(&mut res, d.raw_text.as_str());
            push_str(&mut res, "](https://space.bilibili.com/");
            push_str(&mut res, u64_to_string(d.biz_id).as_str());
            push_char(&mut res, ')');
        } else {
            push_str(&mut res, d.raw_text.as_str());
        }
        proof {
            reveal_strlit("](https://space.bilibili.com/");
            assert(desc@.take(i + 1).drop_last() =~= desc@.take(i as int));
            assert(res@ =~= parse_desc_spec(desc@.take(i as int)) + desc_piece(desc@[i as int]));
        }
        i = i + 1;
    }
    assert(desc@.take(desc@.len() as int) =~= desc@);
    res
}

/// The file name of an image URL without its extension: the text after the
/// last `/`, up to its first `.`.
pub open spec fn key_from_url_spec(url: Seq<char>) -> Seq<char> {
    let name = match rfind_char(url, '/') {
        Some(i) => url.skip(i + 1),
        None => url,
    };
    match find_char(name, '.') {
        Some(j) => name.take(j),
        None => name,
    }
}

/// The key of an image URL is the run of characters that starts right
/// after the URL's last `/` (at its start when it has none) and stops at the
/// first `.` after that, or at the end: it holds neither `/` nor `.`.
pub proof fn key_from_url_law(url: Seq<char>)
    ensures
        ({
            let key = key_from_url_spec(url);
            exists|i: int|
                #![trigger url.skip(i)]
                {
                    &&& 0 <= i && i + key.len() <= url.len()
                    &&& url.skip(i).take(key.len() as int) == key
                    &&& i == 0 || url[i - 1] == '/'
                    &&& forall|k: int| i <= k < url.len() ==> #[trigger] url[k] != '/'
                    &&& i + key.len() == url.len() || url[i + key.len()] == '.'
                }
        }),
        forall|k: int|
            0 <= k < key_from_url_spec(url).len() ==> #[trigger] key_from_url_spec(url)[k] != '/'
                && key_from_url_spec(url)[k] != '.',
{
    let key = key_from_url_spec(url);
    lemma_rfind_char(url, '/');
    let i: int = match rfind_char(url, '/') {
        Some(p) => p + 1,
        None => 0,
    };
    let name = url.skip(i);
    assert(name =~= match rfind_char(url, '/') {
        Some(p) => url.skip(p + 1),
        None => url,
    });
    lemma_find_char(name, '.');
    assert(forall|k: int| 0 <= k < name.len() ==> name[k] == url[i + k]);
    assert(url.skip(i).take(key.len() as int) =~= key);
    assert forall|k: int| 0 <= k < key.len() implies #[trigger] key[k] != '/' && key[k] != '.' by {
        assert(key[k] == url[i + k]);
    }
}

/// Extracts a WBI key from an image URL (see `key_from_url_spec`).
pub fn key_from_url(url: &str) -> (res: String)
    ensures
        res@ == key_from_url_spec(url@),
{
    let chars = str_chars(url);
    let n = chars.len();
    proof { lemma_rfind_in_range(url@, '/'); }
    let start: usize = match rfind_char_exec(chars.as_slice(), '/') {
        Some(i) => {
            assert(i < n);
            i + 1
        },
        None => 0,
    };
    let name = slice_to_string(chars.as_slice(), start, chars.len());
    let name_chars = str_chars(name.as_str());
    let end: usize = match find_char_exec(name_chars.as_slice(), '.') {
        Some(j) => j,
        None => name_chars.len(),
    };
    proof {
        assert(url@.skip(0) =~= url@);
        lemma_find_in_range(name@, '.');
    }
    let res = slice_to_string(name_chars.as_slice(), 0, end);
    proof {
        match find_char(name@, '.') {
            Some(j) => { assert(res@ =~= name@.take(j)); },
            None => { assert(res@ =~= name@); },
        }
    }
    res
}

proof fn lemma_rfind_in_range(s: Seq<char>, c: char)
    ensures
        rfind_char(s, c) matches Some(i) ==> 0 <= i < s.len(),
    decreases s.len(),
{
    if s.len() > 0 {
        lemma_rfind_in_range(s.drop_last(), c);
    }
}

proof fn lemma_find_in_range(s: Seq<char>, c: char)
    ensures
        find_char(s, c) matches Some(i) ==> 0 <= i < s.len(),
    decreases s.len(),
{
    if s.len() > 0 {
        lemma_find_in_range(s.drop_first(), c);
    }
}

/// The signing key: the concatenated image keys permuted by
/// `MIXIN_KEY_ENC_TAB`, first 32 characters.
pub open spec fn mixin_key_spec(orig: Seq<char>) -> Seq<char> {
    Seq::new(32, |k: int| orig[MIXIN_KEY_ENC_TAB@[k] as int])
}

/// Mixes the two image keys into the WBI signing key. The concatenated keys
/// must have at least 64 characters, since the permutation reads position 63.
pub fn mixin_key(img_key: &str, sub_key: &str) -> (res: String)
    requires
        img_key@.len() + sub_key@.len() >= 64,
    ensures
        res@ == mixin_key_spec(img_key@ + sub_key@),
{
    let mut orig = str_chars(img_key);
    let mut sub = str_chars(sub_key);
    orig.append(&mut sub);
    let mut out: Vec<char> = Vec::new();
    let mut k: usize = 0;
    while k < 32
        invariant
            k <= 32,
            orig@ == img_key@ + sub_key@,
            orig@.len() >= 64,
            out@ =~= Seq::new(k as nat, |t: int| orig@[MIXIN_KEY_ENC_TAB@[t] as int]),
        decreases 32 - k,
    {
        let idx = MIXIN_KEY_ENC_TAB[k] as usize;
        assert(idx < 64);
        out.push(orig[idx]);
        k = k + 1;
    }
    chars_to_string(out.as_slice())
}

// ---------------------------------------------------------------------------
// WBI signing
// ---------------------------------------------------------------------------

/// Strict lexicographic order of character sequences (by code point; for
/// UTF-8 strings this is the byte order that `str` comparison uses).
pub open spec fn key_lt(a: Seq<char>, b: Seq<char>) -> bool
    decreases a.len(),
{
    if a.len() == 0 {
        b.len() > 0
    } else if b.len() == 0 {
        false
    } else if a[0] != b[0] {
        (a[0] as u32) < (b[0] as u32)
    } else {
        key_lt(a.drop_first(), b.drop_first())
    }
}

/// `a` and `b` agree on their first `i` characters, and there `a` stops
/// while `b` goes on, or `a` has the smaller character.
pub open spec fn first_difference_below(a: Seq<char>, b: Seq<char>, i: int) -> bool {
    &&& 0 <= i <= a.len() && i <= b.len()
    &&& a.take(i) == b.take(i)
    &&& (i == a.len() && i < b.len()) || (i < a.len() && i < b.len() && (a[i] as u32) < (
        b[i] as u32))
}

proof fn lemma_key_lt_witness(a: Seq<char>, b: Seq<char>) -> (i: int)
    requires
        key_lt(a, b),
    ensures
        first_difference_below(a, b, i),
    decreases a.len(),
{
    if a.len() == 0 {
        assert(a.take(0) =~= b.take(0));
        0
    } else if a[0] != b[0] {
        assert(a.take(0) =~= b.take(0));
        0
    } else {
        let j = lemma_key_lt_witness(a.drop_first(), b.drop_first());
        assert(a.take(j + 1) =~= seq![a[0]] + a.drop_first().take(j));
        assert(b.take(j + 1) =~= seq![b[0]] + b.drop_first().take(j));
        j + 1
    }
}

proof fn lemma_key_lt_from_witness(a: Seq<char>, b: Seq<char>, i: int)
    requires
        first_difference_below(a, b, i),
    ensures
        key_lt(a, b),
    decreases a.len(),
{
    if a.len() > 0 && i > 0 {
        assert(a[0] == a.take(i)[0] && b[0] == b.take(i)[0]);
        assert(a.drop_first().take(i - 1) =~= a.take(i).drop_first());
        assert(b.drop_first().take(i - 1) =~= b.take(i).drop_first());
        lemma_key_lt_from_witness(a.drop_first(), b.drop_first(), i - 1);
    }
}

/// The name order is the lexicographic order by code point: `a` comes
/// before `b` exactly when, after a common beginning, `a` ends while `b`
/// goes on or `a` has the smaller character. It is a strict total order.
pub proof fn key_lt_law(a: Seq<char>, b: Seq<char>, c: Seq<char>)
    ensures
        key_lt(a, b) <==> exists|i: int| #[trigger] first_difference_below(a, b, i),
        !key_lt(a, a),
        key_lt(a, b) && key_lt(b, c) ==> key_lt(a, c),
        a != b ==> key_lt(a, b) || key_lt(b, a),
{
    if key_lt(a, b) {
        let i = lemma_key_lt_witness(a, b);
    }
    if exists|i: int| #[trigger] first_difference_below(a, b, i) {
        let i = choose|i: int| #[trigger] first_difference_below(a, b, i);
        lemma_key_lt_from_witness(a, b, i);
    }
    lemma_key_lt_irrefl(a);
    if key_lt(a, b) && key_lt(b, c) {
        lemma_key_lt_trans(a, b, c);
    }
    if !key_lt(a, b) && !key_lt(b, a) {
        lemma_key_lt_total(a, b);
    }
}

/// Where a stable insertion puts a pair with key `key` into `s`: before the
/// first pair whose key is greater.
pub open spec fn insert_pos(s: Seq<(Seq<char>, Seq<char>)>, key: Seq<char>) -> int
    decreases s.len(),
{
    if s.len() == 0 {
        0
    } else if key_lt(key, s[0].0) {
        0
    } else {
        1 + insert_pos(s.drop_first(), key)
    }
}

/// A stable sort of pairs by key (what `sort_by_key` on the key yields).
pub open spec fn sort_by_key_spec(s: Seq<(Seq<char>, Seq<char>)>) -> Seq<(Seq<char>, Seq<char>)>
    decreases s.len(),
{
    if s.len() == 0 {
        s
    } else {
        let r = sort_by_key_spec(s.drop_last());
        r.insert(insert_pos(r, s.last().0), s.last())
    }
}

proof fn lemma_insert_pos(s: Seq<(Seq<char>, Seq<char>)>, key: Seq<char>, p: int)
    requires
        0 <= p <= s.len(),
        forall|i: int| 0 <= i < p ==> !key_lt(key, #[trigger] s[i].0),
        p < s.len() ==> key_lt(key, s[p].0),
    ensures
        insert_pos(s, key) == p,
    decreases s.len(),
{
    if s.len() > 0 && p > 0 {
        let t = s.drop_first();
        assert forall|i: int| 0 <= i < p - 1 implies !key_lt(key, #[trigger] t[i].0) by {
            assert(t[i] == s[i + 1]);
        }
        if p < s.len() {
            assert(t[p - 1] == s[p]);
        }
        assert(!key_lt(key, s[0].0));
        lemma_insert_pos(t, key, p - 1);
    }
}

proof fn lemma_sort_len(s: Seq<(Seq<char>, Seq<char>)>)
    ensures
        sort_by_key_spec(s).len() == s.len(),
    decreases s.len(),
{
    if s.len() > 0 {
        lemma_sort_len(s.drop_last());
        lemma_insert_pos_range(sort_by_key_spec(s.drop_last()), s.last().0);
    }
}

proof fn lemma_insert_pos_range(s: Seq<(Seq<char>, Seq<char>)>, key: Seq<char>)
    ensures
        0 <= insert_pos(s, key) <= s.len(),
    decreases s.len(),
{
    if s.len() > 0 {
        lemma_insert_pos_range(s.drop_first(), key);
    }
}

proof fn lemma_key_lt_irrefl(a: Seq<char>)
    ensures
        !key_lt(a, a),
    decreases a.len(),
{
    if a.len() > 0 {
        lemma_key_lt_irrefl(a.drop_first());
    }
}

proof fn lemma_key_lt_trans(a: Seq<char>, b: Seq<char>, c: Seq<char>)
    requires
        key_lt(a, b),
        key_lt(b, c),
    ensures
        key_lt(a, c),
    decreases a.len(),
{
    if a.len() > 0 && b.len() > 0 && c.len() > 0 && a[0] == b[0] && b[0] == c[0] {
        lemma_key_lt_trans(a.drop_first(), b.drop_first(), c.drop_first());
    }
}

proof fn lemma_char_u32(c: char)
    ensures
        (c as u32) as int == c as int,
{
}

proof fn lemma_key_lt_total(a: Seq<char>, b: Seq<char>)
    requires
        !key_lt(a, b),
        !key_lt(b, a),
    ensures
        a == b,
    decreases a.len(),
{
    if a.len() > 0 && b.len() > 0 {
        if a[0] == b[0] {
            lemma_key_lt_total(a.drop_first(), b.drop_first());
            assert(a =~= seq![a[0]] + a.drop_first());
            assert(b =~= seq![b[0]] + b.drop_first());
        } else {
            lemma_char_u32(a[0]);
            lemma_char_u32(b[0]);
        }
    } else {
        assert(a.len() == 0 && b.len() == 0);
        assert(a =~= b);
    }
}

/// Pairs in order of their names: no name is smaller than one before it.
pub open spec fn sorted_by_key(s: Seq<(Seq<char>, Seq<char>)>) -> bool {
    forall|i: int, j: int| 0 <= i < j < s.len() ==> !key_lt(#[trigger] s[j].0, #[trigger] s[i].0)
}

proof fn lemma_insert_pos_spec(s: Seq<(Seq<char>, Seq<char>)>, key: Seq<char>)
    ensures
        forall|i: int| 0 <= i < insert_pos(s, key) ==> !key_lt(key, #[trigger] s[i].0),
        insert_pos(s, key) < s.len() ==> key_lt(key, s[insert_pos(s, key)].0),
    decreases s.len(),
{
    lemma_insert_pos_range(s, key);
    if s.len() > 0 && !key_lt(key, s[0].0) {
        let t = s.drop_first();
        lemma_insert_pos_spec(t, key);
        assert forall|i: int| 0 <= i < insert_pos(s, key) implies !key_lt(key, #[trigger] s[i].0) by {
            if i > 0 {
                assert(s[i] == t[i - 1]);
            }
        }
        lemma_insert_pos_range(t, key);
        assert(insert_pos(s, key) == 1 + insert_pos(t, key));
        if insert_pos(s, key) < s.len() {
            assert(s[insert_pos(s, key)] == t[insert_pos(t, key)]);
        }
    }
}

proof fn lemma_insert_sorted(r: Seq<(Seq<char>, Seq<char>)>, x: (Seq<char>, Seq<char>))
    requires
        sorted_by_key(r),
    ensures
        sorted_by_key(r.insert(insert_pos(r, x.0), x)),
{
    let p = insert_pos(r, x.0);
    lemma_insert_pos_range(r, x.0);
    lemma_insert_pos_spec(r, x.0);
    let n = r.insert(p, x);
    r.insert_ensures(p, x);
    assert forall|i: int, j: int| 0 <= i < j < n.len() implies !key_lt(
        #[trigger] n[j].0,
        #[trigger] n[i].0,
    ) by {
        if j < p {
            assert(n[i] == r[i] && n[j] == r[j]);
        } else if j == p {
            assert(n[i] == r[i]);
            assert(!key_lt(x.0, r[i].0));
        } else if i > p {
            assert(n[i] == r[i - 1] && n[j] == r[j - 1]);
        } else if i == p {
            assert(n[j] == r[j - 1]);
            assert(key_lt(x.0, r[p].0));
            if key_lt(r[j - 1].0, x.0) {
                if j - 1 > p {
                    assert(!key_lt(r[j - 1].0, r[p].0));
                    lemma_key_lt_trans(r[j - 1].0, x.0, r[p].0);
                } else {
                    lemma_key_lt_trans(r[p].0, x.0, r[p].0);
                    lemma_key_lt_irrefl(r[p].0);
                }
            }
        } else {
            assert(n[i] == r[i] && n[j] == r[j - 1]);
        }
    }
}

/// The WBI signing order: sorting puts the pairs in order of their names
/// and keeps every pair, as many times as it occurs.
pub proof fn sort_by_key_law(s: Seq<(Seq<char>, Seq<char>)>)
    ensures
        sorted_by_key(sort_by_key_spec(s)),
        sort_by_key_spec(s).to_multiset() == s.to_multiset(),
    decreases s.len(),
{
    if s.len() > 0 {
        let init = s.drop_last();
        sort_by_key_law(init);
        let r = sort_by_key_spec(init);
        lemma_insert_sorted(r, s.last());
        lemma_insert_pos_range(r, s.last().0);
        vstd::seq_lib::to_multiset_insert(r, insert_pos(r, s.last().0), s.last());
        assert(init.push(s.last()) =~= s);
        vstd::seq_lib::to_multiset_build(init, s.last());
    } else {
        assert(sort_by_key_spec(s) == s);
    }
}

/// `a < b` for strings, compared character by character.
pub fn str_lt(a: &str, b: &str) -> (res: bool)
    ensures
        res == key_lt(a@, b@),
{
    let x = str_chars(a);
    let y = str_chars(b);
    let mut i: usize = 0;
    assert(a@.skip(0) =~= a@ && b@.skip(0) =~= b@);
    while i < x.len() && i < y.len() && x[i] == y[i]
        invariant
            i <= x@.len(),
            i <= y@.len(),
            x@ == a@,
            y@ == b@,
            key_lt(a@, b@) == key_lt(a@.skip(i as int), b@.skip(i as int)),
        decreases x@.len() - i,
    {
        proof {
            let s = a@.skip(i as int);
            let t = b@.skip(i as int);
            assert(s.drop_first() =~= a@.skip(i + 1));
            assert(t.drop_first() =~= b@.skip(i + 1));
        }
        i = i + 1;
    }
    let ghost s = a@.skip(i as int);
    let ghost t = b@.skip(i as int);
    if i == x.len() {
        assert(s.len() == 0);
        i < y.len()
    } else if i == y.len() {
        assert(t.len() == 0);
        false
    } else {
        assert(s[0] == x@[i as int] && t[0] == y@[i as int]);
        (x[i] as u32) < (y[i] as u32)
    }
}

/// The query pairs sorted stably by name.
pub fn sort_query<'a>(q: &Vec<(&'a str, String)>) -> (res: Vec<(&'a str, String)>)
    ensures
        query_view(res@) == sort_by_key_spec(query_view(q@)),
{
    let mut r: Vec<(&'a str, String)> = Vec::new();
    let mut n: usize = 0;
    while n < q.len()
        invariant
            n <= q@.len(),
            query_view(r@) == sort_by_key_spec(query_view(q@.take(n as int))),
        decreases q@.len() - n,
    {
        let key = q[n].0;
        let ghost rv = query_view(r@);
        let mut p: usize = 0;
        while p < r.len() && !str_lt(key, r[p].0)
            invariant
                p <= r@.len(),
                rv == query_view(r@),
                forall|i: int| 0 <= i < p ==> !key_lt(key@, #[trigger] rv[i].0),
            decreases r@.len() - p,
        {
            p = p + 1;
        }
        proof {
            lemma_insert_pos(rv, key@, p as int);
        }
        let value = q[n].1.clone();
        r.insert(p, (key, value));
        proof {
            let qv = query_view(q@.take(n + 1));
            assert(query_view(q@.take(n as int)) =~= qv.drop_last());
            assert(qv.last() == (key@, value@));
            assert(query_view(r@) =~= rv.insert(p as int, (key@, value@)));
        }
        n = n + 1;
    }
    assert(q@.take(q@.len() as int) =~= q@);
    r
}

/// Characters that WBI signing removes from values: `!`, `'`, `(`, `)`, `*`.
pub open spec fn reserved_char(c: char) -> bool {
    c == '!' || c == '\'' || c == '(' || c == ')' || c == '*'
}

/// A value without its reserved characters.
pub open spec fn strip_reserved(v: Seq<char>) -> Seq<char>
    decreases v.len(),
{
    if v.len() == 0 {
        v
    } else if reserved_char(v.last()) {
        strip_reserved(v.drop_last())
    } else {
        strip_reserved(v.drop_last()).push(v.last())
    }
}

/// Removes the reserved characters from a value.
pub fn strip_reserved_exec(v: &str) -> (res: String)
    ensures
        res@ == strip_reserved(v@),
{
    let chars = str_chars(v);
    let mut res = String::new();
    let mut i: usize = 0;
    while i < chars.len()
        invariant
            i <= chars@.len(),
            chars@ == v@,
            res@ == strip_reserved(v@.take(i as int)),
        decreases chars@.len() - i,
    {
        let c = chars[i];
        if !(c == '!' || c == '\'' || c == '(' || c == ')' || c == '*') {
            push_char(&mut res, c);
        }
        assert(v@.take(i + 1).drop_last() =~= v@.take(i as int));
        i = i + 1;
    }
    assert(v@.take(v@.len() as int) =~= v@);
    res
}

/// The pairs that enter the WBI hash: sorted by name, values stripped.
pub open spec fn wbi_signed_pairs(q: Seq<(Seq<char>, Seq<char>)>) -> Seq<(Seq<char>, Seq<char>)> {
    sort_by_key_spec(q).map_values(|p: (Seq<char>, Seq<char>)| (p.0, strip_reserved(p.1)))
}

proof fn lemma_strip_is_filter(v: Seq<char>)
    ensures
        strip_reserved(v) == v.filter(|c: char| !reserved_char(c)),
    decreases v.len(),
{
    reveal(Seq::filter);
    if v.len() > 0 {
        lemma_strip_is_filter(v.drop_last());
    }
}

/// Stripping keeps, in order, exactly the characters of the value that are
/// not reserved: none of `!`, `'`, `(`, `)`, `*` is left.
pub proof fn strip_reserved_law(v: Seq<char>)
    ensures
        strip_reserved(v) == v.filter(|c: char| !reserved_char(c)),
        forall|k: int| 0 <= k < strip_reserved(v).len() ==> !reserved_char(#[trigger] strip_reserved(v)[k]),
{
    broadcast use vstd::seq_lib::group_filter_ensures;

    lemma_strip_is_filter(v);
}

/// The WBI signature at time `wts` appends `wts` and then `w_rid`: the
/// lowercase MD5 of the form encoding of all pairs, sorted by name, each
/// value without its reserved characters, followed by the mixin key. No
/// value that enters the hash holds a reserved character.
pub proof fn wbi_law(q: Seq<(Seq<char>, Seq<char>)>, mixin_key: Seq<char>, wts: int)
    ensures
        ({
            let q1 = q.push(("wts"@, dec_signed(wts)));
            let s = sort_by_key_spec(q1);
            let signed = Seq::new(
                s.len(),
                |i: int| (s[i].0, s[i].1.filter(|c: char| !reserved_char(c))),
            );
            &&& wbi_spec(q, mixin_key, wts) == q1.push(
                (
                    "w_rid"@,
                    hex_lower_spec(md5_digest(encode_utf8(form_urlencoded_spec(signed) + mixin_key))),
                ),
            )
            &&& forall|i: int, k: int|
                0 <= i < signed.len() && 0 <= k < signed[i].1.len() ==> !reserved_char(
                    #[trigger] signed[i].1[k],
                )
        }),
{
    let q1 = q.push(("wts"@, dec_signed(wts)));
    let s = sort_by_key_spec(q1);
    let signed = Seq::new(s.len(), |i: int| (s[i].0, s[i].1.filter(|c: char| !reserved_char(c))));
    assert forall|i: int| 0 <= i < s.len() implies #[trigger] wbi_signed_pairs(q1)[i] == signed[i] by {
        strip_reserved_law(s[i].1);
    }
    assert(wbi_signed_pairs(q1) =~= signed);
    assert forall|i: int, k: int|
        0 <= i < signed.len() && 0 <= k < signed[i].1.len() implies !reserved_char(
        #[trigger] signed[i].1[k],
    ) by {
        strip_reserved_law(s[i].1);
    }
}

/// Query pairs after WBI signing at Unix time `wts` (seconds): `wts` is
/// appended, then `w_rid`, the lowercase MD5 of the form encoding of the
/// signed pairs followed by the mixin key.
pub open spec fn wbi_spec(q: Seq<(Seq<char>, Seq<char>)>, mixin_key: Seq<char>, wts: int) -> Seq<
    (Seq<char>, Seq<char>),
> {
    let q1 = q.push(("wts"@, dec_signed(wts)));
    let text = form_urlencoded_spec(wbi_signed_pairs(q1)) + mixin_key;
    q1.push(("w_rid"@, hex_lower_spec(md5_digest(encode_utf8(text)))))
}

/// Signs the query for Unix time `wts`.
pub fn wbi_at<'a>(query: &mut Vec<(&'a str, String)>, mixin_key: &str, wts: i64)
    ensures
        query_view(final(query)@) == wbi_spec(query_view(old(query)@), mixin_key@, wts as int),
{
    let ghost q0 = query@;
    let now = i64_to_string(wts);
    query.push(("wts", now));
    assert(query_view(query@) =~= query_view(q0).push(("wts"@, dec_signed(wts as int))));
    let sorted = sort_query(query);
    let ghost sv = query_view(sorted@);
    proof { lemma_sort_len(query_view(query@)); }
    let mut signed: Vec<(&'a str, String)> = Vec::new();
    let mut i: usize = 0;
    while i < sorted.len()
        invariant
            i <= sorted@.len(),
            sv == query_view(sorted@),
            query_view(signed@) =~= sv.take(i as int).map_values(
                |p: (Seq<char>, Seq<char>)| (p.0, strip_reserved(p.1)),
            ),
        decreases sorted@.len() - i,
    {
        let v = strip_reserved_exec(sorted[i].1.as_str());
        let ghost before = query_view(signed@);
        signed.push((sorted[i].0, v));
        proof {
            assert(sv[i as int] == (sorted@[i as int].0@, sorted@[i as int].1@));
            assert(query_view(signed@) =~= before.push((sorted@[i as int].0@, v@)));
            assert(sv.take(i + 1) =~= sv.take(i as int).push(sv[i as int]));
        }
        i = i + 1;
    }
    assert(sv.take(sv.len() as int) =~= sv);
    let encoded = urlencode_pairs(signed.as_slice());
    let mut text = encoded;
    push_str(&mut text, mixin_key);
    let w_rid = md5_hex(text.as_str().as_bytes());
    let ghost q1 = query@;
    query.push(("w_rid", w_rid));
    assert(query_view(query@) =~= query_view(q1).push(("w_rid"@, w_rid@)));
}

/// Signs the query for the current time.
pub fn wbi<'a>(query: &mut Vec<(&'a str, String)>, mixin_key: &str)
    ensures
        exists|wts: i64| query_view(final(query)@) == wbi_spec(query_view(old(query)@), mixin_key@, wts as int),
{
    let now = now_seconds();
    wbi_at(query, mixin_key, now);
}

// ---------------------------------------------------------------------------
// Requests and replies
// ---------------------------------------------------------------------------

/// Errors of the video-site API that the library decides.
pub enum BiliError {
    /// The reply had an HTTP status other than 200.
    Status(u16),
    /// The API asks for a captcha; the voucher identifies it.
    Voucher(String),
    /// The video does not exist.
    NotFound,
    /// The request was refused by risk control.
    RiskControl,
    /// An API code the library does not know.
    Api(String),
}

/// `Err(Status(status))` unless the status is 200.
pub fn check_status(status: u16) -> (res: Result<(), BiliError>)
    ensures
        status == 200 <==> res is Ok,
        status != 200 ==> (res matches Err(BiliError::Status(s)) && s == status),
{
    if status != 200 {
        Err(BiliError::Status(status))
    } else {
        Ok(())
    }
}

/// The message for an unknown API code.
pub open spec fn unknown_code_message(code: i64) -> Seq<char> {
    "未知状态码 "@ + dec_signed(code as int)
}

/// What a reply with API `code` means: success codes `0` and `-352` go on
/// unless a captcha voucher came with them (the header's first, then the
/// data's); `-404`, `62002` and `62004` mean not found; `412` means risk
/// control; anything else is an unknown code.
pub fn classify_reply(code: i64, header_voucher: Option<String>, data_voucher: Option<String>) -> (res:
    Result<(), BiliError>)
    ensures
        (code == 0 || code == -352) ==> match header_voucher {
            Some(v) => (res matches Err(BiliError::Voucher(w)) && w@ == v@),
            None => match data_voucher {
                Some(v) => (res matches Err(BiliError::Voucher(w)) && w@ == v@),
                None => res is Ok,
            },
        },
        (code == -404 || code == 62002 || code == 62004) ==> res matches Err(BiliError::NotFound),
        code == 412 ==> res matches Err(BiliError::RiskControl),
        !(code == 0 || code == -352 || code == -404 || code == 62002 || code == 62004 || code
            == 412) ==> (res matches Err(BiliError::Api(m)) && m@ == unknown_code_message(code)),
{
    if code == 0 || code == -352 {
        if let Some(v) = header_voucher {
            return Err(BiliError::Voucher(v));
        } else if let Some(v) = data_voucher {
            return Err(BiliError::Voucher(v));
        }
        Ok(())
    } else if code == -404 || code == 62002 || code == 62004 {
        Err(BiliError::NotFound)
    } else if code == 412 {
        Err(BiliError::RiskControl)
    } else {
        let mut m = String::new();
        push_str(&mut m, "未知状态码 ");
        push_str(&mut m, i64_to_string(code).as_str());
        Err(BiliError::Api(m))
    }
}

/// `k=v` pairs joined by `; `.
pub open spec fn cookie_header_spec(cookies: Seq<(Seq<char>, Seq<char>)>) -> Seq<char>
    decreases cookies.len(),
{
    if cookies.len() == 0 {
        Seq::empty()
    } else if cookies.len() == 1 {
        cookies[0].0 + seq!['='] + cookies[0].1
    } else {
        cookie_header_spec(cookies.drop_last()) + seq![';', ' '] + cookies.last().0 + seq!['=']
            + cookies.last().1
    }
}

/// The `cookie` header value for the given cookies.
pub fn cookie_header<'a>(cookies: &[(&'a str, String)]) -> (res: String)
    ensures
        res@ == cookie_header_spec(query_view(cookies@)),
{
    let mut res = String::new();
    let mut i: usize = 0;
    while i < cookies.len()
        invariant
            i <= cookies@.len(),
            res@ == cookie_header_spec(query_view(cookies@.take(i as int))),
        decreases cookies@.len() - i,
    {
        let ghost before = res@;
        if i != 0 {
            push_str(&mut res, "; ");
        }
        push_str(&mut res, cookies[i].0);
        push_char(&mut res, '=');
        push_str(&mut res, cookies[i].1.as_str());
        proof {
            reveal_strlit("; ");
            let v = query_view(cookies@.take(i + 1));
            assert(query_view(cookies@.take(i as int)) =~= v.drop_last());
            if i == 0 {
                assert(res@ =~= cookie_header_spec(v));
            } else {
                assert(res@ =~= cookie_header_spec(v));
            }
        }
        i = i + 1;
    }
    assert(cookies@.take(cookies@.len() as int) =~= cookies@);
    res
}

/// The session token sent with a browser id: the lowercase MD5 of the id
/// followed by the time in milliseconds.
pub open spec fn session_token_spec(buvid3: Seq<char>, now_ms: i64) -> Seq<char> {
    hex_lower_spec(md5_digest(encode_utf8(buvid3 + dec_signed(now_ms as int))))
}

/// Computes `session_token_spec`.
pub fn session_token(buvid3: &str, now_ms: i64) -> (res: String)
    ensures
        res@ == session_token_spec(buvid3@, now_ms),
{
    let mut text = String::new();
    push_str(&mut text, buvid3);
    push_str(&mut text, i64_to_string(now_ms).as_str());
    md5_hex(text.as_str().as_bytes())
}

/// Adds the browser-id cookies and the captcha token cookie, in this order.
pub fn add_fetch_cookies<'a>(
    cookies: &mut Vec<(&'a str, String)>,
    buvid: Option<(String, String)>,
    grisk_id: Option<String>,
)
    ensures
        query_view(final(cookies)@) == query_view(old(cookies)@) + (match buvid {
            Some((b3, b4)) => seq![("buvid3"@, b3@), ("buvid4"@, b4@)],
            None => Seq::empty(),
        }) + (match grisk_id {
            Some(g) => seq![("x-bili-gaia-vtoken"@, g@)],
            None => Seq::empty(),
        }),
{
    let ghost c0 = query_view(cookies@);
    let ghost bv = buvid;
    let ghost gv = grisk_id;
    if let Some((b3, b4)) = buvid {
        cookies.push(("buvid3", b3));
        cookies.push(("buvid4", b4));
    }
    let ghost c1 = query_view(cookies@);
    if let Some(g) = grisk_id {
        cookies.push(("x-bili-gaia-vtoken", g));
    }
    proof {
        match bv {
            Some((b3, b4)) => {
                assert(c1 =~= c0 + seq![("buvid3"@, b3@), ("buvid4"@, b4@)]);
            },
            None => {
                assert(c1 =~= c0 + Seq::<(Seq<char>, Seq<char>)>::empty());
            },
        }
        match gv {
            Some(g) => {
                assert(query_view(cookies@) =~= c1 + seq![("x-bili-gaia-vtoken"@, g@)]);
            },
            None => {
                assert(query_view(cookies@) =~= c1 + Seq::<(Seq<char>, Seq<char>)>::empty());
            },
        }
    }
}

/// The characters of an optional string slice.
pub open spec fn opt_view(s: Option<&str>) -> Option<Seq<char>> {
    match s {
        Some(t) => Some(t@),
        None => None,
    }
}

/// The query of a signed API request at time `now_ms` (milliseconds) and
/// `wts` (seconds): a `session` token when a browser id is known, then WBI.
pub open spec fn signed_query_spec(
    q: Seq<(Seq<char>, Seq<char>)>,
    mixin_key: Seq<char>,
    buvid3: Option<Seq<char>>,
    now_ms: i64,
    wts: i64,
) -> Seq<(Seq<char>, Seq<char>)> {
    let q1 = match buvid3 {
        Some(b3) => q.push(("session"@, session_token_spec(b3, now_ms))),
        None => q,
    };
    wbi_spec(q1, mixin_key, wts as int)
}

/// Adds the session token (when a browser id is known) and the WBI signature.
pub fn sign_query_at<'a>(
    query: &mut Vec<(&'a str, String)>,
    mixin_key: &str,
    buvid3: Option<&str>,
    now_ms: i64,
    wts: i64,
)
    ensures
        query_view(final(query)@) == signed_query_spec(
            query_view(old(query)@),
            mixin_key@,
            opt_view(buvid3),
            now_ms,
            wts,
        ),
{
    let ghost q0 = query_view(query@);
    if let Some(b3) = buvid3 {
        let session = session_token(b3, now_ms);
        query.push(("session", session));
        assert(query_view(query@) =~= q0.push(("session"@, session_token_spec(b3@, now_ms))));
    }
    wbi_at(query, mixin_key, wts);
}

/// Adds the session token and the WBI signature for the current time.
pub fn sign_query<'a>(query: &mut Vec<(&'a str, String)>, mixin_key: &str, buvid3: Option<&str>)
    ensures
        exists|now_ms: i64, wts: i64|
            query_view(final(query)@) == #[trigger] signed_query_spec(
                query_view(old(query)@),
                mixin_key@,
                opt_view(buvid3),
                now_ms,
                wts,
            ),
{
    let now_ms = now_millis();
    let wts = now_seconds();
    sign_query_at(query, mixin_key, buvid3, now_ms, wts);
}

/// The `referer` of requests about a video.
pub open spec fn referer_spec(bvid: Seq<char>) -> Seq<char> {
    "https://www.bilibili.com/video/"@ + bvid + seq!['/']
}

/// Computes `referer_spec`.
pub fn referer(bvid: &str) -> (res: String)
    ensures
        res@ == referer_spec(bvid@),
{
    let mut res = String::new();
    push_str(&mut res, "https://www.bilibili.com/video/");
    push_str(&mut res, bvid);
    push_char(&mut res, '/');
    res
}

/// Name of the cache file of a video's details.
pub fn info_cache_name(bvid: &str) -> (res: String)
    ensures
        res@ == bvid@ + ".json"@,
{
    let mut res = String::new();
    push_str(&mut res, bvid);
    push_str(&mut res, ".json");
    res
}

/// Name of the cache file of a video's stream list.
pub fn playurl_cache_name(bvid: &str) -> (res: String)
    ensures
        res@ == bvid@ + "_playurl.json"@,
{
    let mut res = String::new();
    push_str(&mut res, bvid);
    push_str(&mut res, "_playurl.json");
    res
}

/// The query of a video-details request.
pub open spec fn info_query_spec(aid: u64, grisk_id: Option<Seq<char>>) -> Seq<(Seq<char>, Seq<char>)> {
    let q = seq![
        ("aid"@, dec(aid as nat)),
        ("need_view"@, "1"@),
        ("isGaiaAvoided"@, "false"@),
        ("web_location"@, "1315873"@),
    ];
    match grisk_id {
        Some(g) => q.push(("gaia_vtoken"@, g)),
        None => q,
    }
}

/// Builds the query of a video-details request.
pub fn info_query(aid: u64, grisk_id: Option<&str>) -> (res: Vec<(&'static str, String)>)
    ensures
        query_view(res@) == info_query_spec(aid, opt_view(grisk_id)),
        res@[0].0@ == "aid"@ && res@[0].1@ == dec(aid as nat),
{
    let mut q: Vec<(&'static str, String)> = Vec::new();
    q.push(("aid", u64_to_string(aid)));
    q.push(("need_view", "1".to_owned()));
    q.push(("isGaiaAvoided", "false".to_owned()));
    q.push(("web_location", "1315873".to_owned()));
    if let Some(g) = grisk_id {
        q.push(("gaia_vtoken", g.to_owned()));
    }
    assert(query_view(q@) =~= info_query_spec(aid, opt_view(grisk_id)));
    proof {
        info_query_law(aid, opt_view(grisk_id));
        assert(query_view(q@)[0] == (q@[0].0@, q@[0].1@));
    }
    q
}

/// The query of a stream-list request.
pub open spec fn playurl_query_spec(aid: u64, bvid: Seq<char>, cid: i64, qn: u32) -> Seq<
    (Seq<char>, Seq<char>),
> {
    seq![
        ("avid"@, dec(aid as nat)),
        ("bvid"@, bvid),
        ("cid"@, dec_signed(cid as int)),
        ("qn"@, dec(qn as nat)),
        ("fnver"@, "0"@),
        ("fnval"@, "4048"@),
        ("fourk"@, "1"@),
        ("gaia_source"@, ""@),
        ("from_client"@, "BROWSER"@),
        ("is_main_page"@, "true"@),
        ("need_fragment"@, "false"@),
        ("isGaiaAvoided"@, "false"@),
        ("client_attr"@, "0"@),
        ("version_name"@, "4.9.96-rc.5539.0"@),
        ("app_id"@, "100"@),
        ("voice_balance"@, "1"@),
        ("try_look"@, "1"@),
        ("web_location"@, "1315873"@),
    ]
}

/// A stream-list query names the video by `avid` = `aid` and `bvid`, the
/// part by `cid` and the quality by `qn`, in its first four pairs, each in
/// decimal; eighteen pairs in all.
pub proof fn playurl_query_law(aid: u64, bvid: Seq<char>, cid: i64, qn: u32)
    ensures
        playurl_query_spec(aid, bvid, cid, qn).len() == 18,
        playurl_query_spec(aid, bvid, cid, qn)[0] == ("avid"@, dec(aid as nat)),
        playurl_query_spec(aid, bvid, cid, qn)[1] == ("bvid"@, bvid),
        playurl_query_spec(aid, bvid, cid, qn)[2] == ("cid"@, dec_signed(cid as int)),
        playurl_query_spec(aid, bvid, cid, qn)[3] == ("qn"@, dec(qn as nat)),
{
}

/// A video-details query names the video by `aid` in its first pair, in
/// decimal, and ends with the captcha token when there is one.
pub proof fn info_query_law(aid: u64, grisk_id: Option<Seq<char>>)
    ensures
        info_query_spec(aid, grisk_id)[0] == ("aid"@, dec(aid as nat)),
        info_query_spec(aid, grisk_id).len() == if grisk_id is Some { 5int } else { 4int },
        grisk_id matches Some(g) ==> info_query_spec(aid, grisk_id)[4] == ("gaia_vtoken"@, g),
{
}

/// Builds the query of a stream-list request with quality `qn`.
pub fn playurl_query(aid: u64, bvid: &str, cid: i64, qn: u32) -> (res: Vec<(&'static str, String)>)
    ensures
        query_view(res@) == playurl_query_spec(aid, bvid@, cid, qn),
        res@.len() == 18,
        res@[0].0@ == "avid"@ && res@[0].1@ == dec(aid as nat),
        res@[1].0@ == "bvid"@ && res@[1].1@ == bvid@,
        res@[2].0@ == "cid"@ && res@[2].1@ == dec_signed(cid as int),
        res@[3].0@ == "qn"@ && res@[3].1@ == dec(qn as nat),
{
    let mut q: Vec<(&'static str, String)> = Vec::new();
    q.push(("avid", u64_to_string(aid)));
    q.push(("bvid", bvid.to_owned()));
    q.push(("cid", i64_to_string(cid)));
    q.push(("qn", u64_to_string(qn as u64)));
    q.push(("fnver", "0".to_owned()));
    q.push(("fnval", "4048".to_owned()));
    q.push(("fourk", "1".to_owned()));
    q.push(("gaia_source", "".to_owned()));
    q.push(("from_client", "BROWSER".to_owned()));
    q.push(("is_main_page", "true".to_owned()));
    q.push(("need_fragment", "false".to_owned()));
    q.push(("isGaiaAvoided", "false".to_owned()));
    q.push(("client_attr", "0".to_owned()));
    q.push(("version_name", "4.9.96-rc.5539.0".to_owned()));
    q.push(("app_id", "100".to_owned()));
    q.push(("voice_balance", "1".to_owned()));
    q.push(("try_look", "1".to_owned()));
    q.push(("web_location", "1315873".to_owned()));
    assert(query_view(q@) =~= playurl_query_spec(aid, bvid@, cid, qn));
    proof {
        playurl_query_law(aid, bvid@, cid, qn);
        assert(query_view(q@)[0] == (q@[0].0@, q@[0].1@));
        assert(query_view(q@)[1] == (q@[1].0@, q@[1].1@));
        assert(query_view(q@)[2] == (q@[2].0@, q@[2].1@));
        assert(query_view(q@)[3] == (q@[3].0@, q@[3].1@));
    }
    q
}

/// What fetching a video's description needs: the cache file, the
/// unsigned parameters and the `referer` header.
pub struct InfoRequest {
    pub cache_name: String,
    pub query: Vec<(&'static str, String)>,
    pub referer: String,
}

/// The request for the description of video `aid` / `bvid`, with the
/// captcha token when one was obtained.
pub fn info_request(aid: u64, bvid: &str, grisk_id: Option<&str>) -> (res: InfoRequest)
    ensures
        res.cache_name@ == bvid@ + ".json"@,
        query_view(res.query@) == info_query_spec(aid, opt_view(grisk_id)),
        res.referer@ == referer_spec(bvid@),
{
    InfoRequest {
        cache_name: info_cache_name(bvid),
        query: info_query(aid, grisk_id),
        referer: referer(bvid),
    }
}

} // verus!
