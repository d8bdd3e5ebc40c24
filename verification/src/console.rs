//! Command-line helpers of the downloader: column alignment, indentation of
//! multi-line text and cookie parsing.
use vstd::prelude::*;

use unicode_width::UnicodeWidthStr;

use crate::parse::{trim, trim_spec};
use crate::text::{find_char, find_char_exec, push_char, push_str, slice_to_string, str_chars};

verus! {

/// The displayed width of a string in terminal columns
/// (`UnicodeWidthStr::width`).
pub uninterp spec fn display_width(s: Seq<char>) -> nat;

/// `UnicodeWidthStr::width(s)`, named by `display_width`.
#[verifier::external_body]
fn unicode_width(s: &str) -> (w: usize)
    ensures
        w as nat == display_width(s@),
{
    UnicodeWidthStr::width(s)
}

/// `n` spaces.
pub open spec fn spaces(n: nat) -> Seq<char> {
    Seq::new(n, |k: int| ' ')
}

/// `s` followed by spaces up to `width` columns, given that `s` is `w`
/// columns wide; nothing is added when `s` is already that wide.
pub fn pad_to_width(s: &str, w: usize, width: usize) -> (res: String)
    ensures
        res@ == s@ + spaces(if w < width { (width - w) as nat } else { 0 }),
{
    let padding: usize = if w < width { width - w } else { 0 };
    let mut res = String::new();
    push_str(&mut res, s);
    let mut k: usize = 0;
    while k < padding
        invariant
            k <= padding,
            res@ == s@ + spaces(k as nat),
        decreases padding - k,
    {
        push_char(&mut res, ' ');
        k = k + 1;
        assert(res@ =~= s@ + spaces(k as nat));
    }
    res
}

/// Pads `s` with spaces on the right to `width` display columns.
pub fn align_left(s: &str, width: usize) -> (res: String)
    ensures
        res@ == s@ + spaces(
            if display_width(s@) < width {
                (width - display_width(s@)) as nat
            } else {
                0
            },
        ),
{
    let w = unicode_width(s);
    pad_to_width(s, w, width)
}

/// `s` with every newline followed by `count` spaces.
pub open spec fn indent_newlines(s: Seq<char>, count: nat) -> Seq<char>
    decreases s.len(),
{
    if s.len() == 0 {
        s
    } else {
        let head = if s.last() == '\n' {
            seq!['\n'] + spaces(count)
        } else {
            seq![s.last()]
        };
        indent_newlines(s.drop_last(), count) + head
    }
}

/// Indents the continuation lines of `s` by `count` spaces.
pub fn padding_left(s: &str, count: usize) -> (res: String)
    ensures
        res@ == indent_newlines(s@, count as nat),
{
    let chars = str_chars(s);
    let mut padding = String::new();
    push_char(&mut padding, '\n');
    let mut k: usize = 0;
    while k < count
        invariant
            k <= count,
            padding@ == seq!['\n'] + spaces(k as nat),
        decreases count - k,
    {
        push_char(&mut padding, ' ');
        k = k + 1;
        assert(padding@ =~= seq!['\n'] + spaces(k as nat));
    }
    let mut res = String::new();
    let mut i: usize = 0;
    while i < chars.len()
        invariant
            i <= chars@.len(),
            chars@ == s@,
            padding@ == seq!['\n'] + spaces(count as nat),
            res@ == indent_newlines(s@.take(i as int), count as nat),
        decreases chars@.len() - i,
    {
        if chars[i] == '\n' {
            push_str(&mut res, padding.as_str());
        } else {
            push_char(&mut res, chars[i]);
        }
        assert(s@.take(i + 1).drop_last() =~= s@.take(i as int));
        i = i + 1;
    }
    assert(s@.take(s@.len() as int) =~= s@);
    res
}

/// The cookie in one `;`-separated segment: the trimmed text before the first
/// `=` and the trimmed text after it; no cookie without `=`.
pub open spec fn cookie_of(seg: Seq<char>) -> Option<(Seq<char>, Seq<char>)> {
    let t = trim_spec(seg);
    match find_char(t, '=') {
        Some(i) => Some((trim_spec(t.take(i)), trim_spec(t.skip(i + 1)))),
        None => None,
    }
}

/// The cookies of all `;`-separated segments, in order.
pub open spec fn parse_cookies_spec(s: Seq<char>) -> Seq<(Seq<char>, Seq<char>)>
    decreases s.len(),
{
    let (seg, rest) = match find_char(s, ';') {
        Some(i) => (s.take(i), Some(s.skip(i + 1))),
        None => (s, None),
    };
    let head = match cookie_of(seg) {
        Some(p) => seq![p],
        None => Seq::empty(),
    };
    match rest {
        Some(r) => if r.len() < s.len() {
            head + parse_cookies_spec(r)
        } else {
            head
        },
        None => head,
    }
}

/// The characters of owned string pairs.
pub open spec fn pairs_view(v: Seq<(String, String)>) -> Seq<(Seq<char>, Seq<char>)> {
    v.map_values(|p: (String, String)| (p.0@, p.1@))
}

proof fn lemma_find_in_range(s: Seq<char>, c: char)
    ensures
        find_char(s, c) matches Some(i) ==> 0 <= i < s.len(),
    decreases s.len(),
{
    if s.len() > 0 {
        lemma_find_in_range(s.drop_first(), c);
    }
}

fn cookie_of_exec(seg: &str) -> (res: Option<(String, String)>)
    ensures
        match res {
            Some(p) => cookie_of(seg@) == Some((p.0@, p.1@)),
            None => cookie_of(seg@) is None,
        },
{
    let t = trim(seg);
    let chars = str_chars(t.as_str());
    let n = chars.len();
    proof { lemma_find_in_range(t@, '='); }
    match find_char_exec(chars.as_slice(), '=') {
        Some(i) => {
            assert(i < n);
            let key = slice_to_string(chars.as_slice(), 0, i);
            let value = slice_to_string(chars.as_slice(), i + 1, n);
            assert(key@ =~= t@.take(i as int));
            assert(value@ =~= t@.skip(i + 1));
            Some((trim(key.as_str()), trim(value.as_str())))
        },
        None => None,
    }
}

/// Parses `k1=v1; k2=v2; ...` into trimmed pairs, skipping segments without
/// `=`.
pub fn parse_cookies(cookies: &str) -> (res: Vec<(String, String)>)
    ensures
        pairs_view(res@) == parse_cookies_spec(cookies@),
{
    let mut res: Vec<(String, String)> = Vec::new();
    let mut rest = cookies.to_owned();
    loop
        invariant_except_break
            parse_cookies_spec(cookies@) == pairs_view(res@) + parse_cookies_spec(rest@),
        ensures
            parse_cookies_spec(cookies@) == pairs_view(res@),
        decreases rest@.len(),
    {
        let chars = str_chars(rest.as_str());
        let n = chars.len();
        proof { lemma_find_in_range(rest@, ';'); }
        let ghost before = pairs_view(res@);
        match find_char_exec(chars.as_slice(), ';') {
            Some(i) => {
                assert(i < n);
                let seg = slice_to_string(chars.as_slice(), 0, i);
                let next = slice_to_string(chars.as_slice(), i + 1, n);
                assert(seg@ =~= rest@.take(i as int));
                assert(next@ =~= rest@.skip(i + 1));
                if let Some(p) = cookie_of_exec(seg.as_str()) {
                    res.push(p);
                }
                proof {
                    match cookie_of(seg@) {
                        Some(p) => {
                            assert(pairs_view(res@) =~= before.push(p));
                        },
                        None => {
                            assert(pairs_view(res@) =~= before);
                        },
                    }
                    assert(pairs_view(res@) + parse_cookies_spec(next@) =~= before
                        + parse_cookies_spec(rest@));
                }
                rest = next;
            },
            None => {
                if let Some(p) = cookie_of_exec(rest.as_str()) {
                    res.push(p);
                }
                proof {
                    match cookie_of(rest@) {
                        Some(p) => {
                            assert(pairs_view(res@) =~= before.push(p));
                        },
                        None => {
                            assert(pairs_view(res@) =~= before);
                        },
                    }
                    assert(pairs_view(res@) =~= before + parse_cookies_spec(rest@));
                }
                break;
            },
        }
    }
    res
}

/// Options of the downloader.
pub struct Options {
    /// Only show the streams, do not download.
    pub info: bool,
    /// Cookies sent with every request.
    pub cookies: Vec<(String, String)>,
}

impl Options {
    /// No options: download, without cookies.
    pub fn new() -> (res: Self)
        ensures
            !res.info,
            res.cookies@.len() == 0,
    {
        Options { info: false, cookies: Vec::new() }
    }
}

} // verus!
