//! The caption sent for a video: the page chosen, the title escaped for
//! HTML, the uploader, and the description cut to a size.
use vstd::prelude::*;

use crate::bili::{parse_desc, parse_desc_spec, DescItem};
use crate::text::{dec, push_char, push_str, str_chars, str_eq, u64_to_string};
use vstd::utf8::{encode_scalar, encode_utf8};

verus! {

/// Largest size, in UTF-8 bytes, of the description in a caption.
pub const DESC_LIMIT: usize = 900;

/// One part of a video.
#[derive(Clone, Copy)]
pub struct Page {
    /// Its number, from 1.
    pub page: u16,
    /// Its content id.
    pub cid: i64,
}

/// The uploader of a video.
pub struct Owner {
    pub mid: u64,
    pub name: String,
}

/// What the video API says of a video.
pub struct BiliInfo {
    pub bvid: String,
    pub title: String,
    pub pic: String,
    pub desc_v2: Option<Vec<DescItem>>,
    pub owner: Owner,
    pub pages: Vec<Page>,
}

/// The first part with number `p`.
pub open spec fn find_page_spec(pages: Seq<Page>, p: u16) -> Option<Page>
    decreases pages.len(),
{
    if pages.len() == 0 {
        None
    } else if pages[0].page == p {
        Some(pages[0])
    } else {
        find_page_spec(pages.drop_first(), p)
    }
}

/// Finds the first part with number `p` (see `find_page_spec`).
pub fn find_page(pages: &Vec<Page>, p: u16) -> (res: Option<Page>)
    ensures
        res == find_page_spec(pages@, p),
{
    let mut i: usize = 0;
    assert(pages@.skip(0) =~= pages@);
    while i < pages.len()
        invariant
            i <= pages@.len(),
            find_page_spec(pages@, p) == find_page_spec(pages@.skip(i as int), p),
        decreases pages@.len() - i,
    {
        assert(pages@.skip(i as int).drop_first() =~= pages@.skip(i + 1));
        assert(pages@.skip(i as int)[0] == pages@[i as int]);
        if pages[i].page == p {
            return Some(pages[i]);
        }
        i = i + 1;
    }
    None
}

/// HTML escaping of a title: `&`, `<` and `>` as entities.
pub open spec fn escape_html(s: Seq<char>) -> Seq<char>
    decreases s.len(),
{
    if s.len() == 0 {
        Seq::empty()
    } else {
        let c = s.last();
        escape_html(s.drop_last()) + if c == '&' {
            "&amp;"@
        } else if c == '<' {
            "&lt;"@
        } else if c == '>' {
            "&gt;"@
        } else {
            seq![c]
        }
    }
}

/// Reading entities back: `&amp;`, `&lt;` and `&gt;` become `&`, `<` and
/// `>`; every other character stays.
pub open spec fn unescape_html(t: Seq<char>) -> Seq<char>
    decreases t.len(),
{
    if t.len() == 0 {
        t
    } else if t.len() >= 5 && t.take(5) == "&amp;"@ {
        seq!['&'] + unescape_html(t.skip(5))
    } else if t.len() >= 4 && t.take(4) == "&lt;"@ {
        seq!['<'] + unescape_html(t.skip(4))
    } else if t.len() >= 4 && t.take(4) == "&gt;"@ {
        seq!['>'] + unescape_html(t.skip(4))
    } else {
        seq![t[0]] + unescape_html(t.skip(1))
    }
}

/// The escaped form of one character.
pub open spec fn escape_char(c: char) -> Seq<char> {
    if c == '&' {
        "&amp;"@
    } else if c == '<' {
        "&lt;"@
    } else if c == '>' {
        "&gt;"@
    } else {
        seq![c]
    }
}

proof fn lemma_escape_front(c: char, s: Seq<char>)
    ensures
        escape_html(seq![c] + s) == escape_char(c) + escape_html(s),
    decreases s.len(),
{
    let cs = seq![c] + s;
    if s.len() == 0 {
        assert(cs.drop_last() =~= Seq::<char>::empty());
        assert(cs.last() == c);
        assert(escape_html(Seq::<char>::empty()) == Seq::<char>::empty());
        assert(escape_html(cs) =~= escape_char(c));
    } else {
        lemma_escape_front(c, s.drop_last());
        assert(cs.drop_last() =~= seq![c] + s.drop_last());
        assert(cs.last() == s.last());
        assert(escape_html(cs) =~= escape_char(c) + escape_html(s));
    }
}

/// Escaping loses nothing: reading the entities back gives the title.
pub proof fn escape_html_roundtrip(s: Seq<char>)
    ensures
        unescape_html(escape_html(s)) == s,
    decreases s.len(),
{
    reveal_strlit("&amp;");
    reveal_strlit("&lt;");
    reveal_strlit("&gt;");
    if s.len() > 0 {
        let c = s[0];
        let rest = s.drop_first();
        assert(s =~= seq![c] + rest);
        lemma_escape_front(c, rest);
        escape_html_roundtrip(rest);
        let e = escape_char(c);
        let t = e + escape_html(rest);
        assert(t.skip(e.len() as int) =~= escape_html(rest));
        if c == '&' {
            assert(t.take(5) =~= "&amp;"@);
        } else if c == '<' {
            assert(t.take(4) =~= "&lt;"@);
            if t.len() >= 5 {
                assert(t.take(5)[1] == 'l');
            }
        } else if c == '>' {
            assert(t.take(4) =~= "&gt;"@);
            if t.len() >= 5 {
                assert(t.take(5)[1] == 'g');
            }
            assert(t.take(4)[1] == 'g');
        } else {
            assert(t[0] == c);
            if t.len() >= 5 {
                assert(t.take(5)[0] == c);
            }
            if t.len() >= 4 {
                assert(t.take(4)[0] == c);
            }
        }
        assert(unescape_html(t) =~= seq![c] + unescape_html(escape_html(rest)));
    }
}

/// Escapes a title (see `escape_html`).
pub fn escape_html_exec(s: &str) -> (res: String)
    ensures
        res@ == escape_html(s@),
{
    let chars = str_chars(s);
    let mut res = String::new();
    let mut i: usize = 0;
    while i < chars.len()
        invariant
            i <= chars@.len(),
            chars@ == s@,
            res@ == escape_html(s@.take(i as int)),
        decreases chars@.len() - i,
    {
        assert(s@.take(i + 1).drop_last() =~= s@.take(i as int));
        let c = chars[i];
        if c == '&' {
            push_str(&mut res, "&amp;");
        } else if c == '<' {
            push_str(&mut res, "&lt;");
        } else if c == '>' {
            push_str(&mut res, "&gt;");
        } else {
            push_char(&mut res, c);
        }
        i = i + 1;
    }
    assert(s@.take(s@.len() as int) =~= s@);
    res
}

/// The number of bytes of a character in UTF-8.
pub open spec fn utf8_width(c: char) -> int {
    if (c as u32) < 0x80 {
        1
    } else if (c as u32) < 0x800 {
        2
    } else if (c as u32) < 0x10000 {
        3
    } else {
        4
    }
}

/// How many leading characters of `s` fit in `max` UTF-8 bytes.
pub open spec fn fit_count(s: Seq<char>, max: int) -> nat
    decreases s.len(),
{
    if s.len() == 0 || utf8_width(s[0]) > max {
        0
    } else {
        1 + fit_count(s.drop_first(), max - utf8_width(s[0]))
    }
}

/// The longest beginning of `s` that takes at most `max` bytes in UTF-8; a
/// character is never cut.
pub open spec fn safe_truncate_spec(s: Seq<char>, max: int) -> Seq<char> {
    s.take(fit_count(s, max) as int)
}

proof fn lemma_fit_count_le(s: Seq<char>, max: int)
    ensures
        fit_count(s, max) <= s.len(),
    decreases s.len(),
{
    if s.len() > 0 && utf8_width(s[0]) <= max {
        lemma_fit_count_le(s.drop_first(), max - utf8_width(s[0]));
    }
}

proof fn lemma_scalar_width(c: char)
    ensures
        encode_scalar(c as u32).len() == utf8_width(c),
{
}

proof fn lemma_size_is_encoding(s: Seq<char>)
    ensures
        utf8_size(s) == encode_utf8(s).len(),
    decreases s.len(),
{
    if s.len() > 0 {
        lemma_scalar_width(s[0]);
        lemma_size_is_encoding(s.drop_first());
    }
}

proof fn lemma_fit_is_longest(s: Seq<char>, max: int)
    ensures
        fit_count(s, max) < s.len() ==> utf8_size(s.take((fit_count(s, max) + 1) as int)) > max,
    decreases s.len(),
{
    lemma_fit_count_le(s, max);
    if fit_count(s, max) < s.len() {
        let n = fit_count(s, max);
        let t = s.take((n + 1) as int);
        assert(t[0] == s[0]);
        assert(utf8_size(t) == utf8_width(s[0]) + utf8_size(t.drop_first()));
        if utf8_width(s[0]) > max {
            assert(t.drop_first() =~= Seq::<char>::empty());
            assert(utf8_size(t.drop_first()) == 0);
        } else {
            let rest = s.drop_first();
            let m = max - utf8_width(s[0]);
            assert(n == 1 + fit_count(rest, m));
            lemma_fit_is_longest(rest, m);
            assert(t.drop_first() =~= rest.take((fit_count(rest, m) + 1) as int));
        }
    }
}

/// Measured by its UTF-8 encoding, a cut text takes at most `max` bytes, is
/// a beginning of the text, and is the longest beginning that fits: one
/// more character would take more than `max` bytes.
pub proof fn safe_truncate_utf8_law(s: Seq<char>, max: nat)
    ensures
        encode_utf8(safe_truncate_spec(s, max as int)).len() <= max,
        safe_truncate_spec(s, max as int) == s.take(safe_truncate_spec(s, max as int).len() as int),
        safe_truncate_spec(s, max as int).len() < s.len() ==> encode_utf8(
            s.take((safe_truncate_spec(s, max as int).len() + 1) as int),
        ).len() > max,
{
    let n = fit_count(s, max as int);
    lemma_fit_size(s, max as int);
    lemma_fit_is_longest(s, max as int);
    lemma_size_is_encoding(s.take(n as int));
    if n < s.len() {
        lemma_size_is_encoding(s.take((n + 1) as int));
    }
}

/// Cuts a text to at most `max` UTF-8 bytes (see `safe_truncate_spec`).
pub fn safe_truncate(s: &str, max: usize) -> (res: String)
    ensures
        res@ == safe_truncate_spec(s@, max as int),
        encode_utf8(res@).len() <= max,
        res@ == s@.take(res@.len() as int),
        res@.len() < s@.len() ==> encode_utf8(s@.take((res@.len() + 1) as int)).len() > max,
{
    let chars = str_chars(s);
    let mut used: usize = 0;
    let mut i: usize = 0;
    let mut full = false;
    assert(s@.skip(0) =~= s@);
    while i < chars.len() && !full
        invariant
            i <= chars@.len(),
            chars@ == s@,
            used <= max,
            fit_count(s@, max as int) == i + fit_count(s@.skip(i as int), max - used),
            full ==> fit_count(s@.skip(i as int), max - used) == 0,
        decreases chars@.len() - i, if full { 0int } else { 1int },
    {
        let c = chars[i];
        let w: usize = if (c as u32) < 0x80 {
            1
        } else if (c as u32) < 0x800 {
            2
        } else if (c as u32) < 0x10000 {
            3
        } else {
            4
        };
        assert(w == utf8_width(c));
        assert(s@.skip(i as int)[0] == c);
        assert(s@.skip(i as int).drop_first() =~= s@.skip(i + 1));
        if w > max - used {
            full = true;
        } else {
            used = used + w;
            i = i + 1;
        }
    }
    proof {
        if !full {
            assert(s@.skip(i as int).len() == 0);
        }
        assert(fit_count(s@, max as int) == i);
        assert(s@.subrange(0, i as int) =~= s@.take(i as int));
        safe_truncate_utf8_law(s@, max as nat);
    }
    crate::text::slice_to_string(chars.as_slice(), 0, i)
}

/// An escaped title holds no `<` and no `>`.
pub proof fn escaped_has_no_tags(s: Seq<char>)
    ensures
        forall|i: int| 0 <= i < escape_html(s).len() ==> #[trigger] escape_html(s)[i] != '<'
            && escape_html(s)[i] != '>',
    decreases s.len(),
{
    if s.len() > 0 {
        escaped_has_no_tags(s.drop_last());
        let prev = escape_html(s.drop_last());
        let c = s.last();
        reveal_strlit("&amp;");
        reveal_strlit("&lt;");
        reveal_strlit("&gt;");
        let tail = if c == '&' {
            "&amp;"@
        } else if c == '<' {
            "&lt;"@
        } else if c == '>' {
            "&gt;"@
        } else {
            seq![c]
        };
        assert(escape_html(s) == prev + tail);
        assert forall|i: int| 0 <= i < escape_html(s).len() implies #[trigger] escape_html(s)[i]
            != '<' && escape_html(s)[i] != '>' by {
            if i < prev.len() {
                assert(escape_html(s)[i] == prev[i]);
            } else {
                assert(escape_html(s)[i] == tail[i - prev.len()]);
            }
        }
    }
}

/// The UTF-8 size of a text, in bytes.
pub open spec fn utf8_size(s: Seq<char>) -> int
    decreases s.len(),
{
    if s.len() == 0 {
        0
    } else {
        utf8_width(s[0]) + utf8_size(s.drop_first())
    }
}

proof fn lemma_fit_size(s: Seq<char>, max: int)
    ensures
        utf8_size(s.take(fit_count(s, max) as int)) <= if max < 0 { 0 } else { max },
        fit_count(s, max) <= s.len(),
    decreases s.len(),
{
    lemma_fit_count_le(s, max);
    let n = fit_count(s, max);
    if s.len() == 0 || utf8_width(s[0]) > max {
        assert(s.take(0) =~= Seq::<char>::empty());
    } else {
        let rest = s.drop_first();
        let m = max - utf8_width(s[0]);
        lemma_fit_size(rest, m);
        assert(s.take(n as int).drop_first() =~= rest.take(fit_count(rest, m) as int));
        assert(s.take(n as int)[0] == s[0]);
    }
}

/// A cut text is a beginning of the text and fits in the size it was cut
/// to; nothing is cut from a text that already fits.
pub proof fn safe_truncate_fits(s: Seq<char>, max: nat)
    ensures
        s.take(safe_truncate_spec(s, max as int).len() as int) == safe_truncate_spec(s, max as int),
        utf8_size(safe_truncate_spec(s, max as int)) <= max,
        utf8_size(s) <= max ==> safe_truncate_spec(s, max as int) == s,
    decreases s.len(),
{
    lemma_fit_size(s, max as int);
    lemma_fits_whole(s, max as int);
}

proof fn lemma_fits_whole(s: Seq<char>, max: int)
    ensures
        utf8_size(s) <= max ==> fit_count(s, max) == s.len(),
    decreases s.len(),
{
    if s.len() > 0 {
        lemma_fits_whole(s.drop_first(), max - utf8_width(s[0]));
        lemma_size_nonneg(s.drop_first());
    }
}

proof fn lemma_size_nonneg(s: Seq<char>)
    ensures
        utf8_size(s) >= 0,
    decreases s.len(),
{
    if s.len() > 0 {
        lemma_size_nonneg(s.drop_first());
    }
}

/// The description part of a caption: nothing when the description is empty
/// or just `-`, `.` or `。`; else a colon and the description cut to
/// `DESC_LIMIT` bytes in an expandable quote.
pub open spec fn desc_block_spec(desc: Seq<char>) -> Seq<char> {
    if desc.len() == 0 || desc == "-"@ || desc == "."@ || desc == "。"@ {
        Seq::empty()
    } else {
        ":\n<blockquote expandable>"@ + safe_truncate_spec(desc, DESC_LIMIT as int)
            + "</blockquote>"@
    }
}

/// The caption of part `p` of a video.
pub open spec fn bili_msg_spec(
    bvid: Seq<char>,
    p: u16,
    title: Seq<char>,
    uid: u64,
    nickname: Seq<char>,
    desc: Seq<char>,
) -> Seq<char> {
    let p_url = if p > 1 {
        "?p="@ + dec(p as nat)
    } else {
        Seq::empty()
    };
    let p_tip = if p > 1 {
        " P"@ + dec(p as nat)
    } else {
        Seq::empty()
    };
    "<a href=\"https://www.bilibili.com/video/"@ + bvid + p_url + "\">"@ + escape_html(title) + p_tip
        + "</a> | <a href=\"https://space.bilibili.com/"@ + dec(uid as nat) + "\">"@ + nickname
        + "</a> #Bilibili"@ + desc_block_spec(desc)
}

/// The description text of a video: its rendered items, empty without any.
pub open spec fn info_desc(info: BiliInfo) -> Seq<char> {
    match info.desc_v2 {
        Some(d) => parse_desc_spec(d@),
        None => Seq::empty(),
    }
}

/// The caption, the chosen part and the cover address for part `p` of a
/// video; `Err(())` when the video has no part `p`.
pub fn parse_msg(info: BiliInfo, p: u16) -> (res: Result<(String, Page, String), ()>)
    ensures
        find_page_spec(info.pages@, p) is None <==> res is Err,
        res matches Ok((msg, page, pic)) ==> {
            &&& find_page_spec(info.pages@, p) == Some(page)
            &&& pic@ == info.pic@
            &&& msg@ == bili_msg_spec(
                info.bvid@,
                p,
                info.title@,
                info.owner.mid,
                info.owner.name@,
                info_desc(info),
            )
        },
{
    let pa = match find_page(&info.pages, p) {
        Some(pa) => pa,
        None => return Err(()),
    };
    let title = escape_html_exec(info.title.as_str());
    let desc = match &info.desc_v2 {
        Some(d) => parse_desc(d.as_slice()),
        None => String::new(),
    };
    let cleared = str_eq(desc.as_str(), "-") || str_eq(desc.as_str(), ".") || str_eq(
        desc.as_str(),
        "。",
    );
    let mut msg = String::new();
    push_str(&mut msg, "<a href=\"https://www.bilibili.com/video/");
    push_str(&mut msg, info.bvid.as_str());
    if p > 1 {
        push_str(&mut msg, "?p=");
        push_str(&mut msg, u64_to_string(p as u64).as_str());
    }
    push_str(&mut msg, "\">");
    push_str(&mut msg, title.as_str());
    if p > 1 {
        push_str(&mut msg, " P");
        push_str(&mut msg, u64_to_string(p as u64).as_str());
    }
    push_str(&mut msg, "</a> | <a href=\"https://space.bilibili.com/");
    push_str(&mut msg, u64_to_string(info.owner.mid).as_str());
    push_str(&mut msg, "\">");
    push_str(&mut msg, info.owner.name.as_str());
    push_str(&mut msg, "</a> #Bilibili");
    if !cleared && desc.unicode_len() > 0 {
        push_str(&mut msg, ":\n<blockquote expandable>");
        push_str(&mut msg, safe_truncate(desc.as_str(), DESC_LIMIT).as_str());
        push_str(&mut msg, "</blockquote>");
    }
    proof {
        let ghost d = info_desc(info);
        assert(desc@ == d);
    }
    Ok((msg, pa, info.pic))
}

} // verus!
