//! Resumable downloads: reading `Content-Range`, deciding whether a partial
//! file can be continued, and checking that a download is complete.
use vstd::prelude::*;

use crate::parse::{parse_uint_spec, parse_usize, trim, trim_spec};
use crate::text::{find_char, find_char_exec, slice_to_string, str_chars, u64_to_string, dec, push_str};

verus! {

/// `s` with a leading `bytes` removed, if it starts so.
pub open spec fn strip_bytes_unit(s: Seq<char>) -> Seq<char> {
    if s.len() >= 5 && s.take(5) == "bytes"@ {
        s.skip(5)
    } else {
        s
    }
}

/// A number as `str::parse::<usize>` reads it after trimming.
pub open spec fn trimmed_usize(s: Seq<char>) -> Option<nat> {
    parse_uint_spec(trim_spec(s), usize::MAX as nat)
}

/// The `(start, total)` read from a `Content-Range` value such as
/// `bytes 0-99/200` or `bytes */200`: the range is the text before the first
/// `/` (all of it if there is none), the total the text after it; the start is
/// the text of the range before its first `-`. Parts that are not numbers are
/// `None`.
pub open spec fn content_range_spec(value: Seq<char>) -> (Option<nat>, Option<nat>) {
    let v = trim_spec(strip_bytes_unit(trim_spec(value)));
    let (range, total) = match find_char(v, '/') {
        Some(i) => (v.take(i), v.skip(i + 1)),
        None => (v, Seq::<char>::empty()),
    };
    let start = match find_char(range, '-') {
        Some(j) => trimmed_usize(range.take(j)),
        None => None,
    };
    (start, trimmed_usize(total))
}

proof fn lemma_find_in_range(s: Seq<char>, c: char)
    ensures
        find_char(s, c) matches Some(i) ==> 0 <= i < s.len(),
    decreases s.len(),
{
    if s.len() > 0 {
        lemma_find_in_range(s.drop_first(), c);
    }
}

fn strip_bytes(s: &str) -> (res: String)
    ensures
        res@ == strip_bytes_unit(s@),
{
    let chars = str_chars(s);
    let n = chars.len();
    if n >= 5 && chars[0] == 'b' && chars[1] == 'y' && chars[2] == 't' && chars[3] == 'e'
        && chars[4] == 's' {
        proof {
            reveal_strlit("bytes");
            assert(s@.take(5) =~= "bytes"@);
        }
        slice_to_string(chars.as_slice(), 5, n)
    } else {
        proof {
            reveal_strlit("bytes");
            if s@.len() >= 5 && s@.take(5) == "bytes"@ {
                assert(s@[0] == s@.take(5)[0]);
                assert(s@[1] == s@.take(5)[1]);
                assert(s@[2] == s@.take(5)[2]);
                assert(s@[3] == s@.take(5)[3]);
                assert(s@[4] == s@.take(5)[4]);
            }
        }
        slice_to_string(chars.as_slice(), 0, n)
    }
}

fn parse_trimmed_usize(s: &str) -> (res: Option<usize>)
    ensures
        match res {
            Some(v) => trimmed_usize(s@) == Some(v as nat),
            None => trimmed_usize(s@) is None,
        },
{
    let t = trim(s);
    parse_usize(t.as_str())
}

/// Reads `(start, total)` from a `Content-Range` header value; an absent
/// header gives `(None, None)`.
pub fn parse_content_range(content_range: Option<&str>) -> (res: (Option<usize>, Option<usize>))
    ensures
        match content_range {
            None => res == (None::<usize>, None::<usize>),
            Some(value) => {
                let (s, t) = content_range_spec(value@);
                &&& (match res.0 {
                    Some(x) => s == Some(x as nat),
                    None => s is None,
                })
                &&& (match res.1 {
                    Some(x) => t == Some(x as nat),
                    None => t is None,
                })
            },
        },
{
    let value = match content_range {
        Some(v) => v,
        None => {
            return (None, None);
        },
    };
    let t1 = trim(value);
    let stripped = strip_bytes(t1.as_str());
    let v = trim(stripped.as_str());
    let chars = str_chars(v.as_str());
    let n = chars.len();
    proof { lemma_find_in_range(v@, '/'); }
    let (range, total) = match find_char_exec(chars.as_slice(), '/') {
        Some(i) => {
            assert(i < n);
            (slice_to_string(chars.as_slice(), 0, i), slice_to_string(chars.as_slice(), i + 1, n))
        },
        None => (slice_to_string(chars.as_slice(), 0, chars.len()), String::new()),
    };
    proof {
        assert(v@.skip(0) =~= v@);
        match find_char(v@, '/') {
            Some(i) => {
                assert(range@ =~= v@.take(i));
                assert(total@ =~= v@.skip(i + 1));
            },
            None => {
                assert(range@ =~= v@);
            },
        }
    }
    let range_chars = str_chars(range.as_str());
    proof { lemma_find_in_range(range@, '-'); }
    let start = match find_char_exec(range_chars.as_slice(), '-') {
        Some(j) => {
            let head = slice_to_string(range_chars.as_slice(), 0, j);
            assert(head@ =~= range@.take(j as int));
            parse_trimmed_usize(head.as_str())
        },
        None => None,
    };
    (start, parse_trimmed_usize(total.as_str()))
}

/// What to do with the reply to a (possibly ranged) download request.
pub enum RangeDecision {
    /// Write the reply from the start of the file.
    Fresh,
    /// Append the reply to the partial file.
    Resume,
    /// The partial file already holds the whole content.
    Complete,
    /// The partial file cannot be continued: delete it and request again
    /// without a range.
    Restart,
}

/// The decision for `downloaded` bytes on disk and a reply with `status` and
/// `Content-Range` start and total: nothing on disk means a fresh download;
/// `206` starting where the file ends (or without a start) resumes; `416`
/// whose total is the file length means the file is complete; any other `206`
/// or `416` restarts; every other status is written from the start.
pub open spec fn range_decision_spec(
    downloaded: usize,
    status: u16,
    range_start: Option<usize>,
    range_total: Option<usize>,
) -> RangeDecision {
    if downloaded == 0 {
        RangeDecision::Fresh
    } else if status == 206 && (match range_start {
        Some(s) => s == downloaded,
        None => true,
    }) {
        RangeDecision::Resume
    } else if status == 416 && range_total == Some(downloaded) {
        RangeDecision::Complete
    } else if status == 206 || status == 416 {
        RangeDecision::Restart
    } else {
        RangeDecision::Fresh
    }
}

/// Decides how to use a download reply (see `range_decision_spec`).
pub fn range_decision(
    downloaded: usize,
    status: u16,
    range_start: Option<usize>,
    range_total: Option<usize>,
) -> (res: RangeDecision)
    ensures
        res == range_decision_spec(downloaded, status, range_start, range_total),
{
    if downloaded == 0 {
        return RangeDecision::Fresh;
    }
    let start_matches = match range_start {
        Some(s) => s == downloaded,
        None => true,
    };
    let total_matches = match range_total {
        Some(t) => t == downloaded,
        None => false,
    };
    if status == 206 && start_matches {
        RangeDecision::Resume
    } else if status == 416 && total_matches {
        RangeDecision::Complete
    } else if status == 206 || status == 416 {
        RangeDecision::Restart
    } else {
        RangeDecision::Fresh
    }
}

/// A download makes at most two requests: after a restart nothing is on disk,
/// and with nothing on disk every reply is written from the start, so no
/// third request follows.
pub proof fn restart_is_followed_by_fresh(status: u16, range_start: Option<usize>, range_total: Option<usize>)
    ensures
        range_decision_spec(0, status, range_start, range_total) == RangeDecision::Fresh,
{
}

/// The bytes already on disk and the expected total size once a reply is
/// accepted: when resuming, the total is the `Content-Range` total, else the
/// bytes on disk plus `Content-Length`; when writing from the start, nothing
/// counts as downloaded and the total is `Content-Length`.
pub fn expected_total(
    resume: bool,
    downloaded: usize,
    range_total: Option<usize>,
    content_length: Option<usize>,
) -> (res: (usize, Option<usize>))
    requires
        resume && range_total is None && content_length is Some ==> downloaded
            + content_length->0 <= usize::MAX,
    ensures
        resume ==> res.0 == downloaded && res.1 == match range_total {
            Some(t) => Some(t),
            None => match content_length {
                Some(len) => Some((downloaded + len) as usize),
                None => None,
            },
        },
        !resume ==> res == (0usize, content_length),
{
    if resume {
        let total = match range_total {
            Some(t) => Some(t),
            None => match content_length {
                Some(len) => Some(downloaded + len),
                None => None,
            },
        };
        (downloaded, total)
    } else {
        (0, content_length)
    }
}

/// The message when a download ended early.
pub open spec fn incomplete_message(downloaded: usize, total: usize) -> Seq<char> {
    "下载不完整（"@ + dec(downloaded as nat) + seq!['/'] + dec(total as nat) + " 字节），下次调用将自动续传"@
}

/// Checks that a finished stream delivered the expected total; the partial
/// file is kept otherwise, so that the next call resumes.
pub fn check_complete(downloaded: usize, total: Option<usize>) -> (res: Result<(), String>)
    ensures
        match total {
            Some(t) => if downloaded != t {
                res matches Err(m) && m@ == incomplete_message(downloaded, t)
            } else {
                res is Ok
            },
            None => res is Ok,
        },
{
    if let Some(total) = total {
        if downloaded != total {
            let mut m = String::new();
            push_str(&mut m, "下载不完整（");
            push_str(&mut m, u64_to_string(downloaded as u64).as_str());
            push_str(&mut m, "/");
            push_str(&mut m, u64_to_string(total as u64).as_str());
            push_str(&mut m, " 字节），下次调用将自动续传");
            proof { reveal_strlit("/"); }
            return Err(m);
        }
    }
    Ok(())
}

/// The progress callback of a download whose progress nobody watches: it
/// does nothing.
pub fn empty_callback(_downloaded: usize, _total: Option<usize>) {
}

/// The file that holds a download until it is complete: `{name}.part`.
pub fn part_name(name: &str) -> (res: String)
    ensures
        res@ == name@ + ".part"@,
{
    let mut res = String::new();
    push_str(&mut res, name);
    push_str(&mut res, ".part");
    res
}

/// The `Range` header that asks for the rest of a file after `downloaded`
/// bytes: `bytes={downloaded}-`.
pub fn range_header(downloaded: usize) -> (res: String)
    ensures
        res@ == "bytes="@ + dec(downloaded as nat) + "-"@,
{
    let mut res = String::new();
    push_str(&mut res, "bytes=");
    push_str(&mut res, u64_to_string(downloaded as u64).as_str());
    push_str(&mut res, "-");
    res
}

/// How a download starts, from what is already on disk.
pub enum DownloadStart {
    /// The complete file is there: it is the result, nothing is requested.
    AlreadyComplete,
    /// Request the file, continuing after `downloaded` bytes when a partial
    /// file is there.
    Begin { downloaded: usize },
}

/// How a download starts: at once when the complete file exists; else from
/// the size of the partial file, if one exists, or from nothing.
pub fn download_start(complete_exists: bool, part_len: Option<usize>) -> (res: DownloadStart)
    ensures
        complete_exists ==> res matches DownloadStart::AlreadyComplete,
        !complete_exists ==> res == (DownloadStart::Begin {
            downloaded: match part_len {
                Some(n) => n,
                None => 0,
            },
        }),
{
    if complete_exists {
        DownloadStart::AlreadyComplete
    } else {
        match part_len {
            Some(n) => DownloadStart::Begin { downloaded: n },
            None => DownloadStart::Begin { downloaded: 0 },
        }
    }
}

/// The total length of the first `n` chunks.
pub open spec fn chunks_total(lens: Seq<usize>, n: int) -> int
    decreases n,
{
    if n <= 0 {
        0
    } else {
        chunks_total(lens, n - 1) + lens[n - 1]
    }
}

/// The progress reports of a download that starts at `start` bytes of
/// `total` and receives chunks of the given lengths: first the starting
/// count, then one report after each chunk with the count so far.
pub fn progress_reports(start: usize, total: Option<usize>, chunk_lens: &[usize]) -> (res: Vec<(usize, Option<usize>)>)
    requires
        start + chunks_total(chunk_lens@, chunk_lens@.len() as int) <= usize::MAX,
    ensures
        res@.len() == chunk_lens@.len() + 1,
        forall|k: int|
            0 <= k <= chunk_lens@.len() ==> #[trigger] res@[k] == ((start + chunks_total(
                chunk_lens@,
                k,
            )) as usize, total),
{
    let mut res: Vec<(usize, Option<usize>)> = Vec::new();
    let mut downloaded = start;
    res.push((downloaded, total));
    let mut i: usize = 0;
    while i < chunk_lens.len()
        invariant
            i <= chunk_lens@.len(),
            res@.len() == i + 1,
            downloaded == start + chunks_total(chunk_lens@, i as int),
            start + chunks_total(chunk_lens@, chunk_lens@.len() as int) <= usize::MAX,
            forall|k: int|
                0 <= k <= i ==> #[trigger] res@[k] == ((start + chunks_total(chunk_lens@, k)) as usize, total),
        decreases chunk_lens@.len() - i,
    {
        proof {
            lemma_chunks_total_mono(chunk_lens@, i + 1, chunk_lens@.len() as int);
        }
        downloaded = downloaded + chunk_lens[i];
        res.push((downloaded, total));
        i = i + 1;
    }
    res
}

proof fn lemma_chunks_total_mono(lens: Seq<usize>, a: int, b: int)
    requires
        0 <= a <= b <= lens.len(),
    ensures
        chunks_total(lens, a) <= chunks_total(lens, b),
    decreases b - a,
{
    if a < b {
        lemma_chunks_total_mono(lens, a, b - 1);
    }
}

} // verus!
