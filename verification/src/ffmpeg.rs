//! The FFmpeg command line and the parsing of its progress output.
use vstd::prelude::*;

use crate::parse::{
    digits_value, is_digit, is_whitespace, is_ws, parse_u128, parse_uint_spec, trim, trim_spec,
    trim_start, trim_start_spec,
};
use crate::text::{
    find_char, find_char_exec, find_str, find_str_exec, push_char, slice_to_string, starts_with,
    str_chars, strip_prefix,
};

verus! {

/// An FFmpeg invocation: the program and its arguments, in order.
pub struct FFmpeg {
    /// The program to run.
    pub bin: String,
    /// The arguments given by the caller.
    pub args: Vec<String>,
}

impl FFmpeg {
    /// A command that runs `ffmpeg` with no arguments yet.
    pub fn new() -> (res: Self)
        ensures
            res.bin@ == "ffmpeg"@,
            res.args@.len() == 0,
    {
        FFmpeg { bin: "ffmpeg".to_owned(), args: Vec::new() }
    }

    /// Adds one argument.
    pub fn arg(self, arg: &str) -> (res: Self)
        ensures
            res.bin@ == self.bin@,
            res.args@.len() == self.args@.len() + 1,
            forall|i: int| 0 <= i < self.args@.len() ==> res.args@[i]@ == self.args@[i]@,
            res.args@.last()@ == arg@,
    {
        let mut s = self;
        s.args.push(arg.to_owned());
        s
    }

    /// Adds several arguments, keeping their order.
    pub fn args(self, args: &[&str]) -> (res: Self)
        ensures
            res.bin@ == self.bin@,
            res.args@.len() == self.args@.len() + args@.len(),
            forall|i: int| 0 <= i < self.args@.len() ==> res.args@[i]@ == self.args@[i]@,
            forall|i: int|
                0 <= i < args@.len() ==> res.args@[self.args@.len() + i]@ == args@[i]@,
    {
        let mut s = self;
        let ghost start = s.args@;
        let mut i: usize = 0;
        while i < args.len()
            invariant
                i <= args@.len(),
                s.bin@ == self.bin@,
                s.args@.len() == start.len() + i,
                start == self.args@,
                forall|k: int| 0 <= k < start.len() ==> s.args@[k]@ == start[k]@,
                forall|k: int| 0 <= k < i ==> s.args@[start.len() + k]@ == args@[k]@,
            decreases args@.len() - i,
        {
            s.args.push(args[i].to_owned());
            i = i + 1;
        }
        s
    }

    /// The full argument list of a run: progress reporting to standard error
    /// without banner or statistics, then the caller's arguments.
    pub fn command_args(&self) -> (res: Vec<String>)
        ensures
            res@.len() == 4 + self.args@.len(),
            res@[0]@ == "-hide_banner"@,
            res@[1]@ == "-progress"@,
            res@[2]@ == "pipe:2"@,
            res@[3]@ == "-nostats"@,
            forall|i: int| 0 <= i < self.args@.len() ==> res@[4 + i]@ == self.args@[i]@,
    {
        let mut res: Vec<String> = Vec::new();
        res.push("-hide_banner".to_owned());
        res.push("-progress".to_owned());
        res.push("pipe:2".to_owned());
        res.push("-nostats".to_owned());
        let mut i: usize = 0;
        while i < self.args.len()
            invariant
                i <= self.args@.len(),
                res@.len() == 4 + i,
                res@[0]@ == "-hide_banner"@,
                res@[1]@ == "-progress"@,
                res@[2]@ == "pipe:2"@,
                res@[3]@ == "-nostats"@,
                forall|k: int| 0 <= k < i ==> res@[4 + k]@ == self.args@[k]@,
            decreases self.args@.len() - i,
        {
            res.push(self.args[i].clone());
            i = i + 1;
        }
        res
    }
}

/// The leading ASCII digits of `s`.
pub open spec fn digit_prefix(s: Seq<char>) -> Seq<char>
    decreases s.len(),
{
    if s.len() > 0 && is_digit(s[0]) {
        seq![s[0]] + digit_prefix(s.drop_first())
    } else {
        Seq::empty()
    }
}

/// The millisecond digits of a fraction: its first three characters while
/// they are digits, padded with `0` to three digits.
pub open spec fn millis_text(fraction: Seq<char>) -> Seq<char> {
    let t = digit_prefix(
        if fraction.len() > 3 {
            fraction.take(3)
        } else {
            fraction
        },
    );
    t + Seq::new((3 - t.len()) as nat, |k: int| '0')
}

/// The milliseconds of `HH:MM:SS`, `HH:MM:SS.xx` or `HH:MM:SS.xxxxxx` (after
/// trimming): hours, minutes and seconds as unsigned numbers, the fraction
/// truncated or padded to three digits. A leading `-` means `0`. Anything
/// else, and a total above `usize::MAX`, is `None`.
pub open spec fn timestamp_ms_spec(value: Seq<char>) -> Option<nat> {
    let v = trim_spec(value);
    if v.len() > 0 && v[0] == '-' {
        Some(0)
    } else {
        match find_char(v, ':') {
            None => None,
            Some(i) => {
                let rest = v.skip(i + 1);
                match find_char(rest, ':') {
                    None => None,
                    Some(j) => {
                        let sp = rest.skip(j + 1);
                        if find_char(sp, ':') is Some {
                            None
                        } else {
                            let (sec, frac) = match find_char(sp, '.') {
                                Some(k) => (sp.take(k), sp.skip(k + 1)),
                                None => (sp, Seq::<char>::empty()),
                            };
                            match (
                                parse_uint_spec(v.take(i), u128::MAX as nat),
                                parse_uint_spec(rest.take(j), u128::MAX as nat),
                                parse_uint_spec(sec, u128::MAX as nat),
                            ) {
                                (Some(h), Some(m), Some(s)) => {
                                    let total = h * 3600000 + m * 60000 + s * 1000 + digits_value(
                                        millis_text(frac),
                                    );
                                    if total <= usize::MAX {
                                        Some(total)
                                    } else {
                                        None
                                    }
                                },
                                _ => None,
                            }
                        }
                    },
                }
            },
        }
    }
}

proof fn lemma_find_in_range(s: Seq<char>, c: char)
    ensures
        find_char(s, c) matches Some(i) ==> 0 <= i < s.len(),
    decreases s.len(),
{
    if s.len() > 0 {
        lemma_find_in_range(s.drop_first(), c);
    }
}

proof fn lemma_digit_prefix(s: Seq<char>)
    ensures
        digit_prefix(s).len() <= s.len(),
        forall|i: int| 0 <= i < digit_prefix(s).len() ==> is_digit(#[trigger] digit_prefix(s)[i])
            && digit_prefix(s)[i] == s[i],
        digit_prefix(s).len() < s.len() ==> !is_digit(s[digit_prefix(s).len() as int]),
    decreases s.len(),
{
    if s.len() > 0 && is_digit(s[0]) {
        lemma_digit_prefix(s.drop_first());
        let p = digit_prefix(s);
        assert forall|i: int| 0 <= i < p.len() implies is_digit(#[trigger] p[i]) && p[i] == s[i] by {
            if i > 0 {
                assert(p[i] == digit_prefix(s.drop_first())[i - 1]);
            }
        }
    }
}

/// The millisecond digits of a fraction (see `millis_text`).
fn millis_of(fraction: &str) -> (res: u128)
    ensures
        res as nat == digits_value(millis_text(fraction@)),
        res < 1000,
{
    let chars = str_chars(fraction);
    let limit: usize = if chars.len() > 3 { 3 } else { chars.len() };
    let ghost head = if fraction@.len() > 3 { fraction@.take(3) } else { fraction@ };
    assert(head =~= chars@.take(limit as int));
    proof { lemma_digit_prefix(head); }
    let mut text: Vec<char> = Vec::new();
    let mut i: usize = 0;
    while i < limit && '0' <= chars[i] && chars[i] <= '9'
        invariant
            i <= limit <= 3,
            limit <= chars@.len(),
            head == chars@.take(limit as int),
            i <= digit_prefix(head).len(),
            text@ == digit_prefix(head).take(i as int),
            digit_prefix(head).len() <= head.len(),
            forall|k: int| 0 <= k < digit_prefix(head).len() ==> #[trigger] digit_prefix(head)[k] == head[k],
            digit_prefix(head).len() < head.len() ==> !is_digit(head[digit_prefix(head).len() as int]),
        decreases limit - i,
    {
        proof {
            if i == digit_prefix(head).len() && i < head.len() {
                assert(!is_digit(head[i as int]));
            }
        }
        text.push(chars[i]);
        i = i + 1;
        assert(text@ =~= digit_prefix(head).take(i as int));
    }
    proof {
        if i < digit_prefix(head).len() {
            assert(is_digit(digit_prefix(head)[i as int]));
        }
    }
    assert(text@ =~= digit_prefix(head));
    let mut value: u128 = 0;
    let mut k: usize = 0;
    let ghost padded = millis_text(fraction@);
    assert(padded =~= text@ + Seq::new((3 - text@.len()) as nat, |t: int| '0'));
    while k < 3
        invariant
            k <= 3,
            padded.len() == 3,
            forall|t: int| 0 <= t < 3 ==> is_digit(#[trigger] padded[t]),
            text@.len() <= 3,
            padded == text@ + Seq::new((3 - text@.len()) as nat, |t: int| '0'),
            value as nat == digits_value(padded.take(k as int)),
            value < 1000,
            k == 0 ==> value == 0,
            k == 1 ==> value < 10,
            k == 2 ==> value < 100,
        decreases 3 - k,
    {
        let c: char = if k < text.len() { text[k] } else { '0' };
        assert(c == padded[k as int]);
        assert(padded.take(k + 1).drop_last() =~= padded.take(k as int));
        value = value * 10 + (c as u32 - 48) as u128;
        k = k + 1;
    }
    assert(padded.take(3) =~= padded);
    value
}

/// `HH:MM:SS[.fraction]` to milliseconds (see `timestamp_ms_spec`).
pub fn parse_timestamp_ms(value: &str) -> (res: Option<usize>)
    ensures
        match res {
            Some(v) => timestamp_ms_spec(value@) == Some(v as nat),
            None => timestamp_ms_spec(value@) is None,
        },
{
    let v = trim(value);
    let chars = str_chars(v.as_str());
    let n = chars.len();
    if n > 0 && chars[0] == '-' {
        return Some(0);
    }
    proof { lemma_find_in_range(v@, ':'); }
    let i = match find_char_exec(chars.as_slice(), ':') {
        Some(i) => i,
        None => {
            return None;
        },
    };
    assert(i < n);
    let hours_text = slice_to_string(chars.as_slice(), 0, i);
    let rest = slice_to_string(chars.as_slice(), i + 1, n);
    assert(rest@ =~= v@.skip(i + 1));
    assert(hours_text@ =~= v@.take(i as int));
    let rest_chars = str_chars(rest.as_str());
    let rn = rest_chars.len();
    proof { lemma_find_in_range(rest@, ':'); }
    let j = match find_char_exec(rest_chars.as_slice(), ':') {
        Some(j) => j,
        None => {
            return None;
        },
    };
    assert(j < rn);
    let minutes_text = slice_to_string(rest_chars.as_slice(), 0, j);
    let sp = slice_to_string(rest_chars.as_slice(), j + 1, rn);
    assert(sp@ =~= rest@.skip(j + 1));
    assert(minutes_text@ =~= rest@.take(j as int));
    let sp_chars = str_chars(sp.as_str());
    let sn = sp_chars.len();
    if find_char_exec(sp_chars.as_slice(), ':').is_some() {
        return None;
    }
    proof { lemma_find_in_range(sp@, '.'); }
    let (seconds_text, fraction) = match find_char_exec(sp_chars.as_slice(), '.') {
        Some(k) => {
            assert(k < sn);
            (slice_to_string(sp_chars.as_slice(), 0, k), slice_to_string(sp_chars.as_slice(), k + 1, sn))
        },
        None => (slice_to_string(sp_chars.as_slice(), 0, sn), String::new()),
    };
    proof {
        match find_char(sp@, '.') {
            Some(k) => {
                assert(seconds_text@ =~= sp@.take(k));
                assert(fraction@ =~= sp@.skip(k + 1));
            },
            None => {
                assert(seconds_text@ =~= sp@);
            },
        }
    }
    let hours = match parse_u128(hours_text.as_str()) {
        Some(h) => h,
        None => {
            return None;
        },
    };
    let minutes = match parse_u128(minutes_text.as_str()) {
        Some(m) => m,
        None => {
            return None;
        },
    };
    let seconds = match parse_u128(seconds_text.as_str()) {
        Some(s) => s,
        None => {
            return None;
        },
    };
    let millis = millis_of(fraction.as_str());
    let a = match hours.checked_mul(3600000) {
        Some(x) => x,
        None => {
            return None;
        },
    };
    let b = match minutes.checked_mul(60000) {
        Some(x) => x,
        None => {
            return None;
        },
    };
    let ab = match a.checked_add(b) {
        Some(x) => x,
        None => {
            return None;
        },
    };
    let c = match seconds.checked_mul(1000) {
        Some(x) => x,
        None => {
            return None;
        },
    };
    let abc = match ab.checked_add(c) {
        Some(x) => x,
        None => {
            return None;
        },
    };
    let total = match abc.checked_add(millis) {
        Some(x) => x,
        None => {
            return None;
        },
    };
    if total <= usize::MAX as u128 {
        Some(total as usize)
    } else {
        None
    }
}

/// `Duration: 00:01:23.45, start: ...`: the milliseconds of the value after
/// `Duration:`, up to the first comma; `N/A` gives `None`.
pub open spec fn duration_line_spec(line: Seq<char>) -> Option<nat> {
    match find_str(line, "Duration:"@) {
        None => None,
        Some(i) => {
            let t = trim_start_spec(line.skip(i + 9));
            let first = match find_char(t, ',') {
                Some(k) => t.take(k),
                None => t,
            };
            let value = trim_spec(first);
            if value == "N/A"@ {
                None
            } else {
                timestamp_ms_spec(value)
            }
        },
    }
}

/// Parses a `Duration:` line (see `duration_line_spec`).
pub fn parse_duration_line(line: &str) -> (res: Option<usize>)
    ensures
        match res {
            Some(v) => duration_line_spec(line@) == Some(v as nat),
            None => duration_line_spec(line@) is None,
        },
{
    let chars = str_chars(line);
    let pat = str_chars("Duration:");
    proof { reveal_strlit("Duration:"); }
    let i = match find_str_exec(chars.as_slice(), pat.as_slice()) {
        Some(i) => i,
        None => {
            return None;
        },
    };
    let n = chars.len();
    assert(pat@.len() == 9);
    assert(i + 9 <= n);
    let after = slice_to_string(chars.as_slice(), i + 9, n);
    assert(after@ =~= line@.skip(i + 9));
    let t = trim_start(after.as_str());
    let t_chars = str_chars(t.as_str());
    proof { lemma_find_in_range(t@, ','); }
    let first = match find_char_exec(t_chars.as_slice(), ',') {
        Some(k) => slice_to_string(t_chars.as_slice(), 0, k),
        None => slice_to_string(t_chars.as_slice(), 0, t_chars.len()),
    };
    proof {
        match find_char(t@, ',') {
            Some(k) => {
                assert(first@ =~= t@.take(k));
            },
            None => {
                assert(first@ =~= t@);
            },
        }
    }
    let value = trim(first.as_str());
    if is_na(value.as_str()) {
        return None;
    }
    parse_timestamp_ms(value.as_str())
}

fn is_na(s: &str) -> (res: bool)
    ensures
        res == (s@ == "N/A"@),
{
    let c = str_chars(s);
    proof { reveal_strlit("N/A"); }
    let res = c.len() == 3 && c[0] == 'N' && c[1] == '/' && c[2] == 'A';
    proof {
        if res {
            assert(s@ =~= "N/A"@);
        } else if s@ == "N/A"@ {
            assert(c@[0] == 'N' && c@[1] == '/' && c@[2] == 'A');
        }
    }
    res
}

/// `out_time=00:00:10.123456`: the milliseconds of the value.
pub open spec fn progress_time_spec(line: Seq<char>) -> Option<nat> {
    let t = trim_spec(line);
    if starts_with(t, "out_time="@) {
        timestamp_ms_spec(t.skip(9))
    } else {
        None
    }
}

/// Parses an `out_time=` line.
pub fn parse_progress_time(line: &str) -> (res: Option<usize>)
    ensures
        match res {
            Some(v) => progress_time_spec(line@) == Some(v as nat),
            None => progress_time_spec(line@) is None,
        },
{
    let t = trim(line);
    proof { reveal_strlit("out_time="); }
    match strip_prefix(t.as_str(), "out_time=") {
        Some(value) => parse_timestamp_ms(value.as_str()),
        None => None,
    }
}

/// `out_time_us=10123456`: the microseconds divided by 1000, if that fits.
pub open spec fn out_time_us_spec(line: Seq<char>) -> Option<nat> {
    let t = trim_spec(line);
    if starts_with(t, "out_time_us="@) {
        match parse_uint_spec(t.skip(12), u128::MAX as nat) {
            Some(us) => if us / 1000 <= usize::MAX {
                Some(us / 1000)
            } else {
                None
            },
            None => None,
        }
    } else {
        None
    }
}

/// Parses an `out_time_us=` line.
pub fn parse_out_time_us(line: &str) -> (res: Option<usize>)
    ensures
        match res {
            Some(v) => out_time_us_spec(line@) == Some(v as nat),
            None => out_time_us_spec(line@) is None,
        },
{
    let t = trim(line);
    proof { reveal_strlit("out_time_us="); }
    let value = match strip_prefix(t.as_str(), "out_time_us=") {
        Some(v) => v,
        None => {
            return None;
        },
    };
    let microseconds = match parse_u128(value.as_str()) {
        Some(us) => us,
        None => {
            return None;
        },
    };
    let ms = microseconds / 1000;
    if ms <= usize::MAX as u128 {
        Some(ms as usize)
    } else {
        None
    }
}

/// Position of the first whitespace character.
pub open spec fn find_ws(s: Seq<char>) -> Option<int>
    decreases s.len(),
{
    if s.len() == 0 {
        None
    } else if is_ws(s[0]) {
        Some(0)
    } else {
        match find_ws(s.drop_first()) {
            Some(i) => Some(i + 1),
            None => None,
        }
    }
}

proof fn lemma_find_ws(s: Seq<char>)
    ensures
        match find_ws(s) {
            Some(i) => 0 <= i < s.len() && is_ws(s[i]) && forall|k: int| 0 <= k < i ==> !is_ws(#[trigger] s[k]),
            None => forall|k: int| 0 <= k < s.len() ==> !is_ws(#[trigger] s[k]),
        },
    decreases s.len(),
{
    if s.len() > 0 && !is_ws(s[0]) {
        let t = s.drop_first();
        lemma_find_ws(t);
        match find_ws(t) {
            Some(j) => {
                assert(s[j + 1] == t[j]);
                assert forall|k: int| 0 <= k < j + 1 implies !is_ws(#[trigger] s[k]) by {
                    if k > 0 {
                        assert(s[k] == t[k - 1]);
                    }
                }
            },
            None => {
                assert forall|k: int| 0 <= k < s.len() implies !is_ws(#[trigger] s[k]) by {
                    if k > 0 {
                        assert(s[k] == t[k - 1]);
                    }
                }
            },
        }
    }
}

fn find_ws_exec(s: &[char]) -> (res: Option<usize>)
    ensures
        match res {
            Some(i) => find_ws(s@) == Some(i as int),
            None => find_ws(s@) is None,
        },
{
    let mut i: usize = 0;
    while i < s.len()
        invariant
            i <= s@.len(),
            forall|k: int| 0 <= k < i ==> !is_ws(#[trigger] s@[k]),
        decreases s@.len() - i,
    {
        if is_whitespace(s[i]) {
            proof {
                lemma_find_ws(s@);
                match find_ws(s@) {
                    Some(j) => {
                        if j < i {
                            assert(!is_ws(s@[j]));
                        }
                        if j > i {
                            assert(!is_ws(s@[i as int]));
                        }
                    },
                    None => {
                        assert(!is_ws(s@[i as int]));
                    },
                }
            }
            return Some(i);
        }
        i = i + 1;
    }
    proof {
        lemma_find_ws(s@);
        match find_ws(s@) {
            Some(j) => {
                assert(is_ws(s@[j]));
            },
            None => {},
        }
    }
    None
}

/// `frame=... time=00:00:10.12 bitrate=...`: the milliseconds of the first
/// word after the first `time=`.
pub open spec fn stats_time_spec(line: Seq<char>) -> Option<nat> {
    match find_str(line, "time="@) {
        None => None,
        Some(i) => {
            let r = trim_start_spec(line.skip(i + 5));
            if r.len() == 0 {
                None
            } else {
                let word = match find_ws(r) {
                    Some(k) => r.take(k),
                    None => r,
                };
                timestamp_ms_spec(word)
            }
        },
    }
}

proof fn lemma_find_ws_range(s: Seq<char>)
    ensures
        find_ws(s) matches Some(i) ==> 0 <= i < s.len(),
    decreases s.len(),
{
    if s.len() > 0 {
        lemma_find_ws_range(s.drop_first());
    }
}

/// Parses a statistics line with `time=`.
pub fn parse_stats_time(line: &str) -> (res: Option<usize>)
    ensures
        match res {
            Some(v) => stats_time_spec(line@) == Some(v as nat),
            None => stats_time_spec(line@) is None,
        },
{
    let chars = str_chars(line);
    let pat = str_chars("time=");
    proof { reveal_strlit("time="); }
    let i = match find_str_exec(chars.as_slice(), pat.as_slice()) {
        Some(i) => i,
        None => {
            return None;
        },
    };
    let n = chars.len();
    assert(pat@.len() == 5);
    assert(i + 5 <= n);
    let after = slice_to_string(chars.as_slice(), i + 5, n);
    assert(after@ =~= line@.skip(i + 5));
    let r = trim_start(after.as_str());
    let r_chars = str_chars(r.as_str());
    if r_chars.len() == 0 {
        return None;
    }
    proof { lemma_find_ws_range(r@); }
    let word = match find_ws_exec(r_chars.as_slice()) {
        Some(k) => slice_to_string(r_chars.as_slice(), 0, k),
        None => slice_to_string(r_chars.as_slice(), 0, r_chars.len()),
    };
    proof {
        match find_ws(r@) {
            Some(k) => {
                assert(word@ =~= r@.take(k));
            },
            None => {
                assert(word@ =~= r@);
            },
        }
    }
    parse_timestamp_ms(word.as_str())
}

/// The current position of a progress line: an `out_time=` value, else an
/// `out_time_us=` value, else a `time=` value.
pub open spec fn line_position_spec(line: Seq<char>) -> Option<nat> {
    match progress_time_spec(line) {
        Some(v) => Some(v),
        None => match out_time_us_spec(line) {
            Some(v) => Some(v),
            None => stats_time_spec(line),
        },
    }
}

/// What one line of FFmpeg output changes in the progress display.
pub struct ProgressUpdate {
    /// The known total duration in milliseconds.
    pub total_ms: Option<usize>,
    /// The last position shown, in milliseconds.
    pub last_ms: Option<usize>,
    /// A new length for the progress bar.
    pub set_length: Option<usize>,
    /// A new position for the progress bar.
    pub set_position: Option<usize>,
}

/// Folds one output line into the progress state: the first `Duration:`
/// line fixes the total; a position different from the last one shown
/// becomes the new position.
pub fn progress_step(total_ms: Option<usize>, last_ms: Option<usize>, line: &str) -> (res: ProgressUpdate)
    ensures
        total_ms is Some ==> res.total_ms == total_ms && res.set_length is None,
        total_ms is None ==> match duration_line_spec(line@) {
            Some(d) => res.total_ms == Some(d as usize) && res.set_length == Some(d as usize),
            None => res.total_ms is None && res.set_length is None,
        },
        match line_position_spec(line@) {
            Some(p) => if last_ms == Some(p as usize) {
                res.last_ms == last_ms && res.set_position is None
            } else {
                res.last_ms == Some(p as usize) && res.set_position == Some(p as usize)
            },
            None => res.last_ms == last_ms && res.set_position is None,
        },
{
    let mut total = total_ms;
    let mut set_length: Option<usize> = None;
    if total.is_none() {
        if let Some(duration) = parse_duration_line(line) {
            total = Some(duration);
            set_length = Some(duration);
        }
    }
    let current = match parse_progress_time(line) {
        Some(v) => Some(v),
        None => match parse_out_time_us(line) {
            Some(v) => Some(v),
            None => parse_stats_time(line),
        },
    };
    let mut last = last_ms;
    let mut set_position: Option<usize> = None;
    if let Some(current_ms) = current {
        let same = match last_ms {
            Some(l) => l == current_ms,
            None => false,
        };
        if !same {
            last = Some(current_ms);
            set_position = Some(current_ms);
        }
    }
    ProgressUpdate { total_ms: total, last_ms: last, set_length, set_position }
}

/// The command that puts a downloaded audio and video track into one file,
/// copying both streams and overwriting the output.
pub fn merge_command(audio: &str, video: &str, output: &str) -> (res: FFmpeg)
    ensures
        res.bin@ == "ffmpeg"@,
        res.args@.len() == 10,
        res.args@[0]@ == "-i"@,
        res.args@[1]@ == audio@,
        res.args@[2]@ == "-i"@,
        res.args@[3]@ == video@,
        res.args@[4]@ == "-c:a"@,
        res.args@[5]@ == "copy"@,
        res.args@[6]@ == "-c:v"@,
        res.args@[7]@ == "copy"@,
        res.args@[8]@ == "-y"@,
        res.args@[9]@ == output@,
{
    let fixed: [&str; 5] = ["-c:a", "copy", "-c:v", "copy", "-y"];
    let cmd = FFmpeg::new().arg("-i").arg(audio).arg("-i").arg(video);
    let cmd = cmd.args(&fixed);
    cmd.arg(output)
}

} // verus!
