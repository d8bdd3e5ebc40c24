//! The command line of the downloader: what each argument asks for, in
//! order, up to the first one that ends the run.
use vstd::prelude::*;

use crate::bvid::BiliId;
use crate::console::{align_left, display_width, indent_newlines, padding_left, spaces};
use crate::parse::{parse_u64, parse_uint_spec};
use crate::pattern::{first_group, regex_first_group};
use crate::text::{dec, find_char, push_str, starts_with, str_chars, str_eq, strip_prefix, u64_to_string};

verus! {

/// Resets the terminal colour.
pub const NC: &'static str = "\x1b[0m";
/// Bold red.
pub const RED: &'static str = "\x1b[1;31m";
/// Bold green.
pub const GREEN: &'static str = "\x1b[1;32m";
/// Bold blue.
pub const BLUE: &'static str = "\x1b[1;34m";
/// Cyan.
pub const CYAN: &'static str = "\x1b[36m";
/// Bold yellow.
pub const YELLOW: &'static str = "\x1b[1;33m";

/// What one argument (with the value after it, for `-c`) asks for.
pub enum CliCommand {
    /// Print the usage and stop.
    Help,
    /// Show the streams only, download nothing.
    SetInfo,
    /// Use these cookies: the text itself when it holds `=`, else the file
    /// it names.
    Cookies(String),
    /// A flag that takes a value came last or with an empty value: stop.
    MissingValue(String),
    /// The address to fetch.
    Input(String),
    /// A second address: stop.
    TooManyUrls,
}

/// A command as a kind number and its text: help 0, info 1, cookies 2,
/// missing value 3, input 4, too many 5.
pub open spec fn command_view(c: CliCommand) -> (int, Seq<char>) {
    match c {
        CliCommand::Help => (0, Seq::empty()),
        CliCommand::SetInfo => (1, Seq::empty()),
        CliCommand::Cookies(s) => (2, s@),
        CliCommand::MissingValue(s) => (3, s@),
        CliCommand::Input(s) => (4, s@),
        CliCommand::TooManyUrls => (5, Seq::empty()),
    }
}

/// Whether an argument is one of the names of a flag.
pub open spec fn is_help_flag(a: Seq<char>) -> bool {
    a == "-h"@ || a == "--help"@
}

/// The names of the info flag.
pub open spec fn is_info_flag(a: Seq<char>) -> bool {
    a == "-i"@ || a == "--info"@
}

/// The names of the cookie flag.
pub open spec fn is_cookie_flag(a: Seq<char>) -> bool {
    a == "-c"@ || a == "--cookie"@ || a == "--cookies"@
}

/// The commands of the arguments from `i` on, `has_input` telling whether an
/// address was already given. Other arguments that start with `-` are
/// ignored. Help, a missing value and a second address end the list.
pub open spec fn plan_spec(args: Seq<Seq<char>>, i: int, has_input: bool) -> Seq<(int, Seq<char>)>
    decreases args.len() - i,
{
    if i < 0 || i >= args.len() {
        Seq::empty()
    } else {
        let a = args[i];
        if a.len() > 0 && a[0] == '-' {
            if is_help_flag(a) {
                seq![(0int, Seq::<char>::empty())]
            } else if is_info_flag(a) {
                seq![(1int, Seq::<char>::empty())] + plan_spec(args, i + 1, has_input)
            } else if is_cookie_flag(a) {
                if i + 1 < args.len() && args[i + 1].len() > 0 {
                    seq![(2int, args[i + 1])] + plan_spec(args, i + 2, has_input)
                } else {
                    seq![(3int, a)]
                }
            } else {
                plan_spec(args, i + 1, has_input)
            }
        } else if has_input {
            seq![(5int, Seq::<char>::empty())]
        } else {
            seq![(4int, a)] + plan_spec(args, i + 1, true)
        }
    }
}

/// Whether a command ends the run.
pub open spec fn ends_run(kind: int) -> bool {
    kind == 0 || kind == 3 || kind == 5
}

proof fn lemma_plan_terminal_last(args: Seq<Seq<char>>, i: int, has_input: bool)
    ensures
        forall|k: int|
            0 <= k < plan_spec(args, i, has_input).len() - 1 ==> !ends_run(
                #[trigger] plan_spec(args, i, has_input)[k].0,
            ),
    decreases args.len() - i,
{
    let p = plan_spec(args, i, has_input);
    if 0 <= i < args.len() {
        let a = args[i];
        let mut next: int = i + 1;
        let mut h = has_input;
        let mut headed = true;
        if a.len() > 0 && a[0] == '-' {
            if is_help_flag(a) {
                headed = false;
            } else if is_info_flag(a) {
            } else if is_cookie_flag(a) {
                if i + 1 < args.len() && args[i + 1].len() > 0 {
                    next = i + 2;
                } else {
                    headed = false;
                }
            } else {
                lemma_plan_terminal_last(args, i + 1, has_input);
                assert(p == plan_spec(args, i + 1, has_input));
                return;
            }
        } else if has_input {
            headed = false;
        } else {
            h = true;
        }
        if headed {
            lemma_plan_terminal_last(args, next, h);
            let rest = plan_spec(args, next, h);
            assert(p.len() == rest.len() + 1);
            assert(!ends_run(p[0].0));
            assert forall|k: int| 0 <= k < p.len() - 1 implies !ends_run(#[trigger] p[k].0) by {
                if k > 0 {
                    assert(p[k] == rest[k - 1]);
                }
            }
        }
    }
}

/// Only the last command of a plan can end the run.
pub proof fn plan_stops_at_first_end(args: Seq<Seq<char>>)
    ensures
        forall|k: int|
            0 <= k < plan_spec(args, 0, false).len() - 1 ==> !ends_run(
                #[trigger] plan_spec(args, 0, false)[k].0,
            ),
{
    lemma_plan_terminal_last(args, 0, false);
}

fn starts_with_dash(a: &str) -> (res: bool)
    ensures
        res == (a@.len() > 0 && a@[0] == '-'),
{
    let chars = str_chars(a);
    chars.len() > 0 && chars[0] == '-'
}

/// The commands of the arguments after the program name (see `plan_spec`).
pub fn plan_args(args: &Vec<String>) -> (res: Vec<CliCommand>)
    ensures
        res@.map_values(|c: CliCommand| command_view(c)) == plan_spec(
            args@.map_values(|s: String| s@),
            0,
            false,
        ),
{
    let ghost av = args@.map_values(|s: String| s@);
    let mut res: Vec<CliCommand> = Vec::new();
    let mut i: usize = 0;
    let mut has_input = false;
    let mut stopped = false;
    while i < args.len() && !stopped
        invariant
            av == args@.map_values(|s: String| s@),
            i <= args@.len(),
            !stopped ==> plan_spec(av, 0, false) == res@.map_values(
                |c: CliCommand| command_view(c),
            ) + plan_spec(av, i as int, has_input),
            stopped ==> plan_spec(av, 0, false) == res@.map_values(
                |c: CliCommand| command_view(c),
            ),
        decreases args@.len() - i, if stopped { 0int } else { 1int },
    {
        let ghost before = res@.map_values(|c: CliCommand| command_view(c));
        let a = args[i].as_str();
        assert(av[i as int] == a@);
        if starts_with_dash(a) {
            if str_eq(a, "-h") || str_eq(a, "--help") {
                res.push(CliCommand::Help);
                stopped = true;
                assert(res@.map_values(|c: CliCommand| command_view(c)) =~= before + plan_spec(
                    av,
                    i as int,
                    has_input,
                ));
            } else if str_eq(a, "-i") || str_eq(a, "--info") {
                res.push(CliCommand::SetInfo);
                assert(res@.map_values(|c: CliCommand| command_view(c)) =~= before + seq![
                    (1int, Seq::<char>::empty()),
                ]);
                i = i + 1;
            } else if str_eq(a, "-c") || str_eq(a, "--cookie") || str_eq(a, "--cookies") {
                if i + 1 < args.len() && args[i + 1].unicode_len() > 0 {
                    assert(av[i + 1] == args@[i + 1]@);
                    res.push(CliCommand::Cookies(args[i + 1].clone()));
                    assert(res@.map_values(|c: CliCommand| command_view(c)) =~= before + seq![
                        (2int, av[i + 1]),
                    ]);
                    i = i + 2;
                } else {
                    res.push(CliCommand::MissingValue(args[i].clone()));
                    stopped = true;
                    assert(res@.map_values(|c: CliCommand| command_view(c)) =~= before + plan_spec(
                        av,
                        i as int,
                        has_input,
                    ));
                }
            } else {
                i = i + 1;
            }
        } else if has_input {
            res.push(CliCommand::TooManyUrls);
            stopped = true;
            assert(res@.map_values(|c: CliCommand| command_view(c)) =~= before + plan_spec(
                av,
                i as int,
                has_input,
            ));
        } else {
            res.push(CliCommand::Input(args[i].clone()));
            assert(res@.map_values(|c: CliCommand| command_view(c)) =~= before + seq![(4int, av[i as int])]);
            has_input = true;
            i = i + 1;
        }
    }
    proof {
        if !stopped {
            assert(plan_spec(av, i as int, has_input) =~= Seq::<(int, Seq<char>)>::empty());
        }
        assert(res@.map_values(|c: CliCommand| command_view(c)) + Seq::<(int, Seq<char>)>::empty()
            =~= res@.map_values(|c: CliCommand| command_view(c)));
    }
    res
}

/// Whether a cookie value is the cookies themselves (it holds `=`) rather
/// than the name of a file that holds them.
pub fn cookie_is_inline(value: &str) -> (res: bool)
    ensures
        res == (find_char(value@, '=') is Some),
{
    let chars = str_chars(value);
    crate::text::find_char_exec(chars.as_slice(), '=').is_some()
}

/// The usage text.
pub fn help_text() -> (res: String)
    ensures
        res@ == GREEN@ + "Usage"@ + NC@ + ": jb [Options] <url>\n\n"@ + BLUE@ + "Options"@ + NC@
            + ":\n  -c [cookie], --cookie [cookie]  使用 cookie\n  -i, --info                      仅显示信息不进行下载\n  -h, --help                      显示此帮助信息\n"@,
{
    let mut res = String::new();
    push_str(&mut res, GREEN);
    push_str(&mut res, "Usage");
    push_str(&mut res, NC);
    push_str(&mut res, ": jb [Options] <url>\n\n");
    push_str(&mut res, BLUE);
    push_str(&mut res, "Options");
    push_str(&mut res, NC);
    push_str(
        &mut res,
        ":\n  -c [cookie], --cookie [cookie]  使用 cookie\n  -i, --info                      仅显示信息不进行下载\n  -h, --help                      显示此帮助信息\n",
    );
    res
}

/// An error line: `error` in red, a colon and the message.
pub fn error_line(message: &str) -> (res: String)
    ensures
        res@ == RED@ + "error"@ + NC@ + ": "@ + message@,
{
    let mut res = String::new();
    push_str(&mut res, RED);
    push_str(&mut res, "error");
    push_str(&mut res, NC);
    push_str(&mut res, ": ");
    push_str(&mut res, message);
    res
}

/// Pattern of a video id (`av` number or `BV` id) in the input; its group is
/// the id.
pub const BILI_PATTERN: &'static str = r"(?:(?:https?://)?bilibili\.com/video/)?(av\d{2,16}|(?:BV|bv)[0-9a-zA-Z]{8,12})";

/// Pattern of a short link; its group is the short id.
pub const B23_PATTERN: &'static str = r"(?:https?://)?b23\.tv\\?/([0-9a-zA-Z]{7,7})";

/// The video id in the input (see `BILI_PATTERN`).
pub fn bili_input_id(text: &str) -> (res: Option<String>)
    ensures
        match res {
            Some(s) => first_group(BILI_PATTERN@, text@) == Some(s@),
            None => first_group(BILI_PATTERN@, text@) is None,
        },
{
    regex_first_group(BILI_PATTERN, text)
}

/// The short id in the input (see `B23_PATTERN`).
pub fn b23_id(text: &str) -> (res: Option<String>)
    ensures
        match res {
            Some(s) => first_group(B23_PATTERN@, text@) == Some(s@),
            None => first_group(B23_PATTERN@, text@) is None,
        },
{
    regex_first_group(B23_PATTERN, text)
}

/// The address a short link redirects from: `https://b23.tv/{id}`.
pub fn b23_url(id: &str) -> (res: String)
    ensures
        res@ == "https://b23.tv/"@ + id@,
{
    let mut res = String::new();
    push_str(&mut res, "https://b23.tv/");
    push_str(&mut res, id);
    res
}

/// What an id found by `BILI_PATTERN` denotes: an `av` id is the number
/// after `av`; anything else is a `BV` id taken as it is.
pub fn parse_bili_id(id: &str) -> (res: BiliId)
    requires
        id@.len() > 0 && id@[0] == 'a' ==> starts_with(id@, "av"@) && parse_uint_spec(
            id@.skip(2),
            u64::MAX as nat,
        ) is Some,
    ensures
        id@.len() > 0 && id@[0] == 'a' ==> (res matches BiliId::AV(n) && parse_uint_spec(
            id@.skip(2),
            u64::MAX as nat,
        ) == Some(n as nat)),
        !(id@.len() > 0 && id@[0] == 'a') ==> (res matches BiliId::BV(s) && s@ == id@),
{
    let chars = str_chars(id);
    if chars.len() > 0 && chars[0] == 'a' {
        let rest = strip_prefix(id, "av").unwrap();
        proof {
            reveal_strlit("av");
        }
        let n = parse_u64(rest.as_str()).unwrap();
        BiliId::AV(n)
    } else {
        BiliId::BV(id.to_owned())
    }
}

/// A line of the video summary: a space, the label in cyan padded to 13
/// columns, two spaces and the value.
pub fn field_line(label: &str, value: &str) -> (res: String)
    ensures
        res@ == " "@ + CYAN@ + label@ + spaces(
            if display_width(label@) < 13 {
                (13 - display_width(label@)) as nat
            } else {
                0
            },
        ) + NC@ + "  "@ + value@,
{
    let mut res = String::new();
    push_str(&mut res, " ");
    push_str(&mut res, CYAN);
    push_str(&mut res, align_left(label, 13).as_str());
    push_str(&mut res, NC);
    push_str(&mut res, "  ");
    push_str(&mut res, value);
    res
}

/// The description in the summary: on lines of its own, indented by one
/// space, when it spans several lines; else as a field line.
pub fn description_output(desc: &str) -> (res: String)
    ensures
        find_char(desc@, '\n') is Some ==> res@ == " "@ + CYAN@ + "Description:"@ + NC@ + "\n "@
            + indent_newlines(desc@, 1),
        find_char(desc@, '\n') is None ==> res@ == " "@ + CYAN@ + "Description:"@ + spaces(
            if display_width("Description:"@) < 13 {
                (13 - display_width("Description:"@)) as nat
            } else {
                0
            },
        ) + NC@ + "  "@ + desc@,
{
    let chars = str_chars(desc);
    if crate::text::find_char_exec(chars.as_slice(), '\n').is_some() {
        let mut res = String::new();
        push_str(&mut res, " ");
        push_str(&mut res, CYAN);
        push_str(&mut res, "Description:");
        push_str(&mut res, NC);
        push_str(&mut res, "\n ");
        push_str(&mut res, padding_left(desc, 1).as_str());
        res
    } else {
        field_line("Description:", desc)
    }
}

/// The line announcing a download: `Downloading` in green and the file
/// name, then `Retry {n}` from the second attempt on.
pub fn downloading_line(name: &str, attempt: usize) -> (res: String)
    ensures
        res@ == " "@ + GREEN@ + "Downloading"@ + NC@ + " "@ + name@ + if attempt == 0 {
            Seq::empty()
        } else {
            "Retry "@ + dec(attempt as nat)
        },
{
    let mut res = String::new();
    push_str(&mut res, " ");
    push_str(&mut res, GREEN);
    push_str(&mut res, "Downloading");
    push_str(&mut res, NC);
    push_str(&mut res, " ");
    push_str(&mut res, name);
    if attempt > 0 {
        push_str(&mut res, "Retry ");
        push_str(&mut res, u64_to_string(attempt as u64).as_str());
    }
    res
}

/// The exit status when a short link cannot be followed or an id is
/// invalid.
pub const EXIT_BAD_INPUT: i32 = 400;

/// The exit status when fetching or saving a video failed.
pub const EXIT_FAILED: i32 = 500;

/// The exit status when every address of the video failed.
pub const EXIT_ALL_URLS_FAILED: i32 = 1;

/// What the downloader does with the video id found in its input.
pub enum CrawlStep {
    /// No id: this input is not a video of the site.
    NoMatch,
    /// Stop with this exit status.
    Exit(i32),
    /// Fetch and save the video with these ids.
    Download { aid: u64, bvid: String },
}

/// The step for an id found by `BILI_PATTERN` (or none): without an id,
/// nothing; an id that does not convert ends with `EXIT_BAD_INPUT`;
/// otherwise the video is downloaded with both its ids.
pub fn crawl_step(id: Option<String>) -> (res: CrawlStep)
    requires
        id matches Some(i) ==> (i@.len() > 0 && i@[0] == 'a' ==> starts_with(i@, "av"@)
            && parse_uint_spec(i@.skip(2), u64::MAX as nat) is Some),
    ensures
        id is None ==> res matches CrawlStep::NoMatch,
        id matches Some(i) ==> {
            let aid_case = i@.len() > 0 && i@[0] == 'a';
            &&& aid_case ==> {
                let n = parse_uint_spec(i@.skip(2), u64::MAX as nat)->0;
                if n < crate::bvid::MAX_AID {
                    res matches CrawlStep::Download { aid, bvid } && aid == n && bvid@
                        == crate::bvid::av_to_bv_spec(aid)
                } else {
                    res == CrawlStep::Exit(EXIT_BAD_INPUT)
                }
            }
            &&& !aid_case ==> match crate::bvid::bv_to_av_spec(i@) {
                Some(a) => res matches CrawlStep::Download { aid, bvid } && aid == a && bvid@ == i@,
                None => res == CrawlStep::Exit(EXIT_BAD_INPUT),
            }
        },
{
    match id {
        None => CrawlStep::NoMatch,
        Some(i) => {
            let bili_id = parse_bili_id(i.as_str());
            match bili_id.to_raw() {
                Ok((aid, bvid)) => CrawlStep::Download { aid, bvid },
                Err(()) => CrawlStep::Exit(EXIT_BAD_INPUT),
            }
        },
    }
}

/// The exit status after a download: 0 on success, `EXIT_FAILED` on error.
pub fn download_exit_code(ok: bool) -> (res: i32)
    ensures
        res == if ok { 0 } else { EXIT_FAILED },
{
    if ok {
        0
    } else {
        EXIT_FAILED
    }
}

/// What to do next with the addresses of a video.
pub enum UrlAttempt {
    /// Try the address at this position.
    Try(usize),
    /// The video was saved: go on with the audio.
    Done,
    /// Every address failed: stop with `EXIT_ALL_URLS_FAILED`.
    AllFailed,
}

/// The next attempt after `failures` failed ones (and a success, when
/// `succeeded`): the addresses are tried in order and the first success
/// ends the attempts.
pub fn next_url_attempt(url_count: usize, failures: usize, succeeded: bool) -> (res: UrlAttempt)
    ensures
        succeeded ==> res matches UrlAttempt::Done,
        !succeeded && failures < url_count ==> res == UrlAttempt::Try(failures),
        !succeeded && failures >= url_count ==> res matches UrlAttempt::AllFailed,
{
    if succeeded {
        UrlAttempt::Done
    } else if failures < url_count {
        UrlAttempt::Try(failures)
    } else {
        UrlAttempt::AllFailed
    }
}

} // verus!
