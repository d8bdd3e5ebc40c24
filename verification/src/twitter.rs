//! Tweets: finding their ids in a message, choosing what to fetch for each
//! media of a tweet, and the texts shown while sending.
use vstd::prelude::*;

use crate::parse::{parse_u64, parse_uint_spec};
use crate::pattern::{all_first_groups, regex_all_first_groups};
use crate::text::{dec, find_char, push_str, starts_with, str_chars, strip_prefix, u64_to_string};

verus! {

/// Pattern of a status link; its group is the tweet id.
pub const STATUS_PATTERN: &'static str = r"(?:https?://)?[a-z]*?(?:twitter|x)\.com/[a-zA-Z0-9_]+/status/(\d{13,20})";

/// Pattern of a bare tweet id after the command.
pub const TID_PATTERN: &'static str = r"(\d{13,20})";

/// Answer to a `/tid` command without an id.
pub const HELP: &'static str = "推特解析，支持批量解析多条链接。\n用法: /tid <url/tid> [url2 url3...]";

/// One encoding of a video.
pub struct Variant {
    pub content_type: String,
    pub bitrate: Option<u64>,
    pub url: String,
}

/// The encodings of a video and its length.
pub struct VideoInfo {
    pub duration_millis: Option<u64>,
    pub variants: Vec<Variant>,
}

/// A media of a tweet.
pub struct MediaEntity {
    /// `photo`, `video`, `animated_gif`, ...
    pub kind: String,
    pub media_url_https: String,
    pub video_info: Option<VideoInfo>,
    pub width: i32,
    pub height: i32,
}

/// The tweets a message asks for, and whether it asks for help.
pub struct TweetRequest {
    pub ids: Vec<String>,
    pub help: bool,
}

/// The ids a message asks for: those of its status links; failing those, in
/// a `/tid` command, every run of 13 to 20 digits; help for a `/tid`
/// command in which neither is found.
pub open spec fn tweet_request_spec(text: Seq<char>) -> (Seq<Seq<char>>, bool) {
    let links = all_first_groups(STATUS_PATTERN@, text);
    let command = starts_with(text, "/tid"@);
    let ids = if links.len() == 0 && command {
        all_first_groups(TID_PATTERN@, text)
    } else {
        links
    };
    (ids, ids.len() == 0 && command)
}

/// Decides the tweets of a message from the ids of its status links, the
/// runs of digits found in it (looked at only when there is no link) and
/// whether it is a `/tid` command.
pub fn select_tweet_ids(links: Vec<String>, digit_runs: Vec<String>, command: bool) -> (res:
    TweetRequest)
    ensures
        links@.len() > 0 ==> res.ids@ == links@ && !res.help,
        links@.len() == 0 && command ==> res.ids@ == digit_runs@ && res.help == (digit_runs@.len()
            == 0),
        links@.len() == 0 && !command ==> res.ids@.len() == 0 && !res.help,
{
    if links.len() > 0 {
        TweetRequest { ids: links, help: false }
    } else if command {
        let help = digit_runs.len() == 0;
        TweetRequest { ids: digit_runs, help }
    } else {
        TweetRequest { ids: links, help: false }
    }
}

/// Reads the tweets a message asks for (see `tweet_request_spec`).
pub fn tweet_request(text: &str) -> (res: TweetRequest)
    ensures
        res.ids@.map_values(|s: String| s@) == tweet_request_spec(text@).0,
        res.help == tweet_request_spec(text@).1,
{
    let command = strip_prefix(text, "/tid").is_some();
    let links = regex_all_first_groups(STATUS_PATTERN, text);
    let digit_runs = if links.len() == 0 && command {
        regex_all_first_groups(TID_PATTERN, text)
    } else {
        Vec::new()
    };
    let res = select_tweet_ids(links, digit_runs, command);
    proof {
        assert(res.ids@.map_values(|s: String| s@).len() == res.ids@.len());
    }
    res
}

/// The number of a tweet id, for the "original pictures" button; `None`
/// when the text is not a number that fits in 64 bits.
pub fn tweet_number(tid: &str) -> (res: Option<u64>)
    ensures
        match res {
            Some(v) => parse_uint_spec(tid@, u64::MAX as nat) == Some(v as nat),
            None => parse_uint_spec(tid@, u64::MAX as nat) is None,
        },
{
    parse_u64(tid)
}

/// The largest size of a picture: `name=orig` added as a query parameter.
pub open spec fn orig_url_spec(url: Seq<char>) -> Seq<char> {
    if find_char(url, '?') is Some {
        url + "&name=orig"@
    } else {
        url + "?name=orig"@
    }
}

/// Builds the address of a picture's largest size (see `orig_url_spec`).
pub fn orig_url(url: &str) -> (res: String)
    ensures
        res@ == orig_url_spec(url@),
{
    let chars = str_chars(url);
    let mut res = String::new();
    push_str(&mut res, url);
    if crate::text::find_char_exec(chars.as_slice(), '?').is_some() {
        push_str(&mut res, "&name=orig");
    } else {
        push_str(&mut res, "?name=orig");
    }
    res
}

/// The rank of an encoding: its bitrate (0 when unknown) for MP4, 0 for any
/// other type.
pub open spec fn variant_rank(v: Variant) -> u64 {
    if v.content_type@ == "video/mp4"@ {
        match v.bitrate {
            Some(b) => b,
            None => 0,
        }
    } else {
        0
    }
}

fn rank_of(v: &Variant) -> (res: u64)
    ensures
        res == variant_rank(*v),
{
    if crate::text::str_eq(v.content_type.as_str(), "video/mp4") {
        match v.bitrate {
            Some(b) => b,
            None => 0,
        }
    } else {
        0
    }
}

/// The encoding sent: the last one of highest rank; `None` when there is
/// none.
pub fn best_variant(variants: &Vec<Variant>) -> (res: Option<usize>)
    ensures
        variants@.len() == 0 <==> res is None,
        res matches Some(j) ==> j < variants@.len() && (forall|k: int|
            0 <= k < variants@.len() ==> variant_rank(#[trigger] variants@[k]) <= variant_rank(
                variants@[j as int],
            )) && (forall|k: int|
            j < k < variants@.len() ==> variant_rank(#[trigger] variants@[k]) < variant_rank(
                variants@[j as int],
            )),
{
    if variants.len() == 0 {
        return None;
    }
    let mut best: usize = 0;
    let mut best_rank = rank_of(&variants[0]);
    let mut i: usize = 1;
    while i < variants.len()
        invariant
            1 <= i <= variants@.len(),
            best < i,
            best_rank == variant_rank(variants@[best as int]),
            forall|k: int| 0 <= k < i ==> variant_rank(#[trigger] variants@[k]) <= best_rank,
            forall|k: int| best < k < i ==> variant_rank(#[trigger] variants@[k]) < best_rank,
        decreases variants@.len() - i,
    {
        let r = rank_of(&variants[i]);
        if r >= best_rank {
            best = i;
            best_rank = r;
        }
        i = i + 1;
    }
    Some(best)
}

/// What is fetched for a media of a tweet.
pub enum MediaPlan {
    /// A picture, from its largest size, saved with extension `jpg`.
    Photo { url: String },
    /// A video, from its chosen encoding, saved with extension `mp4`.
    Video { url: String, duration_millis: Option<u64> },
    /// A video without encodings listed.
    MissingVideoInfo,
    /// Another kind, not sent.
    Unsupported,
}

/// Whether a media is a video that can be sent.
pub open spec fn is_video_kind(kind: Seq<char>) -> bool {
    kind == "video"@ || kind == "animated_gif"@
}

/// What to fetch for a media when sending a tweet: pictures at their largest
/// size, videos and animations from their chosen encoding.
pub fn plan_media(m: &MediaEntity) -> (res: MediaPlan)
    requires
        is_video_kind(m.kind@) && m.video_info is Some ==> m.video_info->0.variants@.len() > 0,
    ensures
        m.kind@ == "photo"@ ==> (res matches MediaPlan::Photo { url } && url@ == orig_url_spec(
            m.media_url_https@,
        )),
        is_video_kind(m.kind@) ==> match m.video_info {
            Some(info) => res matches MediaPlan::Video { url, duration_millis } && duration_millis
                == info.duration_millis && exists|j: int|
                0 <= j < info.variants@.len() && url@ == info.variants@[j].url@ && (forall|k: int|
                    0 <= k < info.variants@.len() ==> variant_rank(#[trigger] info.variants@[k])
                        <= variant_rank(info.variants@[j])) && (forall|k: int|
                    j < k < info.variants@.len() ==> variant_rank(#[trigger] info.variants@[k])
                        < variant_rank(info.variants@[j])),
            None => res matches MediaPlan::MissingVideoInfo,
        },
        !(m.kind@ == "photo"@ || is_video_kind(m.kind@)) ==> res matches MediaPlan::Unsupported,
{
    let kind = m.kind.as_str();
    proof {
        reveal_strlit("photo");
        reveal_strlit("video");
        reveal_strlit("animated_gif");
        assert("photo"@[0] != "video"@[0]);
        assert("photo"@.len() != "animated_gif"@.len());
    }
    if crate::text::str_eq(kind, "photo") {
        return MediaPlan::Photo { url: orig_url(m.media_url_https.as_str()) };
    }
    if crate::text::str_eq(kind, "video") || crate::text::str_eq(kind, "animated_gif") {
        match &m.video_info {
            Some(info) => {
                let j = best_variant(&info.variants).unwrap();
                return MediaPlan::Video {
                    url: info.variants[j].url.clone(),
                    duration_millis: info.duration_millis,
                };
            },
            None => {
                return MediaPlan::MissingVideoInfo;
            },
        }
    }
    MediaPlan::Unsupported
}

/// What is fetched for a media when sending the original files: the file
/// address and its MIME type; `None` for kinds not sent (animations
/// included).
pub fn plan_original(m: &MediaEntity) -> (res: Option<(String, &'static str)>)
    requires
        m.kind@ == "video"@ ==> m.video_info is Some && m.video_info->0.variants@.len() > 0,
    ensures
        m.kind@ == "photo"@ ==> (res matches Some((url, mime)) && url@ == orig_url_spec(
            m.media_url_https@,
        ) && mime@ == "image/jpeg"@),
        m.kind@ == "video"@ ==> (res matches Some((url, mime)) && mime@ == "video/mp4"@ && exists|
            j: int,
        |
            0 <= j < m.video_info->0.variants@.len() && url@ == m.video_info->0.variants@[j].url@
                && (forall|k: int|
                0 <= k < m.video_info->0.variants@.len() ==> variant_rank(
                    #[trigger] m.video_info->0.variants@[k],
                ) <= variant_rank(m.video_info->0.variants@[j])) && (forall|k: int|
                j < k < m.video_info->0.variants@.len() ==> variant_rank(
                    #[trigger] m.video_info->0.variants@[k],
                ) < variant_rank(m.video_info->0.variants@[j]))),
        !(m.kind@ == "photo"@ || m.kind@ == "video"@) ==> res is None,
{
    let kind = m.kind.as_str();
    proof {
        reveal_strlit("photo");
        reveal_strlit("video");
        assert("photo"@[0] != "video"@[0]);
    }
    if crate::text::str_eq(kind, "photo") {
        return Some((orig_url(m.media_url_https.as_str()), "image/jpeg"));
    }
    if crate::text::str_eq(kind, "video") {
        let info = m.video_info.as_ref().unwrap();
        let j = best_variant(&info.variants).unwrap();
        return Some((info.variants[j].url.clone(), "video/mp4"));
    }
    None
}

/// The cache key of media `index` (from 0) of a tweet: `{tid}_{index + 1}`,
/// with `_original` for the original files.
pub open spec fn media_key_spec(tid: Seq<char>, index: nat, original: bool) -> Seq<char> {
    tid + "_"@ + dec(index + 1) + if original {
        "_original"@
    } else {
        ""@
    }
}

/// Builds a cache key (see `media_key_spec`).
pub fn media_key(tid: &str, index: usize, original: bool) -> (res: String)
    requires
        index < u64::MAX,
    ensures
        res@ == media_key_spec(tid@, index as nat, original),
{
    let mut res = String::new();
    push_str(&mut res, tid);
    push_str(&mut res, "_");
    push_str(&mut res, u64_to_string(index as u64 + 1).as_str());
    if original {
        push_str(&mut res, "_original");
    } else {
        proof {
            reveal_strlit("");
            assert(res@ + ""@ =~= res@);
        }
    }
    res
}

/// A status line about a tweet: `[{tid}] {body}`.
pub fn tweet_status(tid: &str, body: &str) -> (res: String)
    ensures
        res@ == "["@ + tid@ + "] "@ + body@,
{
    let mut res = String::new();
    push_str(&mut res, "[");
    push_str(&mut res, tid);
    push_str(&mut res, "] ");
    push_str(&mut res, body);
    res
}

/// The progress line of media `index + 1` of `count`: `[{tid}] 媒体下载中
/// {i} / {n}...` while fetching, `上传中` while uploading.
pub fn media_progress(tid: &str, uploading: bool, index: usize, count: usize) -> (res: String)
    requires
        index < u64::MAX,
    ensures
        res@ == "["@ + tid@ + "] "@ + (if uploading {
            "媒体上传中 "@
        } else {
            "媒体下载中 "@
        }) + dec(index as nat + 1) + " / "@ + dec(count as nat) + "..."@,
{
    let mut res = String::new();
    push_str(&mut res, "[");
    push_str(&mut res, tid);
    push_str(&mut res, "] ");
    if uploading {
        push_str(&mut res, "媒体上传中 ");
    } else {
        push_str(&mut res, "媒体下载中 ");
    }
    push_str(&mut res, u64_to_string(index as u64 + 1).as_str());
    push_str(&mut res, " / ");
    push_str(&mut res, u64_to_string(count as u64).as_str());
    push_str(&mut res, "...");
    res
}

/// The failure line of media `index + 1`: `[{tid}] 媒体 {i} 下载失败`, or
/// `上传失败`.
pub fn media_failed(tid: &str, uploading: bool, index: usize) -> (res: String)
    requires
        index < u64::MAX,
    ensures
        res@ == "["@ + tid@ + "] 媒体 "@ + dec(index as nat + 1) + (if uploading {
            " 上传失败"@
        } else {
            " 下载失败"@
        }),
{
    let mut res = String::new();
    push_str(&mut res, "[");
    push_str(&mut res, tid);
    push_str(&mut res, "] 媒体 ");
    push_str(&mut res, u64_to_string(index as u64 + 1).as_str());
    if uploading {
        push_str(&mut res, " 上传失败");
    } else {
        push_str(&mut res, " 下载失败");
    }
    res
}

/// The line for a media kind that is not sent: `暂不支持的媒体类型: {kind}`.
pub fn unsupported_text(kind: &str) -> (res: String)
    ensures
        res@ == "暂不支持的媒体类型: "@ + kind@,
{
    let mut res = String::new();
    push_str(&mut res, "暂不支持的媒体类型: ");
    push_str(&mut res, kind);
    res
}

/// What is shown while a tweet is being sent: `请等待...`.
pub const WAITING: &'static str = "请等待...";

/// What is shown when a tweet was sent: `解析完成`.
pub const DONE: &'static str = "解析完成";

/// What is sent when a tweet asked for its original files has no media.
pub const NO_MEDIA: &'static str = "该推文不存在媒体";

/// What is shown when a video lists no encodings.
pub const MISSING_VIDEO_INFO: &'static str = "video_info 为空";

/// What is shown when the album could not be sent.
pub const SEND_FAILED: &'static str = "媒体发送失败";

/// The characters of an optional file name.
pub open spec fn name_view(n: Option<String>) -> Option<Seq<char>> {
    match n {
        Some(s) => Some(s@),
        None => None,
    }
}

/// How media `index` of a tweet goes into the album.
pub struct AlbumEntry {
    /// The key the media is cached under.
    pub key: String,
    /// The file it is fetched to, for kinds that are fetched.
    pub file_name: Option<String>,
    /// The file its cover is fetched to, for videos.
    pub thumb_name: Option<String>,
    /// Whether it carries the tweet's caption and the reply to the message.
    pub caption: bool,
}

/// How media `index` with plan `plan` goes into the album of tweet `tid`:
/// cached under `{tid}_{index + 1}`, fetched to that key with `.jpg` for a
/// picture or `.mp4` for a video (whose cover goes to `{key}_thumb.jpg`),
/// and carrying the caption only when it is the first media.
pub fn album_entry(tid: &str, index: usize, plan: &MediaPlan) -> (res: AlbumEntry)
    requires
        index < u64::MAX,
    ensures
        res.key@ == media_key_spec(tid@, index as nat, false),
        res.caption == (index == 0),
        match *plan {
            MediaPlan::Photo { .. } => name_view(res.file_name) == Some(res.key@ + ".jpg"@)
                && res.thumb_name is None,
            MediaPlan::Video { .. } => name_view(res.file_name) == Some(res.key@ + ".mp4"@)
                && name_view(res.thumb_name) == Some(res.key@ + "_thumb.jpg"@),
            _ => res.file_name is None && res.thumb_name is None,
        },
{
    let key = media_key(tid, index, false);
    let (file_name, thumb_name) = match plan {
        MediaPlan::Photo { .. } => (Some(with_suffix(key.as_str(), ".jpg")), None),
        MediaPlan::Video { .. } => (
            Some(with_suffix(key.as_str(), ".mp4")),
            Some(with_suffix(key.as_str(), "_thumb.jpg")),
        ),
        _ => (None, None),
    };
    AlbumEntry { key, file_name, thumb_name, caption: index == 0 }
}

fn with_suffix(key: &str, suffix: &str) -> (res: String)
    ensures
        res@ == key@ + suffix@,
{
    let mut res = String::new();
    push_str(&mut res, key);
    push_str(&mut res, suffix);
    res
}

/// The file an original file is fetched to: `{key}.jpg` for a picture,
/// `{key}.mp4` for a video (told apart by the MIME type of `plan_original`).
pub fn original_file_name(key: &str, mime: &str) -> (res: String)
    ensures
        res@ == key@ + if mime@ == "image/jpeg"@ {
            ".jpg"@
        } else {
            ".mp4"@
        },
{
    if crate::text::str_eq(mime, "image/jpeg") {
        with_suffix(key, ".jpg")
    } else {
        with_suffix(key, ".mp4")
    }
}

/// The keys the messages of a sent album are cached under: message `j`
/// (from 0) under `{tid}_{j + 1}`, with `_original` for the original files.
pub fn stored_keys(tid: &str, count: usize, original: bool) -> (res: Vec<String>)
    requires
        count < u64::MAX,
    ensures
        res@.len() == count,
        forall|j: int| 0 <= j < count ==> (#[trigger] res@[j])@ == media_key_spec(tid@, j as nat, original),
{
    let mut res: Vec<String> = Vec::new();
    let mut j: usize = 0;
    while j < count
        invariant
            j <= count < u64::MAX,
            res@.len() == j,
            forall|k: int| 0 <= k < j ==> (#[trigger] res@[k])@ == media_key_spec(tid@, k as nat, original),
        decreases count - j,
    {
        res.push(media_key(tid, j, original));
        j = j + 1;
    }
    res
}

} // verus!
