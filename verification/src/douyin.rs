//! Douyin posts: the data of a post, the request that fetches it, how the
//! reply decides on success, and the caption sent with the media.
use vstd::prelude::*;

use crate::text::{i64_to_string, push_str, u64_to_string, dec, dec_signed};
use crate::urlencode::query_view;
use crate::pattern::{first_group, regex_first_group};
use crate::abogus::{
    abogus, abogus_spec, drawable_fingerprint, drawable_prefix, websign, websign_spec,
};
use crate::urlencode::form_urlencoded_spec;

verus! {

/// Browser identity sent with the detail request.
pub const USER_AGENT: &'static str = "Mozilla/5.0 (X11; Linux x86_64) AppleWebKit/537.36 (KHTML, like Gecko) Chrome/137.0.0.0 Safari/537.36";

/// Cookies sent with the detail request.
pub const COOKIE: &'static str = "SEARCH_RESULT_LIST_TYPE=%22single%22; hevc_supported=true; odin_tt=55dfb5fc5e18cbe6c9ae1cde4fcea19030bd5cf2f6878017dfec590258aad0daf46ee186814f3462c96235ce93024828033b43bbd5dd3d2cd73d4be13f790dd6c38ad0abf1e19023901cf8f4d1077dd6; enter_pc_once=1; UIFID=4b5df8f2f1e37245005fd22980d950d15862f006c9917e4d56af34274e9d091069d16eb83533042983a5affc457fe8f67a16d2fcfc0989a420ac1cddee10b3d302489db181a6aba66248d26970a0dcbb8b9a1d4c610eed0a10c334f5dc1c9df4042146f15c0b93f43e06f172128eb12c5b9428e9462de86b3bd4ef8bdf22baeab16471327145507e7abc28f2a0b277845df7be865f67092c4187af60e4635c06; volume_info=%7B%22isUserMute%22%3Afalse%2C%22isMute%22%3Afalse%2C%22volume%22%3A0.5%7D; home_can_add_dy_2_desktop=%220%22; is_dash_user=1; passport_csrf_token=18828a19eea858005294ed9086ff72f1; passport_csrf_token_default=18828a19eea858005294ed9086ff72f1; __security_mc_1_s_sdk_crypt_sdk=d0eaa373-4923-8cff; bd_ticket_guard_client_data=eyJiZC10aWNrZXQtZ3VhcmQtdmVyc2lvbiI6MiwiYmQtdGlja2V0LWd1YXJkLWl0ZXJhdGlvbi12ZXJzaW9uIjoxLCJiZC10aWNrZXQtZ3VhcmQtcmVlLXB1YmxpYy1rZXkiOiJCTFpjUzJYN1A0RXZreXlUOHFlSVQwZUhTVTlUUURBL3pVUm50RmdjM0NZdkwxMkk4b0JMOVN0V0VrQkJSdjlkZ0NsVUZLN1hRb0lnNjRmNDE1Qk5nQ1U9IiwiYmQtdGlja2V0LWd1YXJkLXdlYi12ZXJzaW9uIjoyfQ%3D%3D; bd_ticket_guard_client_web_domain=2; SEARCH_UN_LOGIN_PV_CURR_DAY=%7B%22date%22%3A1789271953167%2C%22count%22%3A3%7D; is_support_rtm_web_ts=1; strategyABtestKey=%221789439529.393%22; ttwid=1%7C8x4bRO_NTtYfuR6Zhia0uBJSO85gar9GtvpJkqGBIrA%7C1789439529%7C6349f3019e24b389ef89561fb75b7f08a55882ae01e74a4e5ad8ca6dc3cd8968; biz_trace_id=2fcfd313; IsDouyinActive=false; stream_recommend_feed_params=%22%7B%5C%22cookie_enabled%5C%22%3Atrue%2C%5C%22screen_width%5C%22%3A360%2C%5C%22screen_height%5C%22%3A800%2C%5C%22browser_online%5C%22%3Atrue%2C%5C%22cpu_core_num%5C%22%3A8%2C%5C%22device_memory%5C%22%3A8%2C%5C%22downlink%5C%22%3A10%2C%5C%22effective_type%5C%22%3A%5C%224g%5C%22%2C%5C%22round_trip_time%5C%22%3A50%7D%22";

/// Caption title used when a post has neither title nor description.
pub const EMPTY_TITLE: &'static str = "&lt;空标题&gt;";

/// Endpoint of the post detail request.
pub const AWEME_HOST: &'static str = "https://www-hj.douyin.com/aweme/v1/web/aweme/detail/";

/// Answer to a `/douyin` command without a link.
pub const HELP: &'static str = "Bilibili 解析。用法: /bili <url>";

/// Pattern of a post link; its group is the post id.
pub const AWEME_PATTERN: &'static str = r"(?:https?://)?(?:www\.|so\.)?(?:ies)?douyin\.com/(?:.*?video/|(?:share/)?note/|.*?modal_id=|.*?actv_aid=)?([0-9]{12,20})";

/// Pattern of a short link; its group is the short id.
pub const SHORT_PATTERN: &'static str = r"(?:https?://)?v\.douyin\.com/([0-9a-zA-Z_-]{5,14})";

/// Names of the fixed parameters of the detail request, after `aweme_id`.
pub const QUERY_KEYS: [&'static str; 33] = [
    "device_platform",
    "aid",
    "channel",
    "request_source",
    "origin_type",
    "update_version_code",
    "pc_client_type",
    "pc_libra_divert",
    "support_h265",
    "support_dash",
    "cpu_core_num",
    "version_code",
    "version_name",
    "cookie_enabled",
    "screen_width",
    "screen_height",
    "browser_language",
    "browser_platform",
    "browser_name",
    "browser_version",
    "browser_online",
    "engine_name",
    "engine_version",
    "os_name",
    "os_version",
    "device_memory",
    "platform",
    "downlink",
    "effective_type",
    "round_trip_time",
    "webid",
    "verifyFp",
    "fp",
];

/// Values of the fixed parameters, in the order of `QUERY_KEYS`.
pub const QUERY_VALUES: [&'static str; 33] = [
    "webapp",
    "6383",
    "channel_pc_web",
    "600",
    "video_page",
    "170400",
    "1",
    "Linux",
    "1",
    "1",
    "8",
    "190500",
    "19.5.0",
    "true",
    "360",
    "800",
    "zh-CN",
    "Linux armv81",
    "Chrome",
    "137.0.0.0",
    "true",
    "Blink",
    "137.0.0.0",
    "Linux",
    "x86_64",
    "8",
    "PC",
    "10",
    "4g",
    "50",
    "7671197164462655017",
    "verify_msinqp0c_NoMtCO71_mqfy_4Bh8_AAln_PnDQzGIPPtcb",
    "verify_msinqp0c_NoMtCO71_mqfy_4Bh8_AAln_PnDQzGIPPtcb",
];

/// The author of a post.
pub struct Author {
    pub sec_uid: String,
    pub nickname: String,
}

/// A media address: mirrors of one file and its size.
pub struct Addr {
    pub url_list: Vec<String>,
    pub width: i32,
    pub height: i32,
}

/// The video of a post.
pub struct Video {
    /// Length in milliseconds.
    pub duration: u32,
    pub play_addr: Addr,
    pub download_addr: Option<Addr>,
    pub origin_cover: Addr,
}

/// One picture of a picture post.
pub struct Image {
    pub url_list: Vec<String>,
}

/// A post.
pub struct AwemeDetail {
    pub author: Author,
    pub aweme_id: String,
    pub item_title: String,
    pub desc: String,
    pub aweme_type: i32,
    pub video: Option<Video>,
    pub images: Option<Vec<Image>>,
}

/// Why a post could not be had, apart from the transport and the JSON.
pub enum GetAwemeError {
    /// The server answered with another HTTP status than 200.
    Status(u16),
    /// The reply holds no post.
    NotFound,
    /// The reply carries a non-zero status code, as text.
    Api(String),
}

impl GetAwemeError {
    /// The message shown for the error.
    pub fn message(&self) -> (res: String)
        ensures
            res@ == match *self {
                GetAwemeError::Status(s) => "状态码错误: "@ + dec(s as nat),
                GetAwemeError::NotFound => "推文不存在"@,
                GetAwemeError::Api(t) => "API 错误: "@ + t@,
            },
    {
        let mut res = String::new();
        match self {
            GetAwemeError::Status(s) => {
                push_str(&mut res, "状态码错误: ");
                push_str(&mut res, u64_to_string(*s as u64).as_str());
            },
            GetAwemeError::NotFound => push_str(&mut res, "推文不存在"),
            GetAwemeError::Api(t) => {
                push_str(&mut res, "API 错误: ");
                push_str(&mut res, t.as_str());
            },
        }
        res
    }
}

/// The outcome of a decoded reply: a non-zero status code is an API error
/// carrying the code; otherwise the post, or `NotFound` when there is none.
pub fn aweme_result(status_code: i32, aweme_detail: Option<AwemeDetail>) -> (res: Result<
    AwemeDetail,
    GetAwemeError,
>)
    ensures
        status_code != 0 ==> (res matches Err(GetAwemeError::Api(t)) && t@ == dec_signed(
            status_code as int,
        )),
        status_code == 0 ==> match aweme_detail {
            Some(d) => res == Ok::<AwemeDetail, GetAwemeError>(d),
            None => res matches Err(GetAwemeError::NotFound),
        },
{
    if status_code != 0 {
        return Err(GetAwemeError::Api(i64_to_string(status_code as i64)));
    }
    match aweme_detail {
        Some(d) => Ok(d),
        None => Err(GetAwemeError::NotFound),
    }
}

/// The outcome of the HTTP status of the detail request: anything but 200
/// is an error carrying the status.
pub fn check_http_status(status: u16) -> (res: Result<(), GetAwemeError>)
    ensures
        status == 200 <==> res is Ok,
        res matches Err(e) ==> e == GetAwemeError::Status(status),
{
    if status == 200 {
        Ok(())
    } else {
        Err(GetAwemeError::Status(status))
    }
}

/// The parameters of the detail request for a post id: `aweme_id`, then the
/// fixed parameters of `QUERY_KEYS` and `QUERY_VALUES`.
pub open spec fn aweme_query_spec(aid: Seq<char>) -> Seq<(Seq<char>, Seq<char>)> {
    seq![("aweme_id"@, aid)] + Seq::new(33, |i: int| (QUERY_KEYS@[i]@, QUERY_VALUES@[i]@))
}

/// Builds the unsigned parameters of the detail request (see
/// `aweme_query_spec`).
pub fn aweme_query(aid: &str) -> (res: Vec<(&'static str, String)>)
    ensures
        query_view(res@) == aweme_query_spec(aid@),
{
    let mut res: Vec<(&'static str, String)> = Vec::new();
    res.push(("aweme_id", aid.to_owned()));
    let mut i: usize = 0;
    while i < 33
        invariant
            i <= 33,
            res@.len() == i + 1,
            query_view(res@) == aweme_query_spec(aid@).take(i + 1),
        decreases 33 - i,
    {
        res.push((QUERY_KEYS[i], QUERY_VALUES[i].to_owned()));
        i = i + 1;
        assert(query_view(res@) =~= aweme_query_spec(aid@).take(i + 1));
    }
    assert(aweme_query_spec(aid@).take(34) =~= aweme_query_spec(aid@));
    res
}

/// The title shown for a post: its title, else its description, else
/// `EMPTY_TITLE`.
pub open spec fn douyin_title(item_title: Seq<char>, desc: Seq<char>) -> Seq<char> {
    let t = if item_title.len() == 0 {
        desc
    } else {
        item_title
    };
    if t.len() == 0 {
        EMPTY_TITLE@
    } else {
        t
    }
}

/// The caption of a post: a link to the post under its title, a link to the
/// author under the nickname, and the tag.
pub open spec fn douyin_msg_spec(
    aid: Seq<char>,
    title: Seq<char>,
    sec_uid: Seq<char>,
    nickname: Seq<char>,
) -> Seq<char> {
    "<a href=\"https://www.douyin.com/video/"@ + aid + "\">"@ + title
        + "</a> - <a href=\"https://www.douyin.com/user/"@ + sec_uid + "\">"@ + nickname
        + "</a> #douyin"@
}

/// Builds the caption of a post (see `douyin_msg_spec`).
pub fn parse_msg(res: &AwemeDetail) -> (msg: String)
    ensures
        msg@ == douyin_msg_spec(
            res.aweme_id@,
            douyin_title(res.item_title@, res.desc@),
            res.author.sec_uid@,
            res.author.nickname@,
        ),
{
    let mut title: &str = if res.item_title.unicode_len() == 0 {
        res.desc.as_str()
    } else {
        res.item_title.as_str()
    };
    if title.unicode_len() == 0 {
        title = EMPTY_TITLE;
    }
    let mut msg = String::new();
    push_str(&mut msg, "<a href=\"https://www.douyin.com/video/");
    push_str(&mut msg, res.aweme_id.as_str());
    push_str(&mut msg, "\">");
    push_str(&mut msg, title);
    push_str(&mut msg, "</a> - <a href=\"https://www.douyin.com/user/");
    push_str(&mut msg, res.author.sec_uid.as_str());
    push_str(&mut msg, "\">");
    push_str(&mut msg, res.author.nickname.as_str());
    push_str(&mut msg, "</a> #douyin");
    msg
}

/// The post id in a message text: the group of the first match of
/// `AWEME_PATTERN`.
pub fn aweme_id_in(text: &str) -> (res: Option<String>)
    ensures
        match res {
            Some(s) => first_group(AWEME_PATTERN@, text@) == Some(s@),
            None => first_group(AWEME_PATTERN@, text@) is None,
        },
{
    regex_first_group(AWEME_PATTERN, text)
}

/// The short id in a message text: the group of the first match of
/// `SHORT_PATTERN`.
pub fn short_id_in(text: &str) -> (res: Option<String>)
    ensures
        match res {
            Some(s) => first_group(SHORT_PATTERN@, text@) == Some(s@),
            None => first_group(SHORT_PATTERN@, text@) is None,
        },
{
    regex_first_group(SHORT_PATTERN, text)
}

/// The address that a short link redirects from.
pub fn short_url(short_id: &str) -> (res: String)
    ensures
        res@ == "https://v.douyin.com/"@ + short_id@,
{
    let mut res = String::new();
    push_str(&mut res, "https://v.douyin.com/");
    push_str(&mut res, short_id);
    res
}

/// The page of a post, sent back when it was reached through a short link.
pub fn video_link(aid: &str) -> (res: String)
    ensures
        res@ == "https://www.douyin.com/video/"@ + aid@,
{
    let mut res = String::new();
    push_str(&mut res, "https://www.douyin.com/video/");
    push_str(&mut res, aid);
    res
}

/// Whether a message asks for help when no link is found in it.
pub fn is_douyin_command(text: &str) -> (res: bool)
    ensures
        res == crate::text::starts_with(text@, "/douyin"@),
{
    crate::text::strip_prefix(text, "/douyin").is_some()
}

/// The file that caches the reply for a post: `{aid}.json`.
pub fn aweme_cache_name(aid: &str) -> (res: String)
    ensures
        res@ == aid@ + ".json"@,
{
    let mut res = String::new();
    push_str(&mut res, aid);
    push_str(&mut res, ".json");
    res
}

/// The signed parameters of the detail request: those of `aweme_query`,
/// then `a_bogus` computed for an empty body and `USER_AGENT`, then the
/// web signature (`uifid` and `msToken`).
pub fn signed_aweme_query(aid: &str) -> (res: Vec<(&'static str, String)>)
    ensures
        res@.len() == 38,
        query_view(res@).take(34) == aweme_query_spec(aid@),
        res@[34].0@ == "a_bogus"@,
        exists|fp: Seq<char>, start: i64, end: i64, prefix: Seq<u8>|
            {
                &&& drawable_fingerprint(fp)
                &&& drawable_prefix(prefix)
                &&& res@[34].1@ == #[trigger] abogus_spec(
                    form_urlencoded_spec(aweme_query_spec(aid@)),
                    ""@,
                    USER_AGENT@,
                    fp,
                    start,
                    end,
                    prefix,
                )
            },
        exists|ts: i64| query_view(res@) == #[trigger] websign_spec(query_view(res@).take(35), ts as int),
{
    let mut query = aweme_query(aid);
    let ghost before = query@;
    abogus(&mut query, "", Some(USER_AGENT), None);
    let ghost signed = query@;
    assert(query_view(signed).take(34) =~= query_view(before));
    websign(&mut query);
    proof {
        let ts = choose|ts: i64| query_view(query@) == websign_spec(query_view(signed), ts as int);
        assert(query_view(query@).take(35) =~= query_view(signed));
        assert(query_view(query@).take(34) =~= query_view(signed).take(34));
        assert(query_view(query@)[34] == query_view(signed)[34]);
        assert(query@[34].1@ == signed[34].1@);
        assert(query_view(query@) == websign_spec(query_view(query@).take(35), ts as int));
        reveal_strlit("");
    }
    query
}

/// The prefix of the progress messages of a post: `[douyin/{aid}]`.
pub fn douyin_prefix(aid: &str) -> (res: String)
    ensures
        res@ == "[douyin/"@ + aid@ + "]"@,
{
    let mut res = String::new();
    push_str(&mut res, "[douyin/");
    push_str(&mut res, aid);
    push_str(&mut res, "]");
    res
}

/// A file to fetch and send: the key it is cached under and its address.
pub struct MediaJob {
    pub key: String,
    pub url: String,
}

/// The last address of a list of mirrors.
pub open spec fn last_url(urls: Seq<String>) -> Seq<char> {
    urls.last()@
}

/// Whether every address list that sending a post reads has an entry.
pub open spec fn addresses_present(d: AwemeDetail) -> bool {
    &&& (d.images is None && d.video is Some) ==> {
        let v = d.video->0;
        &&& v.play_addr.url_list@.len() > 0
        &&& v.origin_cover.url_list@.len() > 0
        &&& v.download_addr matches Some(a) ==> a.url_list@.len() > 0
    }
    &&& d.images matches Some(imgs) ==> forall|i: int|
        0 <= i < imgs@.len() ==> (#[trigger] imgs@[i]).url_list@.len() > 0
}

fn last_of(urls: &Vec<String>) -> (res: String)
    requires
        urls@.len() > 0,
    ensures
        res@ == last_url(urls@),
{
    urls[urls.len() - 1].clone()
}

fn keyed(aid: &str, suffix: &str) -> (res: String)
    ensures
        res@ == "douyin_"@ + aid@ + suffix@,
{
    let mut res = String::new();
    push_str(&mut res, "douyin_");
    push_str(&mut res, aid);
    push_str(&mut res, suffix);
    res
}

/// The videos sent for a post: none for a picture post or a post without
/// video; else the played version (`douyin_{aid}_play`), then the download
/// version (`douyin_{aid}_down`) when there is one, each from the last
/// mirror.
pub fn video_jobs(aid: &str, d: &AwemeDetail) -> (res: Vec<MediaJob>)
    requires
        addresses_present(*d),
    ensures
        (d.images is Some || d.video is None) ==> res@.len() == 0,
        (d.images is None && d.video is Some) ==> {
            let v = d.video->0;
            &&& res@.len() == if v.download_addr is Some { 2int } else { 1int }
            &&& res@[0].key@ == "douyin_"@ + aid@ + "_play"@
            &&& res@[0].url@ == last_url(v.play_addr.url_list@)
            &&& v.download_addr matches Some(a) ==> res@[1].key@ == "douyin_"@ + aid@ + "_down"@
                && res@[1].url@ == last_url(a.url_list@)
        },
{
    let mut res: Vec<MediaJob> = Vec::new();
    if d.images.is_some() {
        return res;
    }
    match &d.video {
        None => res,
        Some(v) => {
            res.push(MediaJob { key: keyed(aid, "_play"), url: last_of(&v.play_addr.url_list) });
            match &v.download_addr {
                Some(a) => {
                    res.push(MediaJob { key: keyed(aid, "_down"), url: last_of(&a.url_list) });
                },
                None => {},
            }
            res
        },
    }
}

/// The cover of a video post, from the last mirror, saved as
/// `{aid}_thumb.jpg`.
pub fn cover_job(aid: &str, v: &Video) -> (res: MediaJob)
    requires
        v.origin_cover.url_list@.len() > 0,
    ensures
        res.key@ == aid@ + "_thumb.jpg"@,
        res.url@ == last_url(v.origin_cover.url_list@),
{
    let mut key = String::new();
    push_str(&mut key, aid);
    push_str(&mut key, "_thumb.jpg");
    MediaJob { key, url: last_of(&v.origin_cover.url_list) }
}

/// The pictures sent for a picture post, in order: picture `i` is cached as
/// `douyin_image_{aid}_p{i}` and fetched from its last mirror.
pub fn image_jobs(aid: &str, d: &AwemeDetail) -> (res: Vec<MediaJob>)
    requires
        addresses_present(*d),
    ensures
        d.images is None ==> res@.len() == 0,
        d.images matches Some(imgs) ==> res@.len() == imgs@.len() && forall|i: int|
            0 <= i < imgs@.len() ==> (#[trigger] res@[i]).key@ == "douyin_image_"@ + aid@ + "_p"@
                + dec(i as nat) && res@[i].url@ == last_url(imgs@[i].url_list@),
{
    let mut res: Vec<MediaJob> = Vec::new();
    match &d.images {
        None => res,
        Some(imgs) => {
            assert(forall|k: int| 0 <= k < imgs@.len() ==> (#[trigger] imgs@[k]).url_list@.len() > 0);
            let mut i: usize = 0;
            while i < imgs.len()
                invariant
                    forall|k: int| 0 <= k < imgs@.len() ==> (#[trigger] imgs@[k]).url_list@.len() > 0,
                    i <= imgs@.len(),
                    res@.len() == i,
                    forall|k: int|
                        0 <= k < i ==> (#[trigger] res@[k]).key@ == "douyin_image_"@ + aid@
                            + "_p"@ + dec(k as nat) && res@[k].url@ == last_url(
                            imgs@[k].url_list@,
                        ),
                decreases imgs@.len() - i,
            {
                assert(imgs@[i as int].url_list@.len() > 0);
                let mut key = String::new();
                push_str(&mut key, "douyin_image_");
                push_str(&mut key, aid);
                push_str(&mut key, "_p");
                push_str(&mut key, u64_to_string(i as u64).as_str());
                res.push(MediaJob { key, url: last_of(&imgs[i].url_list) });
                i = i + 1;
            }
            res
        },
    }
}

/// A status line of a post: the prefix, a space and the text.
pub fn douyin_status(prefix: &str, body: &str) -> (res: String)
    ensures
        res@ == prefix@ + " "@ + body@,
{
    let mut res = String::new();
    push_str(&mut res, prefix);
    push_str(&mut res, " ");
    push_str(&mut res, body);
    res
}

/// The progress line of picture `index + 1` of `count`: `{prefix} 下载图片中
/// {i} / {n}...` while fetching, `上传图片中` while uploading.
pub fn image_progress(prefix: &str, uploading: bool, index: usize, count: usize) -> (res: String)
    requires
        index < u64::MAX,
    ensures
        res@ == prefix@ + (if uploading {
            " 上传图片中 "@
        } else {
            " 下载图片中 "@
        }) + dec(index as nat + 1) + " / "@ + dec(count as nat) + "..."@,
{
    let mut res = String::new();
    push_str(&mut res, prefix);
    if uploading {
        push_str(&mut res, " 上传图片中 ");
    } else {
        push_str(&mut res, " 下载图片中 ");
    }
    push_str(&mut res, u64_to_string(index as u64 + 1).as_str());
    push_str(&mut res, " / ");
    push_str(&mut res, u64_to_string(count as u64).as_str());
    push_str(&mut res, "...");
    res
}

/// The failure line of picture `index + 1`: `{prefix} 图片 {i} 下载失败: {reason}`
/// when fetching failed, `{prefix} 图片 {i} 上传失败` when uploading did.
pub fn image_failed(prefix: &str, index: usize, download_error: Option<&str>) -> (res: String)
    requires
        index < u64::MAX,
    ensures
        res@ == prefix@ + " 图片 "@ + dec(index as nat + 1) + match download_error {
            Some(e) => " 下载失败: "@ + e@,
            None => " 上传失败"@,
        },
{
    let mut res = String::new();
    push_str(&mut res, prefix);
    push_str(&mut res, " 图片 ");
    push_str(&mut res, u64_to_string(index as u64 + 1).as_str());
    match download_error {
        Some(e) => {
            push_str(&mut res, " 下载失败: ");
            push_str(&mut res, e);
        },
        None => push_str(&mut res, " 上传失败"),
    }
    res
}

/// What the bot does next with a message that may hold a post.
pub enum DouyinStep {
    /// Follow this short link and look again at where it leads.
    Resolve(String),
    /// Send this post; with `announce`, first answer with the post's page
    /// (the post was reached through a short link).
    Send { aid: String, announce: bool },
    /// Answer with the usage.
    Help,
    /// Nothing to do.
    Ignore,
}

/// The next step from what was found in a text: a short link is followed
/// first; else a post is sent; else a `/douyin` command gets the usage.
pub fn douyin_step(short_id: Option<String>, aid: Option<String>, command: bool, via_short: bool) -> (res:
    DouyinStep)
    ensures
        short_id matches Some(s) ==> (res matches DouyinStep::Resolve(u) && u@ == "https://v.douyin.com/"@
            + s@),
        short_id is None && aid is Some ==> (res matches DouyinStep::Send { aid: a, announce } && a@
            == aid->0@ && announce == via_short),
        short_id is None && aid is None && command ==> res matches DouyinStep::Help,
        short_id is None && aid is None && !command ==> res matches DouyinStep::Ignore,
{
    match short_id {
        Some(s) => DouyinStep::Resolve(short_url(s.as_str())),
        None => match aid {
            Some(a) => DouyinStep::Send { aid: a, announce: via_short },
            None => {
                if command {
                    DouyinStep::Help
                } else {
                    DouyinStep::Ignore
                }
            },
        },
    }
}

/// The first step for a message text (see `douyin_step`).
pub fn first_douyin_step(text: &str) -> (res: DouyinStep)
    ensures
        first_group(SHORT_PATTERN@, text@) matches Some(s) ==> (res matches DouyinStep::Resolve(u)
            && u@ == "https://v.douyin.com/"@ + s),
        first_group(SHORT_PATTERN@, text@) is None ==> (first_group(AWEME_PATTERN@, text@) matches Some(
            a,
        ) ==> (res matches DouyinStep::Send { aid, announce } && aid@ == a && !announce)),
        first_group(SHORT_PATTERN@, text@) is None && first_group(AWEME_PATTERN@, text@) is None
            ==> (if crate::text::starts_with(text@, "/douyin"@) {
            res matches DouyinStep::Help
        } else {
            res matches DouyinStep::Ignore
        }),
{
    let short = short_id_in(text);
    let aid = if short.is_none() {
        aweme_id_in(text)
    } else {
        None
    };
    douyin_step(short, aid, is_douyin_command(text), false)
}

/// The step once a short link led to `location`, for a message that was a
/// command or not (see `douyin_step`).
pub fn douyin_step_after_redirect(location: &str, command: bool) -> (res: DouyinStep)
    ensures
        first_group(AWEME_PATTERN@, location@) matches Some(a) ==> (res matches DouyinStep::Send {
            aid,
            announce,
        } && aid@ == a && announce),
        first_group(AWEME_PATTERN@, location@) is None ==> (if command {
            res matches DouyinStep::Help
        } else {
            res matches DouyinStep::Ignore
        }),
{
    douyin_step(None, aweme_id_in(location), command, true)
}

/// Shown while a video is fetched.
pub const VIDEO_DOWNLOADING: &'static str = "下载视频中...";

/// Shown while a video is uploaded.
pub const UPLOADING: &'static str = "上传中...";

/// Shown when uploading a video failed.
pub const UPLOAD_FAILED: &'static str = "上传失败";

/// The file a video is fetched to: `{key}.mp4`.
pub fn video_file(key: &str) -> (res: String)
    ensures
        res@ == key@ + ".mp4"@,
{
    let mut res = String::new();
    push_str(&mut res, key);
    push_str(&mut res, ".mp4");
    res
}

/// The line shown when fetching a video failed: `{prefix} 视频下载失败: {reason}`.
pub fn video_failed(prefix: &str, reason: &str) -> (res: String)
    ensures
        res@ == prefix@ + " 视频下载失败: "@ + reason@,
{
    let mut res = String::new();
    push_str(&mut res, prefix);
    push_str(&mut res, " 视频下载失败: ");
    push_str(&mut res, reason);
    res
}

} // verus!
