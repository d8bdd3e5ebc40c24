use jbot::bili::{info_request, DescItem};
use jbot::bili_post::{escape_html_exec, find_page, parse_msg as bili_parse_msg, safe_truncate, BiliInfo, Owner, Page};
use jbot::douyin::{
    aweme_cache_name, aweme_id_in, aweme_query, aweme_result, check_http_status, cover_job,
    video_failed, video_file, douyin_prefix, douyin_status, douyin_step, douyin_step_after_redirect, first_douyin_step, DouyinStep, image_failed, image_progress, image_jobs, is_douyin_command, parse_msg, short_id_in, short_url,
    signed_aweme_query, video_jobs, video_link, Addr, Author, AwemeDetail, GetAwemeError, Image,
    Video, EMPTY_TITLE,
};
use jbot::twitter::{
    album_entry, original_file_name, stored_keys, best_variant, select_tweet_ids, media_failed, media_key, media_progress, orig_url, plan_media, plan_original,
    tweet_number, tweet_request, tweet_status, unsupported_text, MediaEntity, MediaPlan, Variant,
    VideoInfo,
};

fn addr(urls: &[&str]) -> Addr {
    Addr { url_list: urls.iter().map(|s| s.to_string()).collect(), width: 720, height: 1280 }
}

fn detail(title: &str, desc: &str, video: Option<Video>, images: Option<Vec<Image>>) -> AwemeDetail {
    AwemeDetail {
        author: Author { sec_uid: "MS4w".to_string(), nickname: "nick".to_string() },
        aweme_id: "7300000000000000000".to_string(),
        item_title: title.to_string(),
        desc: desc.to_string(),
        aweme_type: 0,
        video,
        images,
    }
}

#[test]
fn douyin_caption() {
    let d = detail("标题", "描述", None, None);
    assert_eq!(
        parse_msg(&d),
        "<a href=\"https://www.douyin.com/video/7300000000000000000\">标题</a> - <a href=\"https://www.douyin.com/user/MS4w\">nick</a> #douyin"
    );
    let d = detail("", "描述", None, None);
    assert!(parse_msg(&d).contains("\">描述</a>"));
    let d = detail("", "", None, None);
    assert!(parse_msg(&d).contains(&format!("\">{}</a>", EMPTY_TITLE)));
}

#[test]
fn douyin_reply_outcomes() {
    let ok = aweme_result(0, Some(detail("t", "", None, None)));
    assert!(matches!(ok, Ok(d) if d.item_title == "t"));
    assert!(matches!(aweme_result(0, None), Err(GetAwemeError::NotFound)));
    let api = aweme_result(-3, Some(detail("t", "", None, None)));
    assert!(matches!(&api, Err(GetAwemeError::Api(code)) if code == "-3"));
    assert_eq!(api.err().unwrap().message(), "API 错误: -3");
    assert!(check_http_status(200).is_ok());
    let e = check_http_status(503).unwrap_err();
    assert!(matches!(e, GetAwemeError::Status(503)));
    assert_eq!(e.message(), "状态码错误: 503");
    assert_eq!(GetAwemeError::NotFound.message(), "推文不存在");
}

#[test]
fn douyin_query_and_signature() {
    let q = aweme_query("123");
    assert_eq!(q.len(), 34);
    assert_eq!(q[0], ("aweme_id", "123".to_string()));
    assert_eq!(q[1], ("device_platform", "webapp".to_string()));
    assert_eq!(q[33].0, "fp");
    let s = signed_aweme_query("123");
    assert_eq!(s.len(), 38);
    assert_eq!(s[..34].to_vec(), q);
    assert_eq!(s[34].0, "a_bogus");
    assert_eq!(s[35].0, "timestamp");
    assert_eq!(s[36].0, "uifid");
    assert_eq!(s[37].0, "x-secsdk-web-signature");
    assert_eq!(s[37].1.len(), 32);
}

#[test]
fn douyin_links() {
    assert_eq!(aweme_id_in("看 https://www.douyin.com/video/7312345678901234567 ok").as_deref(), Some("7312345678901234567"));
    assert_eq!(aweme_id_in("https://www.douyin.com/jingxuan?modal_id=7312345678901234567").as_deref(), Some("7312345678901234567"));
    assert_eq!(aweme_id_in("nothing here"), None);
    assert_eq!(short_id_in("https://v.douyin.com/iRNBho5m/ copy").as_deref(), Some("iRNBho5m"));
    assert_eq!(short_url("iRNBho5m"), "https://v.douyin.com/iRNBho5m");
    assert_eq!(video_link("1"), "https://www.douyin.com/video/1");
    assert!(is_douyin_command("/douyin x"));
    assert!(!is_douyin_command(" /douyin"));
    assert_eq!(aweme_cache_name("9"), "9.json");
    assert_eq!(douyin_prefix("9"), "[douyin/9]");
}

#[test]
fn douyin_jobs() {
    let v = Video {
        duration: 1000,
        play_addr: addr(&["p1", "p2"]),
        download_addr: Some(addr(&["d1"])),
        origin_cover: addr(&["c1", "c2"]),
    };
    let c = cover_job("9", &v);
    assert_eq!((c.key.as_str(), c.url.as_str()), ("9_thumb.jpg", "c2"));
    let d = detail("t", "", Some(v), None);
    let jobs = video_jobs("9", &d);
    assert_eq!(jobs.len(), 2);
    assert_eq!((jobs[0].key.as_str(), jobs[0].url.as_str()), ("douyin_9_play", "p2"));
    assert_eq!((jobs[1].key.as_str(), jobs[1].url.as_str()), ("douyin_9_down", "d1"));
    assert!(image_jobs("9", &d).is_empty());

    let imgs = vec![Image { url_list: vec!["a".to_string(), "b".to_string()] }, Image { url_list: vec!["c".to_string()] }];
    let d = detail("t", "", None, Some(imgs));
    assert!(video_jobs("9", &d).is_empty());
    let jobs = image_jobs("9", &d);
    assert_eq!(jobs.len(), 2);
    assert_eq!((jobs[0].key.as_str(), jobs[0].url.as_str()), ("douyin_image_9_p0", "b"));
    assert_eq!((jobs[1].key.as_str(), jobs[1].url.as_str()), ("douyin_image_9_p1", "c"));
}

fn variant(ct: &str, bitrate: Option<u64>, url: &str) -> Variant {
    Variant { content_type: ct.to_string(), bitrate, url: url.to_string() }
}

fn media(kind: &str, info: Option<VideoInfo>) -> MediaEntity {
    MediaEntity {
        kind: kind.to_string(),
        media_url_https: "https://pbs.twimg.com/media/x.jpg".to_string(),
        video_info: info,
        width: 1,
        height: 2,
    }
}

#[test]
fn tweet_ids_from_messages() {
    let r = tweet_request("see https://x.com/user_1/status/1790000000000000001 and https://twitter.com/a/status/1790000000000000002");
    assert_eq!(r.ids, vec!["1790000000000000001", "1790000000000000002"]);
    assert!(!r.help);
    let r = tweet_request("/tid 1790000000000000003 1790000000000000004");
    assert_eq!(r.ids, vec!["1790000000000000003", "1790000000000000004"]);
    let r = tweet_request("/tid");
    assert!(r.ids.is_empty() && r.help);
    let r = tweet_request("1790000000000000003");
    assert!(r.ids.is_empty() && !r.help);
    assert_eq!(tweet_number("1790000000000000003"), Some(1790000000000000003));
    assert_eq!(tweet_number("99999999999999999999"), None);
}

#[test]
fn tweet_media_choices() {
    assert_eq!(orig_url("https://a/b.jpg"), "https://a/b.jpg?name=orig");
    assert_eq!(orig_url("https://a/b?format=jpg"), "https://a/b?format=jpg&name=orig");
    let vs = vec![
        variant("application/x-mpegURL", None, "m3u8"),
        variant("video/mp4", Some(832000), "low"),
        variant("video/mp4", Some(2176000), "high"),
        variant("video/mp4", Some(2176000), "high2"),
    ];
    assert_eq!(best_variant(&vs), Some(3));
    assert_eq!(best_variant(&Vec::new()), None);
    let info = VideoInfo { duration_millis: Some(5000), variants: vs };
    match plan_media(&media("video", Some(info))) {
        MediaPlan::Video { url, duration_millis } => {
            assert_eq!(url, "high2");
            assert_eq!(duration_millis, Some(5000));
        }
        _ => panic!("expected a video"),
    }
    assert!(matches!(plan_media(&media("photo", None)), MediaPlan::Photo { url } if url == "https://pbs.twimg.com/media/x.jpg?name=orig"));
    assert!(matches!(plan_media(&media("animated_gif", None)), MediaPlan::MissingVideoInfo));
    assert!(matches!(plan_media(&media("poll", None)), MediaPlan::Unsupported));
    let only = VideoInfo { duration_millis: None, variants: vec![variant("video/mp4", None, "only")] };
    assert_eq!(plan_original(&media("video", Some(only))), Some(("only".to_string(), "video/mp4")));
    assert_eq!(plan_original(&media("photo", None)), Some(("https://pbs.twimg.com/media/x.jpg?name=orig".to_string(), "image/jpeg")));
    assert_eq!(plan_original(&media("animated_gif", None)), None);
}

#[test]
fn tweet_texts() {
    assert_eq!(media_key("17", 0, false), "17_1");
    assert_eq!(media_key("17", 2, true), "17_3_original");
    assert_eq!(tweet_status("17", "请等待..."), "[17] 请等待...");
    assert_eq!(media_progress("17", false, 0, 4), "[17] 媒体下载中 1 / 4...");
    assert_eq!(media_progress("17", true, 3, 4), "[17] 媒体上传中 4 / 4...");
    assert_eq!(media_failed("17", false, 1), "[17] 媒体 2 下载失败");
    assert_eq!(media_failed("17", true, 1), "[17] 媒体 2 上传失败");
    assert_eq!(unsupported_text("poll"), "暂不支持的媒体类型: poll");
}

fn info(title: &str, desc: Option<Vec<DescItem>>) -> BiliInfo {
    BiliInfo {
        bvid: "BV1xx".to_string(),
        title: title.to_string(),
        pic: "https://i0.hdslb.com/p.jpg".to_string(),
        desc_v2: desc,
        owner: Owner { mid: 42, name: "up".to_string() },
        pages: vec![Page { page: 1, cid: 100 }, Page { page: 2, cid: 200 }, Page { page: 2, cid: 300 }],
    }
}

fn text(t: &str) -> DescItem {
    DescItem { desc_type: 1, raw_text: t.to_string(), biz_id: 0 }
}

#[test]
fn bili_caption() {
    let (msg, page, pic) = bili_parse_msg(info("a<b>&c", None), 1).unwrap();
    assert_eq!(
        msg,
        "<a href=\"https://www.bilibili.com/video/BV1xx\">a&lt;b&gt;&amp;c</a> | <a href=\"https://space.bilibili.com/42\">up</a> #Bilibili"
    );
    assert_eq!((page.page, page.cid), (1, 100));
    assert_eq!(pic, "https://i0.hdslb.com/p.jpg");

    let mention = DescItem { desc_type: 2, raw_text: "@x".to_string(), biz_id: 7 };
    let (msg, page, _) = bili_parse_msg(info("t", Some(vec![text("hi "), mention])), 2).unwrap();
    assert_eq!(
        msg,
        "<a href=\"https://www.bilibili.com/video/BV1xx?p=2\">t P2</a> | <a href=\"https://space.bilibili.com/42\">up</a> #Bilibili:\n<blockquote expandable>hi [@x](https://space.bilibili.com/7)</blockquote>"
    );
    assert_eq!(page.cid, 200);

    for d in ["-", ".", "。"] {
        let (msg, _, _) = bili_parse_msg(info("t", Some(vec![text(d)])), 1).unwrap();
        assert!(msg.ends_with("#Bilibili"));
    }
    assert!(bili_parse_msg(info("t", None), 3).is_err());
}

#[test]
fn html_escape_and_truncation() {
    assert_eq!(escape_html_exec("<&>x"), "&lt;&amp;&gt;x");
    assert_eq!(safe_truncate("abcdef", 4), "abcd");
    assert_eq!(safe_truncate("ab", 4), "ab");
    assert_eq!(safe_truncate("a中文", 4), "a中");
    assert_eq!(safe_truncate("a中文", 3), "a");
    assert_eq!(safe_truncate("😀", 3), "");
    let long = "字".repeat(400);
    assert_eq!(safe_truncate(&long, 900).chars().count(), 300);
    let pages = vec![Page { page: 1, cid: 1 }, Page { page: 2, cid: 2 }];
    assert_eq!(find_page(&pages, 2).map(|p| p.cid), Some(2));
    assert!(find_page(&pages, 5).is_none());
}

#[test]
fn tweet_id_selection() {
    let s = |v: &[&str]| v.iter().map(|x| x.to_string()).collect::<Vec<String>>();
    let r = select_tweet_ids(s(&["1"]), s(&["2"]), true);
    assert_eq!(r.ids, vec!["1"]);
    assert!(!r.help);
    let r = select_tweet_ids(s(&[]), s(&["2", "3"]), true);
    assert_eq!(r.ids, vec!["2", "3"]);
    assert!(!r.help);
    let r = select_tweet_ids(s(&[]), s(&[]), true);
    assert!(r.ids.is_empty() && r.help);
    let r = select_tweet_ids(s(&[]), s(&["2"]), false);
    assert!(r.ids.is_empty() && !r.help);
}

#[test]
fn douyin_texts() {
    assert_eq!(douyin_status("[douyin/9]", "请等待..."), "[douyin/9] 请等待...");
    assert_eq!(image_progress("[douyin/9]", false, 0, 3), "[douyin/9] 下载图片中 1 / 3...");
    assert_eq!(image_progress("[douyin/9]", true, 2, 3), "[douyin/9] 上传图片中 3 / 3...");
    assert_eq!(image_failed("[douyin/9]", 1, Some("timeout")), "[douyin/9] 图片 2 下载失败: timeout");
    assert_eq!(image_failed("[douyin/9]", 1, None), "[douyin/9] 图片 2 上传失败");
}

#[test]
fn douyin_message_steps() {
    assert!(matches!(douyin_step(Some("abcde".to_string()), Some("1".to_string()), true, false), DouyinStep::Resolve(u) if u == "https://v.douyin.com/abcde"));
    assert!(matches!(douyin_step(None, Some("1".to_string()), true, true), DouyinStep::Send { aid, announce: true } if aid == "1"));
    assert!(matches!(douyin_step(None, None, true, false), DouyinStep::Help));
    assert!(matches!(douyin_step(None, None, false, false), DouyinStep::Ignore));
    assert!(matches!(first_douyin_step("https://v.douyin.com/iRNBho5m/"), DouyinStep::Resolve(u) if u == "https://v.douyin.com/iRNBho5m"));
    assert!(matches!(first_douyin_step("/douyin https://www.douyin.com/video/7312345678901234567"), DouyinStep::Send { aid, announce: false } if aid == "7312345678901234567"));
    assert!(matches!(first_douyin_step("/douyin"), DouyinStep::Help));
    assert!(matches!(first_douyin_step("hello"), DouyinStep::Ignore));
    assert!(matches!(douyin_step_after_redirect("https://www.iesdouyin.com/share/video/7312345678901234567/?region=CN", false), DouyinStep::Send { aid, announce: true } if aid == "7312345678901234567"));
    assert!(matches!(douyin_step_after_redirect("https://example.com/", true), DouyinStep::Help));
}

#[test]
fn tweet_album_entries() {
    let photo = MediaPlan::Photo { url: "u".to_string() };
    let video = MediaPlan::Video { url: "v".to_string(), duration_millis: None };
    let e = album_entry("17", 0, &photo);
    assert_eq!(e.key, "17_1");
    assert_eq!(e.file_name.as_deref(), Some("17_1.jpg"));
    assert_eq!(e.thumb_name, None);
    assert!(e.caption);
    let e = album_entry("17", 2, &video);
    assert_eq!(e.file_name.as_deref(), Some("17_3.mp4"));
    assert_eq!(e.thumb_name.as_deref(), Some("17_3_thumb.jpg"));
    assert!(!e.caption);
    let e = album_entry("17", 1, &MediaPlan::Unsupported);
    assert!(e.file_name.is_none() && !e.caption);
    assert_eq!(stored_keys("17", 3, false), vec!["17_1", "17_2", "17_3"]);
    assert_eq!(stored_keys("17", 1, true), vec!["17_1_original"]);
    assert_eq!(original_file_name("17_1_original", "image/jpeg"), "17_1_original.jpg");
    assert_eq!(original_file_name("17_1_original", "video/mp4"), "17_1_original.mp4");
    let vs = vec![variant("video/mp4", Some(5), "a"), variant("video/mp4", Some(5), "b")];
    let m = media("video", Some(VideoInfo { duration_millis: None, variants: vs }));
    assert_eq!(plan_original(&m), Some(("b".to_string(), "video/mp4")));
}

#[test]
fn douyin_video_files_and_info_request() {
    assert_eq!(video_file("douyin_9_play"), "douyin_9_play.mp4");
    assert_eq!(video_failed("[douyin/9]", "timeout"), "[douyin/9] 视频下载失败: timeout");
    let r = info_request(170001, "BV17x411w7KC", Some("tok"));
    assert_eq!(r.cache_name, "BV17x411w7KC.json");
    assert_eq!(r.query[0], ("aid", "170001".to_string()));
    assert_eq!(r.query.last().unwrap(), &("gaia_vtoken", "tok".to_string()));
    assert_eq!(r.referer, "https://www.bilibili.com/video/BV17x411w7KC/");
}

#[test]
fn douyin_signature_values() {
    let s = signed_aweme_query("123");
    assert!(!s[34].1.is_empty());
    assert_eq!(s[35].1.parse::<i64>().is_ok(), true);
}
