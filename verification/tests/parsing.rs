use jbot::console::{align_left, padding_left, parse_cookies, Options};
use jbot::download::{
    check_complete, download_start, empty_callback, progress_reports, DownloadStart, expected_total, parse_content_range, part_name,
    range_decision, range_header, RangeDecision,
};
use jbot::ffmpeg::{
    merge_command, parse_duration_line, parse_out_time_us, parse_progress_time,
    parse_stats_time, parse_timestamp_ms, progress_step, FFmpeg,
};
use jbot::parse::{parse_u128, parse_u64, parse_usize, trim, trim_start};
use jbot::streams::{
    audio_file_name, dash_audios, dash_videos, durl_video, file_key, margin, output_file_name,
    picture_file_name, quality_label, select_audio, select_video, stream_size, video_file_name,
    Audio, DashMedia, Durl, Video,
};
use jbot::text::{hex_lower, i64_to_string, u64_to_string};

#[test]
fn timestamps_to_millis() {
    assert_eq!(parse_timestamp_ms("00:01:23.45"), Some(83_450));
    assert_eq!(parse_timestamp_ms("01:00:00"), Some(3_600_000));
    assert_eq!(parse_timestamp_ms("00:00:10.123456"), Some(10_123));
    assert_eq!(parse_timestamp_ms(" 00:00:01.5 "), Some(1_500));
    assert_eq!(parse_timestamp_ms("-00:00:01.00"), Some(0));
    assert_eq!(parse_timestamp_ms("00:00"), None);
    assert_eq!(parse_timestamp_ms("00:00:00:00"), None);
    assert_eq!(parse_timestamp_ms("aa:00:00"), None);
    assert_eq!(parse_timestamp_ms("00:00:01.2x"), Some(1_200));
}

#[test]
fn duration_lines() {
    assert_eq!(
        parse_duration_line("  Duration: 00:01:23.45, start: 0.000000, bitrate: 1000 kb/s"),
        Some(83_450)
    );
    assert_eq!(parse_duration_line("  Duration: N/A, start: 0.000000"), None);
    assert_eq!(parse_duration_line("no duration here"), None);
}

#[test]
fn progress_lines() {
    assert_eq!(parse_progress_time("out_time=00:00:10.123456"), Some(10_123));
    assert_eq!(parse_progress_time("  out_time=00:00:02.000000 "), Some(2_000));
    assert_eq!(parse_progress_time("bitrate=1"), None);
    assert_eq!(parse_out_time_us("out_time_us=10123456"), Some(10_123));
    assert_eq!(parse_out_time_us("out_time_us=abc"), None);
    assert_eq!(
        parse_stats_time("frame=  100 fps=25 q=28.0 size=1024kB time=00:00:04.00 bitrate=2097.2kbits/s"),
        Some(4_000)
    );
    assert_eq!(parse_stats_time("frame=1"), None);
}

#[test]
fn progress_fold() {
    let u = progress_step(None, None, "  Duration: 00:00:10.00, start: 0.0");
    assert_eq!(u.total_ms, Some(10_000));
    assert_eq!(u.set_length, Some(10_000));
    assert_eq!(u.set_position, None);
    let u = progress_step(Some(10_000), None, "out_time=00:00:01.000000");
    assert_eq!(u.set_length, None);
    assert_eq!(u.set_position, Some(1_000));
    let u = progress_step(Some(10_000), Some(1_000), "out_time_us=1000000");
    assert_eq!(u.set_position, None);
    assert_eq!(u.last_ms, Some(1_000));
}

#[test]
fn ffmpeg_command_lines() {
    let cmd = FFmpeg::new().arg("-i").args(&["a.mp4", "-y"]);
    assert_eq!(cmd.bin, "ffmpeg");
    assert_eq!(cmd.args, vec!["-i", "a.mp4", "-y"]);
    let full = cmd.command_args();
    assert_eq!(full[..4].to_vec(), vec!["-hide_banner", "-progress", "pipe:2", "-nostats"]);
    assert_eq!(full[4..].to_vec(), vec!["-i", "a.mp4", "-y"]);
    let m = merge_command("a.mp4", "v.mp4", "out.mp4");
    assert_eq!(
        m.args,
        vec!["-i", "a.mp4", "-i", "v.mp4", "-c:a", "copy", "-c:v", "copy", "-y", "out.mp4"]
    );
}

#[test]
fn content_range_parsing() {
    assert_eq!(parse_content_range(Some("bytes 100-199/200")), (Some(100), Some(200)));
    assert_eq!(parse_content_range(Some("bytes */200")), (None, Some(200)));
    assert_eq!(parse_content_range(Some("  bytes 5-9/*")), (Some(5), None));
    assert_eq!(parse_content_range(None), (None, None));
    assert_eq!(parse_content_range(Some("garbage")), (None, None));
}

#[test]
fn range_decisions() {
    assert!(matches!(range_decision(0, 206, Some(0), None), RangeDecision::Fresh));
    assert!(matches!(range_decision(100, 206, Some(100), Some(200)), RangeDecision::Resume));
    assert!(matches!(range_decision(100, 206, None, None), RangeDecision::Resume));
    assert!(matches!(range_decision(100, 416, None, Some(100)), RangeDecision::Complete));
    assert!(matches!(range_decision(100, 206, Some(50), Some(200)), RangeDecision::Restart));
    assert!(matches!(range_decision(100, 416, None, Some(90)), RangeDecision::Restart));
    assert!(matches!(range_decision(100, 200, None, None), RangeDecision::Fresh));
}

#[test]
fn totals_and_completion() {
    assert_eq!(expected_total(true, 100, Some(300), Some(200)), (100, Some(300)));
    assert_eq!(expected_total(true, 100, None, Some(200)), (100, Some(300)));
    assert_eq!(expected_total(true, 100, None, None), (100, None));
    assert_eq!(expected_total(false, 100, Some(300), Some(200)), (0, Some(200)));
    assert_eq!(check_complete(10, Some(10)), Ok(()));
    assert_eq!(check_complete(10, None), Ok(()));
    assert_eq!(
        check_complete(5, Some(10)),
        Err("下载不完整（5/10 字节），下次调用将自动续传".to_string())
    );
    assert_eq!(part_name("a.mp4"), "a.mp4.part");
    assert_eq!(range_header(1234), "bytes=1234-");
    empty_callback(1, Some(2));
}

#[test]
fn number_parsing() {
    assert_eq!(parse_u128("+42"), Some(42));
    assert_eq!(parse_u128(""), None);
    assert_eq!(parse_u128("+"), None);
    assert_eq!(parse_u128("-1"), None);
    assert_eq!(parse_u64("18446744073709551615"), Some(u64::MAX));
    assert_eq!(parse_u64("18446744073709551616"), None);
    assert_eq!(parse_usize("007"), Some(7));
    assert_eq!(u64_to_string(0), "0");
    assert_eq!(u64_to_string(1234567890), "1234567890");
    assert_eq!(i64_to_string(i64::MIN), "-9223372036854775808");
    assert_eq!(hex_lower(&[0, 15, 255]), "000fff");
    assert_eq!(trim("  a b \n"), "a b");
    assert_eq!(trim_start("\t x "), "x ");
}

#[test]
fn padding_left_example() {
    assert_eq!(padding_left("a\nb\nc", 1), "a\n b\n c");
    assert_eq!(padding_left("one line", 4), "one line");
    assert_eq!(align_left("Site:", 13), "Site:        ");
    assert_eq!(align_left("很长", 3), "很长");
    assert_eq!(align_left("很", 4), "很  ");
}

#[test]
fn parse_cookies_example() {
    assert_eq!(
        parse_cookies("SESSDATA=abc; bili_jct = d=ef ;broken; ;x="),
        vec![
            ("SESSDATA".to_string(), "abc".to_string()),
            ("bili_jct".to_string(), "d=ef".to_string()),
            ("x".to_string(), "".to_string()),
        ]
    );
    assert_eq!(parse_cookies(""), Vec::<(String, String)>::new());
    let o = Options::new();
    assert!(!o.info && o.cookies.is_empty());
}

fn dash(id: i32, mime: &str, codecid: i32) -> DashMedia {
    DashMedia {
        id,
        bandwidth: 1000 + id as u32,
        base_url: format!("u{id}"),
        backup_url: vec![format!("b{id}")],
        mime_type: mime.to_string(),
        codecs: format!("c{codecid}"),
        codecid,
    }
}

#[test]
fn stream_selection() {
    let media = vec![dash(80, "video/mp4", 12), dash(80, "video/mp4", 7), dash(64, "video/mp4", 7), dash(120, "video/webm", 7)];
    let videos = dash_videos(&media);
    assert_eq!(videos.len(), 3);
    assert_eq!(videos[0].urls, vec!["u80", "b80"]);
    assert_eq!(videos[0].codecs.as_deref(), Some("c12"));
    let k = select_video(&videos);
    assert_eq!((videos[k].id, videos[k].codecid), (80, Some(7)));

    let audio_media = vec![dash(30216, "audio/mp4", 0), dash(30280, "audio/mp4", 0), dash(30280, "audio/mp4", 0), dash(1, "audio/webm", 0)];
    let audios = dash_audios(&audio_media);
    assert_eq!(audios.len(), 3);
    assert_eq!(select_audio(&audios), Some(2));
    let none: Vec<Audio> = Vec::new();
    assert_eq!(select_audio(&none), None);

    let d = vec![Durl { url: "x".to_string(), backup_url: vec!["y".to_string()], size: 5 }];
    let v: Video = durl_video(&d, 64);
    assert_eq!((v.id, v.size, v.urls.clone()), (64, 5, vec!["x".to_string(), "y".to_string()]));
    assert!(v.codecs.is_none() && v.codecid.is_none());
    assert_eq!(stream_size(u32::MAX, Some(u32::MAX)), 2 * u32::MAX as u64);
    assert_eq!(stream_size(3, None), 3);
}

#[test]
fn labels_and_file_names() {
    let q = [80, 64];
    let d = ["高清 1080P".to_string(), "高清 720P".to_string()];
    assert_eq!(quality_label(64, Some("avc1".to_string()), &q, &d), "高清 720P avc1");
    assert_eq!(quality_label(116, None, &q, &d), "高清 720P");
    assert_eq!(quality_label(80, None, &q, &d[..1]), "高清 1080P");
    assert_eq!(margin(80), "     ");
    assert_eq!(margin(79), "   ");
    let key = file_key("BV1xx411c7mD", 123);
    assert_eq!(key, "BV1xx411c7mD_123");
    assert_eq!(video_file_name(&key, 80, Some(7)), "BV1xx411c7mD_123_video_80-7.mp4");
    assert_eq!(video_file_name(&key, 80, None), "BV1xx411c7mD_123_video_80.mp4");
    assert_eq!(audio_file_name(&key, 30280), "BV1xx411c7mD_123_audio_30280.mp4");
    assert_eq!(output_file_name(&key), "BV1xx411c7mD_123.mp4");
    assert_eq!(picture_file_name(&key), "BV1xx411c7mD_123_pic.jpg");
}

#[test]
fn download_starts_and_reports() {
    assert!(matches!(download_start(true, Some(10)), DownloadStart::AlreadyComplete));
    assert!(matches!(download_start(false, Some(10)), DownloadStart::Begin { downloaded: 10 }));
    assert!(matches!(download_start(false, None), DownloadStart::Begin { downloaded: 0 }));
    assert_eq!(
        progress_reports(100, Some(160), &[20, 30, 10]),
        vec![(100, Some(160)), (120, Some(160)), (150, Some(160)), (160, Some(160))]
    );
    assert_eq!(progress_reports(0, None, &[]), vec![(0, None)]);
}
