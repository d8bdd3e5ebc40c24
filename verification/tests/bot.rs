use std::collections::HashSet;

use jbot::buttons::{config_switch, ConfigAction, AdminKickButton, AdminVerifyButton, VerifyButton, EMOJIS};
use jbot::cli::{
    b23_id, b23_url, bili_input_id, cookie_is_inline, description_output, downloading_line,
    crawl_step, download_exit_code, next_url_attempt, CrawlStep, UrlAttempt,
    error_line, field_line, help_text, parse_bili_id, plan_args, CliCommand, CYAN, GREEN,
    NC, RED,
};
use jbot::bvid::{av_to_bv, bv_to_av, BiliId};
use jbot::merge::{added_text, albums, chunks_of, fetch_batches, merged_text, received_text, unique_ids};
use jbot::store::{
    stored_media_type, upsert_key, MessageMedia, init_steps, merge_insert_params, merge_insert_sql, parse_media_type, sends_as_photo,
    set_version_sql, sync_due, DocumentAttribute, MediaType,
};
use jbot::verify::{
    admin_result_text, admin_status, admin_store_failed_text, answer_outcome, challenge_expired,
    challenge_keyboard, deletes_service_message, join_action, make_challenge, new_challenge,
    prompt_text, route_callback, truncate_name, user_url, AnswerOutcome, JoinAction,
    ServiceAction, StatusRow, VerifyCallback, VerifyStatus, admin_next, answer_alert,
    status_of_code, AdminAction, AdminEvent,
};

const V: [u8; 4] = [1, 0, 0, 1];
const A: [u8; 4] = [2, 0, 0, 2];
const K: [u8; 4] = [3, 0, 0, 3];

#[test]
fn status_rows_roundtrip() {
    let statuses = [
        VerifyStatus::Null,
        VerifyStatus::Verifying { date_ms: 1_700_000_000_000, message_id: 5, solution: 3 },
        VerifyStatus::Verified,
        VerifyStatus::Banned,
    ];
    for s in statuses.iter() {
        let row = s.to_row();
        let back = VerifyStatus::from_row(&row).unwrap();
        assert_eq!(back.to_row().status, row.status);
        match (s, &back) {
            (VerifyStatus::Verifying { date_ms: a, message_id: b, solution: c }, VerifyStatus::Verifying { date_ms: x, message_id: y, solution: z }) => {
                assert_eq!((a, b, c), (x, y, z));
            }
            (VerifyStatus::Null, VerifyStatus::Null)
            | (VerifyStatus::Verified, VerifyStatus::Verified)
            | (VerifyStatus::Banned, VerifyStatus::Banned) => {}
            _ => panic!("status changed"),
        }
    }
    let broken = StatusRow { status: Some(1), date: None, message_id: Some(1), solution: Some(1) };
    assert!(VerifyStatus::from_row(&broken).is_none());
    let unknown = StatusRow { status: Some(9), date: None, message_id: None, solution: None };
    assert!(matches!(VerifyStatus::from_row(&unknown), Some(VerifyStatus::Null)));
}

#[test]
fn join_and_answer_decisions() {
    assert!(matches!(join_action(&VerifyStatus::Verified), JoinAction::Skip));
    assert!(matches!(join_action(&VerifyStatus::Banned), JoinAction::Restrict));
    assert!(matches!(join_action(&VerifyStatus::Null), JoinAction::Restrict));
    let open = VerifyStatus::Verifying { date_ms: 1_000, message_id: 77, solution: 4 };
    assert!(matches!(join_action(&open), JoinAction::Replace(77)));

    let sent_ns: i128 = 1_000 * 1_000_000;
    assert!(matches!(answer_outcome(&open, sent_ns + 10_000_000_000, 4), AnswerOutcome::Pass));
    assert!(matches!(answer_outcome(&open, sent_ns + 10_000_000_000, 5), AnswerOutcome::Fail));
    assert!(matches!(answer_outcome(&open, sent_ns + 180_000_000_000, 4), AnswerOutcome::Fail));
    assert!(matches!(answer_outcome(&open, sent_ns + 179_999_999_999, 4), AnswerOutcome::Pass));
    assert!(matches!(answer_outcome(&VerifyStatus::Verified, sent_ns, 4), AnswerOutcome::Ignore));

    assert_eq!(challenge_expired(&open, sent_ns + 180_000_000_000), None);
    assert_eq!(challenge_expired(&open, sent_ns + 180_000_000_001), Some(77));
    assert_eq!(challenge_expired(&VerifyStatus::Banned, sent_ns + 999_000_000_000), None);
}

#[test]
fn names_links_and_prompt() {
    assert_eq!(truncate_name("abcdefg"), "abcdefg");
    assert_eq!(truncate_name("abcdefgh"), "abcdefg...");
    assert_eq!(truncate_name("张三丰"), "张三...");
    assert_eq!(truncate_name("a张三"), "a张...");
    assert_eq!(truncate_name(""), "");
    assert_eq!(user_url(Some("alice"), 5), "https://t.me/alice");
    assert_eq!(user_url(None, -5), "tg://user?id=-5");
    assert_eq!(
        prompt_text("https://t.me/alice", "alice", '⭐'),
        "<a href=\"https://t.me/alice\">alice</a> 请在 180 秒内点击 ⭐ 完成入群验证"
    );
}

#[test]
fn challenges() {
    let c = make_challenge(vec![3, 1, 4, 1, 5, 9, 2, 6, 12], 8);
    assert_eq!(c.solution, 12);
    assert_eq!(c.solution_emoji, EMOJIS[12]);
    for _ in 0..20 {
        let c = new_challenge();
        assert_eq!(c.emoji_indexs.len(), 9);
        assert!(c.emoji_indexs.iter().all(|i| *i < 13));
        let mut sorted = c.emoji_indexs.clone();
        sorted.sort();
        sorted.dedup();
        assert_eq!(sorted.len(), 9);
        assert_ne!(c.solution, c.emoji_indexs[0]);
        assert!(c.emoji_indexs[1..].contains(&c.solution));
        assert_eq!(c.solution_emoji, EMOJIS[c.solution as usize]);
    }
}

#[test]
fn keyboard_layout() {
    let idx = vec![0, 1, 2, 3, 4, 5, 6, 7, 8];
    let rows = challenge_keyboard(V, A, K, 99, &idx);
    assert_eq!(rows.len(), 4);
    assert!(rows[..3].iter().all(|r| r.len() == 3));
    assert_eq!(rows[1][2].data, VerifyButton::new(V, 99, 5).data);
    assert_eq!(rows[3].len(), 2);
    assert_eq!(rows[3][0].data, AdminVerifyButton::new(A, 99).data);
    assert_eq!(rows[3][1].data, AdminKickButton::new(K, 99).data);
    let short = challenge_keyboard(V, A, K, 99, &vec![0, 1, 2, 3]);
    assert_eq!(short.iter().map(|r| r.len()).collect::<Vec<_>>(), vec![3, 1, 2]);
}

#[test]
fn callbacks_and_admin() {
    let d = VerifyButton::new(V, 99, 5).data;
    assert!(matches!(route_callback(V, A, K, &d), VerifyCallback::Answer(99, 5)));
    let d = AdminVerifyButton::new(A, 98).data;
    assert!(matches!(route_callback(V, A, K, &d), VerifyCallback::AdminLet(98)));
    let d = AdminKickButton::new(K, 97).data;
    assert!(matches!(route_callback(V, A, K, &d), VerifyCallback::AdminKick(97)));
    assert!(matches!(route_callback(V, A, K, &[0, 0, 0, 0]), VerifyCallback::Unrelated));
    assert!(matches!(admin_status(true), VerifyStatus::Banned));
    assert!(matches!(admin_status(false), VerifyStatus::Verified));
    assert_eq!(admin_result_text(false, true), "放行成功");
    assert_eq!(admin_result_text(true, false), "封禁失败");
    assert_eq!(admin_store_failed_text(true), "封禁失败: 设置状态错误");
    assert!(deletes_service_message(&ServiceAction::AddUser));
    assert!(!deletes_service_message(&ServiceAction::Other));
}

#[test]
fn merge_sessions() {
    assert_eq!(unique_ids(&[3, 1, 3, 2, 1]), vec![3, 1, 2]);
    let ids: Vec<i32> = (0..25).collect();
    let chunks = chunks_of(&ids, 10);
    assert_eq!(chunks.iter().map(|c| c.len()).collect::<Vec<_>>(), vec![10, 10, 5]);
    assert_eq!(chunks.concat(), ids);
    let fetched: HashSet<i32> = (0..25).filter(|x| x % 3 == 0 || *x >= 20).collect();
    let a = albums(&ids, &fetched);
    assert_eq!(a, vec![vec![0, 3, 6, 9], vec![12, 15, 18], vec![20, 21, 22, 23, 24]]);
    let none = albums(&ids, &HashSet::new());
    assert!(none.is_empty());
    let dup = albums(&[1, 1, 2], &HashSet::from([1]));
    assert_eq!(dup, vec![vec![1, 1]]);
    let many: Vec<i32> = (0..250).map(|x| x / 2).collect();
    let batches = fetch_batches(&many);
    assert_eq!(batches.iter().map(|b| b.len()).collect::<Vec<_>>(), vec![100, 25]);
    assert_eq!(received_text(3), "收到 3 条媒体");
    assert_eq!(added_text(10), "已添加 10 条媒体");
    assert_eq!(merged_text(4, 5), "已成功合并 4 / 5 条媒体");
}

#[test]
fn store_statements() {
    let s = init_steps(0);
    assert!(s.migrate_v0_to_v1 && s.set_version);
    let s = init_steps(1);
    assert!(!s.migrate_v0_to_v1 && !s.set_version);
    let s = init_steps(7);
    assert!(!s.migrate_v0_to_v1 && !s.set_version);
    assert_eq!(set_version_sql(1), "PRAGMA user_version = 1");
    assert_eq!(merge_insert_sql(0), "INSERT INTO merge (peer_id, message_id) VALUES ");
    assert_eq!(merge_insert_sql(3), "INSERT INTO merge (peer_id, message_id) VALUES (?, ?), (?, ?), (?, ?)");
    assert_eq!(merge_insert_params(-100, &[5, 6]), vec![-100, 5, -100, 6]);
    assert!(sync_due(true, true, 0));
    assert!(!sync_due(false, true, u128::MAX));
    assert!(!sync_due(true, false, 600_000_000_000));
    assert!(sync_due(true, false, 600_000_000_001));
}

#[test]
fn media_types() {
    for code in 1..=7u8 {
        let t = MediaType::try_from_code(code).unwrap();
        assert_eq!(t.code(), code);
    }
    assert_eq!(MediaType::try_from_code(0), None);
    assert_eq!(MediaType::try_from_code(8), None);
    assert_eq!(MediaType::from_column(256 + 2), Some(MediaType::Video));
    let attrs = vec![DocumentAttribute::Other, DocumentAttribute::Sticker, DocumentAttribute::Video];
    assert_eq!(parse_media_type(Some(&attrs)), Some(MediaType::Sticker));
    assert_eq!(parse_media_type(Some(&vec![DocumentAttribute::Other])), Some(MediaType::Document));
    assert_eq!(parse_media_type(None), None);
    assert!(sends_as_photo(MediaType::Photo));
    assert!(!sends_as_photo(MediaType::Animated));
}

fn args(v: &[&str]) -> Vec<String> {
    v.iter().map(|s| s.to_string()).collect()
}

#[test]
fn command_line_plans() {
    let p = plan_args(&args(&["-i", "-c", "a=b", "BV1", "--unknown"]));
    assert_eq!(p.len(), 3);
    assert!(matches!(p[0], CliCommand::SetInfo));
    assert!(matches!(&p[1], CliCommand::Cookies(c) if c == "a=b"));
    assert!(matches!(&p[2], CliCommand::Input(u) if u == "BV1"));
    let p = plan_args(&args(&["x", "-h", "y"]));
    assert!(matches!(p.last(), Some(CliCommand::Help)) && p.len() == 2);
    let p = plan_args(&args(&["-c"]));
    assert!(matches!(&p[0], CliCommand::MissingValue(f) if f == "-c"));
    let p = plan_args(&args(&["--cookie", "", "u"]));
    assert!(matches!(&p[0], CliCommand::MissingValue(f) if f == "--cookie") && p.len() == 1);
    let p = plan_args(&args(&["u1", "u2", "-h"]));
    assert!(matches!(p[1], CliCommand::TooManyUrls) && p.len() == 2);
    assert!(plan_args(&Vec::new()).is_empty());
    assert!(cookie_is_inline("a=b"));
    assert!(!cookie_is_inline("cookies.txt"));
}

#[test]
fn command_line_texts() {
    assert_eq!(
        help_text(),
        format!("{GREEN}Usage{NC}: jb [Options] <url>\n\n\x1b[1;34mOptions{NC}:\n  -c [cookie], --cookie [cookie]  使用 cookie\n  -i, --info                      仅显示信息不进行下载\n  -h, --help                      显示此帮助信息\n")
    );
    assert_eq!(error_line("boom"), format!("{RED}error{NC}: boom"));
    assert_eq!(field_line("Site:", "x"), format!(" {CYAN}Site:        {NC}  x"));
    assert_eq!(description_output("one"), format!(" {CYAN}Description: {NC}  one"));
    assert_eq!(description_output("a\nb"), format!(" {CYAN}Description:{NC}\n a\n b"));
    assert_eq!(downloading_line("v.mp4", 0), format!(" {GREEN}Downloading{NC} v.mp4"));
    assert_eq!(downloading_line("v.mp4", 2), format!(" {GREEN}Downloading{NC} v.mp4Retry 2"));
}

#[test]
fn bili_inputs() {
    assert_eq!(bili_input_id("https://www.bilibili.com/video/BV1xx411c7mD/?p=2").as_deref(), Some("BV1xx411c7mD"));
    assert_eq!(bili_input_id("av170001").as_deref(), Some("av170001"));
    assert_eq!(bili_input_id("nothing"), None);
    assert_eq!(b23_id("https://b23.tv/AbCdEfG").as_deref(), Some("AbCdEfG"));
    assert_eq!(b23_url("AbCdEfG"), "https://b23.tv/AbCdEfG");
    assert!(matches!(parse_bili_id("av170001"), BiliId::AV(170001)));
    assert!(matches!(parse_bili_id("BV1xx411c7mD"), BiliId::BV(s) if s == "BV1xx411c7mD"));
}

#[test]
fn av_and_bv_ids() {
    assert_eq!(av_to_bv(170001), "BV17x411w7KC");
    assert_eq!(av_to_bv(111298867365120), "BV1L9Uoa9EUx");
    assert_eq!(bv_to_av("BV17x411w7KC"), Some(170001));
    assert_eq!(bv_to_av("BV1L9Uoa9EUx"), Some(111298867365120));
    assert_eq!(bv_to_av("BV17x411w7K"), None);
    assert_eq!(bv_to_av("BV17x411w7K0"), None);
    assert_eq!(BiliId::AV(170001).to_raw(), Ok((170001, "BV17x411w7KC".to_string())));
    assert_eq!(BiliId::BV("BV17x411w7KC".to_string()).to_raw(), Ok((170001, "BV17x411w7KC".to_string())));
    assert_eq!(BiliId::AV(1 << 51).to_raw(), Err(()));
    for aid in [1u64, 2, 99, 170001, (1 << 51) - 1] {
        assert_eq!(bv_to_av(&av_to_bv(aid)), Some(aid));
    }
}

#[test]
fn admin_button_flow() {
    assert!(matches!(admin_next(false, AdminEvent::Permissions(None)), AdminAction::Stop));
    assert!(matches!(admin_next(true, AdminEvent::Permissions(Some(false))), AdminAction::Refuse("没有管理员权限")));
    assert!(matches!(admin_next(true, AdminEvent::Permissions(Some(true))), AdminAction::Store(VerifyStatus::Banned)));
    assert!(matches!(admin_next(false, AdminEvent::Permissions(Some(true))), AdminAction::Store(VerifyStatus::Verified)));
    assert!(matches!(admin_next(true, AdminEvent::Stored(false)), AdminAction::Refuse("封禁失败: 设置状态错误")));
    assert!(matches!(admin_next(true, AdminEvent::Stored(true)), AdminAction::ChangeRights(true)));
    assert!(matches!(admin_next(true, AdminEvent::RightsChanged(true)), AdminAction::Finish { alert: "封禁成功", delete_message: true }));
    assert!(matches!(admin_next(false, AdminEvent::RightsChanged(false)), AdminAction::Finish { alert: "放行失败", delete_message: false }));
    assert_eq!(answer_alert(5, 5), None);
    assert_eq!(answer_alert(5, 6), Some("这是别人的入群验证啦"));
    assert!(matches!(status_of_code(1, 9, 8, 7), VerifyStatus::Verifying { date_ms: 9, message_id: 8, solution: 7 }));
    assert!(matches!(status_of_code(3, 9, 8, 7), VerifyStatus::Banned));
    assert!(matches!(status_of_code(0, 9, 8, 7), VerifyStatus::Null));
}

#[test]
fn config_switch_flow() {
    assert!(matches!(config_switch(None, Some("1")), ConfigAction::Stop));
    assert!(matches!(config_switch(Some(false), Some("1")), ConfigAction::Refuse("没有管理员权限")));
    assert!(matches!(config_switch(Some(true), Some("1")), ConfigAction::Toggle { value: "", alert: "禁用成功" }));
    assert!(matches!(config_switch(Some(true), None), ConfigAction::Toggle { value: "1", alert: "启用成功" }));
}

#[test]
fn downloader_steps() {
    assert!(matches!(crawl_step(None), CrawlStep::NoMatch));
    assert!(matches!(crawl_step(Some("av170001".to_string())), CrawlStep::Download { aid: 170001, bvid } if bvid == "BV17x411w7KC"));
    assert!(matches!(crawl_step(Some("BV17x411w7KC".to_string())), CrawlStep::Download { aid: 170001, .. }));
    assert!(matches!(crawl_step(Some("av9999999999999999".to_string())), CrawlStep::Exit(400)));
    assert!(matches!(crawl_step(Some("BV1xx411c7m".to_string())), CrawlStep::Exit(400)));
    assert_eq!(download_exit_code(true), 0);
    assert_eq!(download_exit_code(false), 500);
    assert!(matches!(next_url_attempt(3, 0, false), UrlAttempt::Try(0)));
    assert!(matches!(next_url_attempt(3, 2, false), UrlAttempt::Try(2)));
    assert!(matches!(next_url_attempt(3, 3, false), UrlAttempt::AllFailed));
    assert!(matches!(next_url_attempt(3, 1, true), UrlAttempt::Done));
}

#[test]
fn media_caching() {
    assert_eq!(stored_media_type(&MessageMedia::Photo), Some(MediaType::Photo));
    assert_eq!(stored_media_type(&MessageMedia::Document(Some(vec![DocumentAttribute::Audio]))), Some(MediaType::Audio));
    assert_eq!(stored_media_type(&MessageMedia::Document(None)), None);
    assert_eq!(stored_media_type(&MessageMedia::Other), None);
    assert_eq!(upsert_key(Some("a".to_string()), Some("b".to_string())), Some("a".to_string()));
    assert_eq!(upsert_key(None, Some("b".to_string())), Some("b".to_string()));
}
