use jbot::buttons::{
    config_data, config_from_data, push_le32, push_le64, read_le32, read_le64, starts_with_id,
    toggle_message, toggled_value, AddMergeButton, AdminKickButton, AdminVerifyButton, Config,
    FinishMergeButton, GetOriginalButton, VerifyButton, EMOJIS, ENABLED_PREFIX,
};

const ID: [u8; 4] = [1, 2, 3, 4];
const OTHER: [u8; 4] = [9, 9, 9, 9];

#[test]
fn little_endian_roundtrip() {
    let mut v = Vec::new();
    push_le32(&mut v, 0x11223344);
    push_le64(&mut v, 0x0102030405060708);
    assert_eq!(v, vec![0x44, 0x33, 0x22, 0x11, 8, 7, 6, 5, 4, 3, 2, 1]);
    assert_eq!(read_le32(&v, 0), 0x11223344);
    assert_eq!(read_le64(&v, 4), 0x0102030405060708);
}

#[test]
fn id_prefix_check() {
    assert!(starts_with_id(&[1, 2, 3, 4, 5], ID));
    assert!(!starts_with_id(&[1, 2, 3, 5], ID));
}

#[test]
fn config_button_roundtrip() {
    let cfg = Config { key: "verify_enabled", name: "入群验证" };
    let on = cfg.to_button(ID, -1001234567890, true);
    assert_eq!(on.text, format!("{}入群验证", ENABLED_PREFIX));
    let off = cfg.to_button(ID, -1001234567890, false);
    assert_eq!(off.text, "入群验证");
    assert_eq!(on.data, config_data(ID, -1001234567890, "verify_enabled"));
    assert_eq!(on.data.len(), 12 + "verify_enabled".len());
    let back = Config::from_data(ID, &on.data).unwrap();
    assert_eq!(back, (-1001234567890, "verify_enabled".to_string()));
    assert_eq!(config_from_data(OTHER, &on.data), None);
}

#[test]
fn config_enabled_only_for_one() {
    let cfg = Config { key: "k", name: "n" };
    assert!(cfg.is_enabled(Some("1")));
    assert!(!cfg.is_enabled(Some("")));
    assert!(!cfg.is_enabled(Some("true")));
    assert!(!cfg.is_enabled(None));
}

#[test]
fn toggle_flips_the_switch() {
    let cfg = Config { key: "k", name: "n" };
    for old in [None, Some(""), Some("1"), Some("0")] {
        let new = toggled_value(old);
        assert_eq!(cfg.is_enabled(Some(new)), !cfg.is_enabled(old));
    }
    assert_eq!(toggled_value(Some("1")), "");
    assert_eq!(toggled_value(None), "1");
    assert_eq!(toggle_message(""), "禁用成功");
    assert_eq!(toggle_message("1"), "启用成功");
}

#[test]
fn add_merge_roundtrip_test() {
    let ids = [10, -3, 2147483647];
    let b = AddMergeButton::new(ID, &ids);
    assert_eq!(b.raw.text, "合并媒体");
    assert_eq!(b.raw.data.len(), 4 + 4 * ids.len());
    assert_eq!(AddMergeButton::from_data(ID, &b.raw.data), Some(ids.to_vec()));
    assert_eq!(AddMergeButton::from_data(OTHER, &b.raw.data), None);
    // Trailing bytes that do not make a whole id are ignored.
    let mut d = b.raw.data.clone();
    d.push(7);
    assert_eq!(AddMergeButton::from_data(ID, &d), Some(ids.to_vec()));
}

#[test]
fn finish_merge_button() {
    let b = FinishMergeButton::new(ID);
    assert_eq!(b.raw.text, "完成合并");
    assert_eq!(b.raw.data, ID.to_vec());
    assert_eq!(FinishMergeButton::from_data(ID, &b.raw.data), Some(()));
    assert_eq!(FinishMergeButton::from_data(OTHER, &b.raw.data), None);
}

#[test]
fn verify_button_roundtrip() {
    let b = VerifyButton::new(ID, 123456789, 5);
    assert_eq!(b.text, EMOJIS[5].to_string());
    assert_eq!(b.data.len(), 16);
    assert_eq!(VerifyButton::from_data(ID, &b.data), Some((123456789, 5)));
    assert_eq!(VerifyButton::from_data(OTHER, &b.data), None);
}

#[test]
fn admin_buttons_roundtrip() {
    let let_in = AdminVerifyButton::new(ID, -42);
    assert_eq!(let_in.text, "放行 (管理员)");
    assert_eq!(AdminVerifyButton::from_data(ID, &let_in.data), Some(-42));
    let kick = AdminKickButton::new(OTHER, 77);
    assert_eq!(kick.text, "封禁 (管理员)");
    assert_eq!(AdminKickButton::from_data(OTHER, &kick.data), Some(77));
    assert_eq!(AdminKickButton::from_data(ID, &kick.data), None);
}

#[test]
fn original_button_roundtrip() {
    let b = GetOriginalButton::new(ID, 1790000000000000000);
    assert_eq!(b.raw.text, "获取原图");
    assert_eq!(GetOriginalButton::from_data(ID, &b.raw.data), Some(1790000000000000000));
}
