use jbot::abogus::{
    abogus, abogus_encode, base64_encode, fingerprint, fingerprint_from, rc4, sm3_with_salt,
    transform_bytes, user_agent_digest, websign_at, UIFID,
};
use jbot::bili::{
    check_status, classify_reply, cookie_header, key_from_url, mixin_key, session_token,
    sort_query, str_lt, strip_reserved_exec, wbi_at, BiliError,
};
use jbot::digest::md5_hex;

#[test]
fn md5_hex_of_alphabet() {
    assert_eq!(md5_hex(b"abcdefghijklmnopqrstuvwxyz"), "c3fcd3d76192e4007dfb496cca67e13b");
    assert_eq!(md5_hex(b""), "d41d8cd98f00b204e9800998ecf8427e");
}

#[test]
fn sm3_with_salt_appends_cus() {
    assert_eq!(
        sm3_with_salt("abc").to_vec(),
        vec![
            4, 243, 138, 94, 66, 181, 183, 166, 251, 38, 74, 120, 6, 254, 123, 213, 133, 139, 8,
            76, 77, 209, 122, 191, 218, 81, 230, 24, 49, 235, 109, 73
        ]
    );
}

#[test]
fn rc4_of_abc() {
    assert_eq!(rc4("abc"), vec![185, 139, 141]);
    assert_eq!(rc4(""), Vec::<u8>::new());
}

#[test]
fn base64_with_custom_alphabet() {
    assert_eq!(base64_encode(&[1, 2, 3, 4]), "cfKpkc==");
    assert_eq!(base64_encode(&[255, 0, 128]), "ejdc");
    assert_eq!(base64_encode(&[]), "");
    assert_eq!(base64_encode(&[7, 8]), "kjE=");
}

#[test]
fn abogus_encode_pads_to_four() {
    assert_eq!(abogus_encode(&[1, 2, 3]), "Dfmp====");
    assert_eq!(abogus_encode(&[1, 2, 3, 4]), "DfmpkD==");
    assert_eq!(abogus_encode(&[200, 100]), "n2f=");
    assert_eq!(abogus_encode(&[]), "====");
}

#[test]
fn transform_bytes_appends() {
    let mut q = vec![9u8];
    transform_bytes(&[1, 2, 3, 4, 5], &mut q);
    assert_eq!(q, vec![9, 68, 210, 142, 44, 10]);
}

#[test]
fn user_agent_digest_example() {
    assert_eq!(
        user_agent_digest("Mozilla/5.0").to_vec(),
        vec![
            95, 190, 222, 61, 213, 158, 37, 229, 49, 65, 234, 144, 123, 44, 165, 49, 67, 130, 5,
            183, 251, 2, 213, 223, 36, 32, 127, 154, 240, 226, 198, 226
        ]
    );
}

#[test]
fn fingerprint_format() {
    assert_eq!(
        fingerprint_from(1200, 800, 1230, 880, 1500, 900, 1600, 1000),
        "1200|800|1230|880|0|0|0|0|1500|900|1600|1000|1200|800|24|24|Win32"
    );
    let fp = fingerprint();
    let parts: Vec<&str> = fp.split('|').collect();
    assert_eq!(parts.len(), 17);
    let iw: u32 = parts[0].parse().unwrap();
    let ow: u32 = parts[2].parse().unwrap();
    assert!((1024..=1920).contains(&iw));
    assert!(ow >= iw + 24 && ow <= iw + 32);
    assert_eq!(parts[16], "Win32");
}

#[test]
fn websign_adds_three_pairs() {
    let mut q = vec![("aweme_id", "123".to_string())];
    websign_at(&mut q, 1700000000);
    assert_eq!(q.len(), 4);
    assert_eq!(q[1], ("timestamp", "1700000000".to_string()));
    assert_eq!(q[2], ("uifid", UIFID.to_string()));
    assert_eq!(q[3], ("x-secsdk-web-signature", "a9c4aab48f48a4eab58c431c19b540c3".to_string()));
}

#[test]
fn abogus_appends_signature() {
    let mut q = vec![("aweme_id", "123".to_string())];
    abogus(&mut q, "", None, Some("fp".to_string()));
    assert_eq!(q.len(), 2);
    assert_eq!(q[0], ("aweme_id", "123".to_string()));
    assert_eq!(q[1].0, "a_bogus");
    // 12 random bytes and 44 + 2 + 1 payload bytes: 59 bytes, 80 characters.
    assert_eq!(q[1].1.len(), 80);
}

#[test]
fn mixin_key_documented_example() {
    assert_eq!(
        mixin_key("7cd084941338484aae1ad9425b84077c", "4932caff0ff746eab6f01bf08b70ac45"),
        "ea1db124af3c7062474693fa704f4ff8"
    );
}

#[test]
fn key_from_url_takes_file_stem() {
    assert_eq!(
        key_from_url("https://i0.hdslb.com/bfs/wbi/7cd084941338484aae1ad9425b84077c.png"),
        "7cd084941338484aae1ad9425b84077c"
    );
    assert_eq!(key_from_url("abc"), "abc");
}

#[test]
fn wbi_documented_example() {
    let mut q = vec![
        ("foo", "114".to_string()),
        ("bar", "514".to_string()),
        ("zab", "1919810".to_string()),
    ];
    wbi_at(&mut q, "ea1db124af3c7062474693fa704f4ff8", 1702204169);
    assert_eq!(q.len(), 5);
    assert_eq!(q[3], ("wts", "1702204169".to_string()));
    assert_eq!(q[4], ("w_rid", "8f6f2b5b3d485fe1886cec6a0be8c5d4".to_string()));
}

#[test]
fn sort_query_is_stable_by_name() {
    let q = vec![
        ("b", "1".to_string()),
        ("a", "2".to_string()),
        ("b", "0".to_string()),
        ("ab", "3".to_string()),
    ];
    let s = sort_query(&q);
    let names: Vec<(&str, &str)> = s.iter().map(|(k, v)| (*k, v.as_str())).collect();
    assert_eq!(names, vec![("a", "2"), ("ab", "3"), ("b", "1"), ("b", "0")]);
    assert!(str_lt("a", "ab"));
    assert!(!str_lt("b", "ab"));
    assert!(!str_lt("a", "a"));
}

#[test]
fn reserved_characters_removed() {
    assert_eq!(strip_reserved_exec("a!b'c(d)e*f"), "abcdef");
}

#[test]
fn session_token_is_md5() {
    assert_eq!(session_token("ABC", 1700000000000), "56c632af904199ad2e68132fec1d4f81");
}

#[test]
fn cookie_header_joins() {
    let c = vec![("SESSDATA", "x".to_string()), ("buvid3", "y".to_string())];
    assert_eq!(cookie_header(&c), "SESSDATA=x; buvid3=y");
}

#[test]
fn reply_classification() {
    assert!(check_status(200).is_ok());
    assert!(matches!(check_status(403), Err(BiliError::Status(403))));
    assert!(classify_reply(0, None, None).is_ok());
    assert!(matches!(classify_reply(-352, Some("h".to_string()), Some("d".to_string())), Err(BiliError::Voucher(v)) if v == "h"));
    assert!(matches!(classify_reply(0, None, Some("d".to_string())), Err(BiliError::Voucher(v)) if v == "d"));
    assert!(matches!(classify_reply(62002, None, None), Err(BiliError::NotFound)));
    assert!(matches!(classify_reply(412, None, None), Err(BiliError::RiskControl)));
    assert!(matches!(classify_reply(-1, None, None), Err(BiliError::Api(m)) if m == "未知状态码 -1"));
}

#[test]
fn wbi_encodes_values_as_forms() {
    // Signed text: foo=bar+%26+baz&saison=%C3%89t%C3%A9%2Bhiver&wts=1702204169
    let mut q = vec![("saison", "Été+hiver".to_string()), ("foo", "bar & baz".to_string())];
    wbi_at(&mut q, "ea1db124af3c7062474693fa704f4ff8", 1702204169);
    assert_eq!(q[3], ("w_rid", "17b7d56dcc26aeeae5301ce1e6dd3f95".to_string()));
}
