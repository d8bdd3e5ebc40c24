//! Callback data of the bot's inline buttons: a four-byte identifier of the
//! button kind followed by little-endian numbers or a UTF-8 key.
use vstd::prelude::*;
use vstd::utf8::{decode_utf8, valid_utf8};
use vstd::string::StringSliceAdditionalSpecFns;

use crate::text::{push_char, push_str};

verus! {

/// An inline button: its label and the data sent back when pressed.
pub struct InlineButton {
    /// The label.
    pub text: String,
    /// The callback data.
    pub data: Vec<u8>,
}

/// Little-endian bytes of a 32-bit value.
pub open spec fn le32(x: u32) -> Seq<u8> {
    seq![
        (x & 0xff) as u8,
        ((x >> 8) & 0xff) as u8,
        ((x >> 16) & 0xff) as u8,
        ((x >> 24) & 0xff) as u8,
    ]
}

/// Little-endian bytes of a 64-bit value.
pub open spec fn le64(x: u64) -> Seq<u8> {
    seq![
        (x & 0xff) as u8,
        ((x >> 8) & 0xff) as u8,
        ((x >> 16) & 0xff) as u8,
        ((x >> 24) & 0xff) as u8,
        ((x >> 32) & 0xff) as u8,
        ((x >> 40) & 0xff) as u8,
        ((x >> 48) & 0xff) as u8,
        ((x >> 56) & 0xff) as u8,
    ]
}

/// The 32-bit value of four little-endian bytes.
pub open spec fn from_le32(b: Seq<u8>) -> u32 {
    (b[0] as u32) | ((b[1] as u32) << 8) | ((b[2] as u32) << 16) | ((b[3] as u32) << 24)
}

/// The 64-bit value of eight little-endian bytes.
pub open spec fn from_le64(b: Seq<u8>) -> u64 {
    (b[0] as u64) | ((b[1] as u64) << 8) | ((b[2] as u64) << 16) | ((b[3] as u64) << 24) | ((
    b[4] as u64) << 32) | ((b[5] as u64) << 40) | ((b[6] as u64) << 48) | ((b[7] as u64) << 56)
}

/// Reading back four little-endian bytes gives the value written.
pub proof fn le32_roundtrip(x: u32)
    ensures
        from_le32(le32(x)) == x,
{
    let b = le32(x);
    assert(b[0] == (x & 0xff) as u8);
    assert(b[1] == ((x >> 8) & 0xff) as u8);
    assert(b[2] == ((x >> 16) & 0xff) as u8);
    assert(b[3] == ((x >> 24) & 0xff) as u8);
    assert(((x & 0xff) as u8 as u32) | ((((x >> 8) & 0xff) as u8 as u32) << 8) | ((((x >> 16)
        & 0xff) as u8 as u32) << 16) | ((((x >> 24) & 0xff) as u8 as u32) << 24) == x)
        by (bit_vector);
}

/// Reading back eight little-endian bytes gives the value written.
pub proof fn le64_roundtrip(x: u64)
    ensures
        from_le64(le64(x)) == x,
{
    let b = le64(x);
    assert(b[0] == (x & 0xff) as u8);
    assert(b[1] == ((x >> 8) & 0xff) as u8);
    assert(b[2] == ((x >> 16) & 0xff) as u8);
    assert(b[3] == ((x >> 24) & 0xff) as u8);
    assert(b[4] == ((x >> 32) & 0xff) as u8);
    assert(b[5] == ((x >> 40) & 0xff) as u8);
    assert(b[6] == ((x >> 48) & 0xff) as u8);
    assert(b[7] == ((x >> 56) & 0xff) as u8);
    assert(((x & 0xff) as u8 as u64) | ((((x >> 8) & 0xff) as u8 as u64) << 8) | ((((x >> 16)
        & 0xff) as u8 as u64) << 16) | ((((x >> 24) & 0xff) as u8 as u64) << 24) | ((((x >> 32)
        & 0xff) as u8 as u64) << 32) | ((((x >> 40) & 0xff) as u8 as u64) << 40) | ((((x >> 48)
        & 0xff) as u8 as u64) << 48) | ((((x >> 56) & 0xff) as u8 as u64) << 56) == x)
        by (bit_vector);
}

/// Appends the little-endian bytes of `x`.
pub fn push_le32(v: &mut Vec<u8>, x: u32)
    ensures
        final(v)@ == old(v)@ + le32(x),
{
    v.push((x & 0xff) as u8);
    v.push(((x >> 8) & 0xff) as u8);
    v.push(((x >> 16) & 0xff) as u8);
    v.push(((x >> 24) & 0xff) as u8);
    assert(final(v)@ =~= old(v)@ + le32(x));
}

/// Appends the little-endian bytes of `x`.
pub fn push_le64(v: &mut Vec<u8>, x: u64)
    ensures
        final(v)@ == old(v)@ + le64(x),
{
    v.push((x & 0xff) as u8);
    v.push(((x >> 8) & 0xff) as u8);
    v.push(((x >> 16) & 0xff) as u8);
    v.push(((x >> 24) & 0xff) as u8);
    v.push(((x >> 32) & 0xff) as u8);
    v.push(((x >> 40) & 0xff) as u8);
    v.push(((x >> 48) & 0xff) as u8);
    v.push(((x >> 56) & 0xff) as u8);
    assert(final(v)@ =~= old(v)@ + le64(x));
}

/// Reads four little-endian bytes at `at`.
pub fn read_le32(data: &[u8], at: usize) -> (res: u32)
    requires
        at + 4 <= data@.len(),
    ensures
        res == from_le32(data@.subrange(at as int, at + 4)),
{
    let ghost b = data@.subrange(at as int, at + 4);
    assert(b[0] == data@[at as int] && b[1] == data@[at + 1] && b[2] == data@[at + 2] && b[3]
        == data@[at + 3]);
    (data[at] as u32) | ((data[at + 1] as u32) << 8) | ((data[at + 2] as u32) << 16) | ((data[at
        + 3] as u32) << 24)
}

/// Reads eight little-endian bytes at `at`.
pub fn read_le64(data: &[u8], at: usize) -> (res: u64)
    requires
        at + 8 <= data@.len(),
    ensures
        res == from_le64(data@.subrange(at as int, at + 8)),
{
    let ghost b = data@.subrange(at as int, at + 8);
    assert(b[0] == data@[at as int] && b[1] == data@[at + 1] && b[2] == data@[at + 2] && b[3]
        == data@[at + 3] && b[4] == data@[at + 4] && b[5] == data@[at + 5] && b[6] == data@[at
        + 6] && b[7] == data@[at + 7]);
    (data[at] as u64) | ((data[at + 1] as u64) << 8) | ((data[at + 2] as u64) << 16) | ((data[at
        + 3] as u64) << 24) | ((data[at + 4] as u64) << 32) | ((data[at + 5] as u64) << 40) | ((
    data[at + 6] as u64) << 48) | ((data[at + 7] as u64) << 56)
}

/// The data starts with the button identifier.
pub open spec fn has_id(data: Seq<u8>, id: [u8; 4]) -> bool {
    data.len() >= 4 && data.take(4) == id@
}

/// Whether `data` starts with `id`.
pub fn starts_with_id(data: &[u8], id: [u8; 4]) -> (res: bool)
    requires
        data@.len() >= 4,
    ensures
        res == has_id(data@, id),
{
    let res = data[0] == id[0] && data[1] == id[1] && data[2] == id[2] && data[3] == id[3];
    proof {
        if res {
            assert(data@.take(4) =~= id@);
        } else if data@.take(4) == id@ {
            assert(data@.take(4)[0] == data@[0]);
            assert(data@.take(4)[1] == data@[1]);
            assert(data@.take(4)[2] == data@[2]);
            assert(data@.take(4)[3] == data@[3]);
        }
    }
    res
}

fn id_bytes(id: [u8; 4]) -> (res: Vec<u8>)
    ensures
        res@ == id@,
{
    let mut v: Vec<u8> = Vec::new();
    v.push(id[0]);
    v.push(id[1]);
    v.push(id[2]);
    v.push(id[3]);
    assert(v@ =~= id@);
    v
}

// ---------------------------------------------------------------------------
// Group configuration switches
// ---------------------------------------------------------------------------

/// Callback data of a configuration switch: identifier, the group's dialog
/// id (little-endian), the UTF-8 key.
pub open spec fn config_data_spec(id: [u8; 4], peer_id: i64, key: Seq<char>) -> Seq<u8> {
    id@ + le64(peer_id as u64) + vstd::utf8::encode_utf8(key)
}

/// Builds the callback data of a configuration switch.
pub fn config_data(id: [u8; 4], peer_id: i64, key: &str) -> (res: Vec<u8>)
    ensures
        res@ == config_data_spec(id, peer_id, key@),
{
    let mut data = id_bytes(id);
    push_le64(&mut data, peer_id as u64);
    data.extend_from_slice(key.as_bytes());
    data
}

/// `String::from_utf8`: the text of valid UTF-8 bytes.
#[verifier::external_body]
fn string_from_utf8(bytes: Vec<u8>) -> (res: Option<String>)
    ensures
        valid_utf8(bytes@) <==> res is Some,
        res matches Some(s) ==> s@ == decode_utf8(bytes@),
{
    String::from_utf8(bytes).ok()
}

/// Reads a configuration switch: the dialog id and key when the data carries
/// the identifier. The identifier must be followed by at least eight bytes of
/// id and a UTF-8 key.
pub fn config_from_data(id: [u8; 4], data: &[u8]) -> (res: Option<(i64, String)>)
    requires
        data@.len() >= 4,
        has_id(data@, id) ==> data@.len() >= 12 && valid_utf8(data@.skip(12)),
    ensures
        has_id(data@, id) <==> res is Some,
        res matches Some((p, k)) ==> p == from_le64(data@.subrange(4, 12)) as i64 && k@
            == decode_utf8(data@.skip(12)),
{
    if starts_with_id(data, id) {
        let peer_id = read_le64(data, 4) as i64;
        let mut rest: Vec<u8> = Vec::new();
        let mut i: usize = 12;
        while i < data.len()
            invariant
                12 <= i <= data@.len(),
                rest@ == data@.subrange(12, i as int),
            decreases data@.len() - i,
        {
            rest.push(data[i]);
            i = i + 1;
            assert(rest@ =~= data@.subrange(12, i as int));
        }
        assert(rest@ =~= data@.skip(12));
        match string_from_utf8(rest) {
            Some(key) => Some((peer_id, key)),
            None => None,
        }
    } else {
        None
    }
}

/// Value of a configuration key that means "on".
pub const ENABLED_VALUE: &'static str = "1";

/// Prefix of the label of a switch that is on.
pub const ENABLED_PREFIX: &'static str = "✅ ";

/// A per-group configuration switch.
pub struct Config {
    /// Storage key.
    pub key: &'static str,
    /// Label shown on the switch.
    pub name: &'static str,
}

impl Config {
    /// Whether the stored value turns the switch on: exactly `1`; a missing
    /// value (or one that could not be read) is off.
    pub fn is_enabled(&self, stored: Option<&str>) -> (res: bool)
        ensures
            res == (stored matches Some(v) && v@ == ENABLED_VALUE@),
    {
        match stored {
            Some(v) => crate::text::str_eq(v, ENABLED_VALUE),
            None => false,
        }
    }

    /// The switch button for a group: the name, prefixed with `✅ ` when on;
    /// the data as in `config_data_spec`.
    pub fn to_button(&self, id: [u8; 4], peer_id: i64, enabled: bool) -> (res: InlineButton)
        ensures
            res.text@ == if enabled {
                ENABLED_PREFIX@ + self.name@
            } else {
                self.name@
            },
            res.data@ == config_data_spec(id, peer_id, self.key@),
    {
        let data = config_data(id, peer_id, self.key);
        let mut name = String::new();
        if enabled {
            push_str(&mut name, ENABLED_PREFIX);
        }
        push_str(&mut name, self.name);
        InlineButton { text: name, data }
    }

    /// Reads a switch button's data (see `config_from_data`).
    pub fn from_data(id: [u8; 4], data: &[u8]) -> (res: Option<(i64, String)>)
        requires
            data@.len() >= 4,
            has_id(data@, id) ==> data@.len() >= 12 && valid_utf8(data@.skip(12)),
        ensures
            has_id(data@, id) <==> res is Some,
            res matches Some((p, k)) ==> p == from_le64(data@.subrange(4, 12)) as i64 && k@
                == decode_utf8(data@.skip(12)),
    {
        config_from_data(id, data)
    }
}

/// Whether a stored value turns a switch on.
pub open spec fn stored_enabled(stored: Option<Seq<char>>) -> bool {
    stored matches Some(v) && v == ENABLED_VALUE@
}

/// The value stored when an administrator presses a switch: empty when it was
/// on, `1` otherwise.
pub fn toggled_value(old: Option<&str>) -> (res: &'static str)
    ensures
        res@ == if stored_enabled(
            match old {
                Some(v) => Some(v@),
                None => None,
            },
        ) {
            ""@
        } else {
            ENABLED_VALUE@
        },
{
    let on = match old {
        Some(v) => crate::text::str_eq(v, ENABLED_VALUE),
        None => false,
    };
    if on {
        ""
    } else {
        ENABLED_VALUE
    }
}

/// The answer shown after a switch was pressed: `禁用成功` when the new value
/// is empty, `启用成功` otherwise.
pub fn toggle_message(new: &str) -> (res: &'static str)
    ensures
        res@ == if new@.len() == 0 {
            "禁用成功"@
        } else {
            "启用成功"@
        },
{
    if new.unicode_len() == 0 {
        "禁用成功"
    } else {
        "启用成功"
    }
}

/// Pressing a switch flips it: the stored value afterwards turns the switch
/// on exactly when the value before did not.
pub proof fn toggle_flips(old: Option<Seq<char>>, new: Seq<char>)
    requires
        new == if stored_enabled(old) {
            ""@
        } else {
            ENABLED_VALUE@
        },
    ensures
        stored_enabled(Some(new)) == !stored_enabled(old),
{
    reveal_strlit("");
    reveal_strlit("1");
    assert(ENABLED_VALUE@.len() == 1);
    assert(""@.len() == 0);
}

/// What pressing a configuration switch does.
pub enum ConfigAction {
    /// The presser's rights could not be read: nothing.
    Stop,
    /// Not an administrator: nothing changes; answer with this alert.
    Refuse(&'static str),
    /// Store `value` for the key and answer with `alert`.
    Toggle { value: &'static str, alert: &'static str },
}

/// What pressing a switch does, given whether the presser is an
/// administrator (`None` when that could not be read) and the stored value:
/// an administrator flips it (see `toggled_value`) and is told the outcome
/// (see `toggle_message`); anyone else gets `没有管理员权限` and nothing
/// changes.
pub fn config_switch(is_admin: Option<bool>, old: Option<&str>) -> (res: ConfigAction)
    ensures
        is_admin is None ==> res matches ConfigAction::Stop,
        is_admin == Some(false) ==> (res matches ConfigAction::Refuse(t) && t@
            == crate::verify::NOT_ADMIN@),
        is_admin == Some(true) ==> (res matches ConfigAction::Toggle { value, alert } && value@ == (
        if stored_enabled(
            match old {
                Some(v) => Some(v@),
                None => None,
            },
        ) {
            ""@
        } else {
            ENABLED_VALUE@
        }) && alert@ == (if value@.len() == 0 {
            "禁用成功"@
        } else {
            "启用成功"@
        })),
{
    match is_admin {
        None => ConfigAction::Stop,
        Some(false) => ConfigAction::Refuse(crate::verify::NOT_ADMIN),
        Some(true) => {
            let value = toggled_value(old);
            ConfigAction::Toggle { value, alert: toggle_message(value) }
        },
    }
}

/// The data of a switch button reads back as its group and key.
pub proof fn config_roundtrip(id: [u8; 4], peer_id: i64, key: Seq<char>)
    ensures
        has_id(config_data_spec(id, peer_id, key), id),
        config_data_spec(id, peer_id, key).len() >= 12,
        valid_utf8(config_data_spec(id, peer_id, key).skip(12)),
        from_le64(config_data_spec(id, peer_id, key).subrange(4, 12)) as i64 == peer_id,
        decode_utf8(config_data_spec(id, peer_id, key).skip(12)) == key,
{
    let d = config_data_spec(id, peer_id, key);
    assert(d.take(4) =~= id@);
    assert(d.subrange(4, 12) =~= le64(peer_id as u64));
    assert(d.skip(12) =~= vstd::utf8::encode_utf8(key));
    le64_roundtrip(peer_id as u64);
    i64_u64_roundtrip(peer_id);
    vstd::utf8::encode_utf8_valid_utf8(key);
    vstd::utf8::encode_utf8_decode_utf8(key);
}

proof fn i64_u64_roundtrip(x: i64)
    ensures
        (x as u64) as i64 == x,
{
    assert((x as u64) as i64 == x) by (bit_vector);
}

proof fn i32_u32_roundtrip(x: i32)
    ensures
        (x as u32) as i32 == x,
{
    assert((x as u32) as i32 == x) by (bit_vector);
}

// ---------------------------------------------------------------------------
// Media merging
// ---------------------------------------------------------------------------

/// Callback data of the "merge media" button: identifier, then each message
/// id as four little-endian bytes.
pub open spec fn add_merge_data_spec(id: [u8; 4], ids: Seq<i32>) -> Seq<u8>
    decreases ids.len(),
{
    if ids.len() == 0 {
        id@
    } else {
        add_merge_data_spec(id, ids.drop_last()) + le32(ids.last() as u32)
    }
}

/// The message ids of "merge media" data: its bytes after the identifier in
/// groups of four, an incomplete last group ignored.
pub open spec fn merge_ids_spec(data: Seq<u8>) -> Seq<i32> {
    Seq::new(
        ((data.len() - 4) / 4) as nat,
        |k: int| from_le32(data.subrange(4 + 4 * k, 8 + 4 * k)) as i32,
    )
}

proof fn lemma_add_merge_data_len(id: [u8; 4], ids: Seq<i32>)
    ensures
        add_merge_data_spec(id, ids).len() == 4 + 4 * ids.len(),
        add_merge_data_spec(id, ids).take(4) == id@,
    decreases ids.len(),
{
    if ids.len() > 0 {
        lemma_add_merge_data_len(id, ids.drop_last());
        let d = add_merge_data_spec(id, ids.drop_last());
        assert((d + le32(ids.last() as u32)).take(4) =~= d.take(4));
    }
}

proof fn lemma_add_merge_data_group(id: [u8; 4], ids: Seq<i32>, k: int)
    requires
        0 <= k < ids.len(),
    ensures
        add_merge_data_spec(id, ids).subrange(4 + 4 * k, 8 + 4 * k) == le32(ids[k] as u32),
    decreases ids.len(),
{
    lemma_add_merge_data_len(id, ids.drop_last());
    let d = add_merge_data_spec(id, ids.drop_last());
    if k == ids.len() - 1 {
        assert((d + le32(ids.last() as u32)).subrange(4 + 4 * k, 8 + 4 * k) =~= le32(
            ids.last() as u32,
        ));
    } else {
        lemma_add_merge_data_group(id, ids.drop_last(), k);
        assert((d + le32(ids.last() as u32)).subrange(4 + 4 * k, 8 + 4 * k) =~= d.subrange(
            4 + 4 * k,
            8 + 4 * k,
        ));
    }
}

/// The "merge media" button.
pub struct AddMergeButton {
    /// The button.
    pub raw: InlineButton,
}

impl AddMergeButton {
    /// The button for up to ten media messages.
    pub fn new(id: [u8; 4], message_ids: &[i32]) -> (res: Self)
        requires
            message_ids@.len() <= 10,
        ensures
            res.raw.text@ == "合并媒体"@,
            res.raw.data@ == add_merge_data_spec(id, message_ids@),
    {
        let mut data = id_bytes(id);
        let mut i: usize = 0;
        while i < message_ids.len()
            invariant
                i <= message_ids@.len(),
                data@ == add_merge_data_spec(id, message_ids@.take(i as int)),
            decreases message_ids@.len() - i,
        {
            push_le32(&mut data, message_ids[i] as u32);
            assert(message_ids@.take(i + 1).drop_last() =~= message_ids@.take(i as int));
            i = i + 1;
        }
        assert(message_ids@.take(message_ids@.len() as int) =~= message_ids@);
        AddMergeButton { raw: InlineButton { text: "合并媒体".to_owned(), data } }
    }

    /// The message ids of the button's data, when it carries the identifier;
    /// the data holds at most ten ids.
    pub fn from_data(id: [u8; 4], data: &[u8]) -> (res: Option<Vec<i32>>)
        requires
            data@.len() >= 4,
            has_id(data@, id) ==> (data@.len() - 4) / 4 <= 10,
        ensures
            has_id(data@, id) <==> res is Some,
            res matches Some(v) ==> v@ == merge_ids_spec(data@),
    {
        if starts_with_id(data, id) {
            let n = data.len();
            let count = (n - 4) / 4;
            let mut res: Vec<i32> = Vec::new();
            let mut k: usize = 0;
            while k < count
                invariant
                    k <= count,
                    n == data@.len(),
                    count == (data@.len() - 4) / 4,
                    data@.len() >= 4,
                    res@ =~= merge_ids_spec(data@).take(k as int),
                decreases count - k,
            {
                assert(4 * k + 8 <= n) by (nonlinear_arith)
                    requires
                        k < count,
                        count == (n - 4) / 4,
                        n >= 4,
                ;
                res.push(read_le32(data, 4 + 4 * k) as i32);
                k = k + 1;
            }
            assert(merge_ids_spec(data@).take(count as int) =~= merge_ids_spec(data@));
            Some(res)
        } else {
            None
        }
    }
}

/// The data of a "merge media" button reads back as its message ids.
pub proof fn add_merge_roundtrip(id: [u8; 4], ids: Seq<i32>)
    ensures
        has_id(add_merge_data_spec(id, ids), id),
        merge_ids_spec(add_merge_data_spec(id, ids)) == ids,
{
    lemma_add_merge_data_len(id, ids);
    let d = add_merge_data_spec(id, ids);
    assert forall|k: int| 0 <= k < ids.len() implies #[trigger] merge_ids_spec(d)[k] == ids[k] by {
        lemma_add_merge_data_group(id, ids, k);
        le32_roundtrip(ids[k] as u32);
        i32_u32_roundtrip(ids[k]);
    }
    assert(merge_ids_spec(d) =~= ids);
}

/// The "finish merging" button.
pub struct FinishMergeButton {
    /// The button.
    pub raw: InlineButton,
}

impl FinishMergeButton {
    /// The button; its data is the identifier alone.
    pub fn new(id: [u8; 4]) -> (res: Self)
        ensures
            res.raw.text@ == "完成合并"@,
            res.raw.data@ == id@,
    {
        FinishMergeButton { raw: InlineButton { text: "完成合并".to_owned(), data: id_bytes(id) } }
    }

    /// `Some(())` when the data carries the identifier.
    pub fn from_data(id: [u8; 4], data: &[u8]) -> (res: Option<()>)
        requires
            data@.len() >= 4,
        ensures
            has_id(data@, id) <==> res is Some,
    {
        if starts_with_id(data, id) {
            Some(())
        } else {
            None
        }
    }
}

// ---------------------------------------------------------------------------
// Join verification
// ---------------------------------------------------------------------------

/// The emoji choices of the join verification.
pub const EMOJIS: [char; 13] = [
    '\u{2764}',
    '\u{01f970}',
    '\u{01f975}',
    '\u{01f32d}',
    '\u{01f95b}',
    '\u{01f346}',
    '\u{01f525}',
    '\u{26a1}',
    '\u{01f973}',
    '\u{01f33f}',
    '\u{2b50}',
    '\u{01f4a6}',
    '\u{01f365}',
];

/// Callback data carrying a user: identifier, then the user's dialog id.
pub open spec fn user_data_spec(id: [u8; 4], user_id: i64) -> Seq<u8> {
    id@ + le64(user_id as u64)
}

/// Callback data of an emoji choice: the user data, then the emoji index.
pub open spec fn verify_data_spec(id: [u8; 4], user_id: i64, index: u32) -> Seq<u8> {
    user_data_spec(id, user_id) + le32(index)
}

fn user_data(id: [u8; 4], user_id: i64) -> (res: Vec<u8>)
    ensures
        res@ == user_data_spec(id, user_id),
{
    let mut data = id_bytes(id);
    push_le64(&mut data, user_id as u64);
    data
}

fn user_from_data(id: [u8; 4], data: &[u8]) -> (res: Option<i64>)
    requires
        data@.len() >= 4,
        has_id(data@, id) ==> data@.len() >= 12,
    ensures
        has_id(data@, id) <==> res is Some,
        res matches Some(u) ==> u == from_le64(data@.subrange(4, 12)) as i64,
{
    if starts_with_id(data, id) {
        Some(read_le64(data, 4) as i64)
    } else {
        None
    }
}

/// One emoji choice of a join verification.
pub struct VerifyButton;

impl VerifyButton {
    /// The button for emoji `index` offered to `user_id`.
    pub fn new(id: [u8; 4], user_id: i64, index: u32) -> (res: InlineButton)
        requires
            index < 13,
        ensures
            res.text@ == seq![EMOJIS@[index as int]],
            res.data@ == verify_data_spec(id, user_id, index),
    {
        let mut data = user_data(id, user_id);
        push_le32(&mut data, index);
        let mut text = String::new();
        push_char(&mut text, EMOJIS[index as usize]);
        InlineButton { text, data }
    }

    /// The user and emoji index of a choice's data. The identifier must be
    /// followed by at least twelve bytes.
    pub fn from_data(id: [u8; 4], data: &[u8]) -> (res: Option<(i64, u32)>)
        requires
            data@.len() >= 4,
            has_id(data@, id) ==> data@.len() >= 16,
        ensures
            has_id(data@, id) <==> res is Some,
            res matches Some((u, i)) ==> u == from_le64(data@.subrange(4, 12)) as i64 && i
                == from_le32(data@.subrange(12, 16)),
    {
        if starts_with_id(data, id) {
            let user_id = read_le64(data, 4) as i64;
            let index = read_le32(data, 12);
            Some((user_id, index))
        } else {
            None
        }
    }
}

/// The data of an emoji choice reads back as its user and index.
pub proof fn verify_roundtrip(id: [u8; 4], user_id: i64, index: u32)
    ensures
        has_id(verify_data_spec(id, user_id, index), id),
        verify_data_spec(id, user_id, index).len() == 16,
        from_le64(verify_data_spec(id, user_id, index).subrange(4, 12)) as i64 == user_id,
        from_le32(verify_data_spec(id, user_id, index).subrange(12, 16)) == index,
{
    let d = verify_data_spec(id, user_id, index);
    assert(d.take(4) =~= id@);
    assert(d.subrange(4, 12) =~= le64(user_id as u64));
    assert(d.subrange(12, 16) =~= le32(index));
    le64_roundtrip(user_id as u64);
    le32_roundtrip(index);
    i64_u64_roundtrip(user_id);
}

/// The administrator's "let in" button of a join verification.
pub struct AdminVerifyButton;

impl AdminVerifyButton {
    /// The button for `user_id`.
    pub fn new(id: [u8; 4], user_id: i64) -> (res: InlineButton)
        ensures
            res.text@ == "放行 (管理员)"@,
            res.data@ == user_data_spec(id, user_id),
    {
        InlineButton { text: "放行 (管理员)".to_owned(), data: user_data(id, user_id) }
    }

    /// The user of the button's data. The identifier must be followed by at
    /// least eight bytes.
    pub fn from_data(id: [u8; 4], data: &[u8]) -> (res: Option<i64>)
        requires
            data@.len() >= 4,
            has_id(data@, id) ==> data@.len() >= 12,
        ensures
            has_id(data@, id) <==> res is Some,
            res matches Some(u) ==> u == from_le64(data@.subrange(4, 12)) as i64,
    {
        user_from_data(id, data)
    }
}

/// The administrator's "ban" button of a join verification.
pub struct AdminKickButton;

impl AdminKickButton {
    /// The button for `user_id`.
    pub fn new(id: [u8; 4], user_id: i64) -> (res: InlineButton)
        ensures
            res.text@ == "封禁 (管理员)"@,
            res.data@ == user_data_spec(id, user_id),
    {
        InlineButton { text: "封禁 (管理员)".to_owned(), data: user_data(id, user_id) }
    }

    /// The user of the button's data. The identifier must be followed by at
    /// least eight bytes.
    pub fn from_data(id: [u8; 4], data: &[u8]) -> (res: Option<i64>)
        requires
            data@.len() >= 4,
            has_id(data@, id) ==> data@.len() >= 12,
        ensures
            has_id(data@, id) <==> res is Some,
            res matches Some(u) ==> u == from_le64(data@.subrange(4, 12)) as i64,
    {
        user_from_data(id, data)
    }
}

/// The data of a user button reads back as its user.
pub proof fn user_roundtrip(id: [u8; 4], user_id: i64)
    ensures
        has_id(user_data_spec(id, user_id), id),
        user_data_spec(id, user_id).len() == 12,
        from_le64(user_data_spec(id, user_id).subrange(4, 12)) as i64 == user_id,
{
    let d = user_data_spec(id, user_id);
    assert(d.take(4) =~= id@);
    assert(d.subrange(4, 12) =~= le64(user_id as u64));
    le64_roundtrip(user_id as u64);
    i64_u64_roundtrip(user_id);
}

// ---------------------------------------------------------------------------
// Original-quality media of a post
// ---------------------------------------------------------------------------

/// Callback data of the "original pictures" button: identifier, then the
/// post id.
pub open spec fn original_data_spec(id: [u8; 4], tid: u64) -> Seq<u8> {
    id@ + le64(tid)
}

/// The "original pictures" button of a post.
pub struct GetOriginalButton {
    /// The button.
    pub raw: InlineButton,
}

impl GetOriginalButton {
    /// The button for post `tid`.
    pub fn new(id: [u8; 4], tid: u64) -> (res: Self)
        ensures
            res.raw.text@ == "获取原图"@,
            res.raw.data@ == original_data_spec(id, tid),
    {
        let mut data = id_bytes(id);
        push_le64(&mut data, tid);
        GetOriginalButton { raw: InlineButton { text: "获取原图".to_owned(), data } }
    }

    /// The post id of the button's data. The identifier must be followed by
    /// exactly eight bytes.
    pub fn from_data(id: [u8; 4], data: &[u8]) -> (res: Option<u64>)
        requires
            data@.len() >= 4,
            has_id(data@, id) ==> data@.len() == 12,
        ensures
            has_id(data@, id) <==> res is Some,
            res matches Some(t) ==> t == from_le64(data@.subrange(4, 12)),
    {
        if starts_with_id(data, id) {
            Some(read_le64(data, 4))
        } else {
            None
        }
    }
}

/// The data of an "original pictures" button reads back as its post id.
pub proof fn original_roundtrip(id: [u8; 4], tid: u64)
    ensures
        has_id(original_data_spec(id, tid), id),
        original_data_spec(id, tid).len() == 12,
        from_le64(original_data_spec(id, tid).subrange(4, 12)) == tid,
{
    let d = original_data_spec(id, tid);
    assert(d.take(4) =~= id@);
    assert(d.subrange(4, 12) =~= le64(tid));
    le64_roundtrip(tid);
}

} // verus!
