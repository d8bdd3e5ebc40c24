//! Join verification: the stored status of a member, the decisions taken on
//! a join, on an answer and on a timeout, and the texts shown.
use vstd::prelude::*;

use crate::buttons::{
    from_le32, from_le64, has_id, AdminKickButton, AdminVerifyButton, InlineButton, VerifyButton,
    EMOJIS,
};
use crate::clock::{random_inclusive, sample_below};
use crate::text::{dec, dec_signed, i64_to_string, push_char, push_str, str_chars, u64_to_string};

verus! {

/// Time allowed to answer, in nanoseconds (three minutes).
pub const VERIFY_LIMIT_NS: i128 = 180_000_000_000;

/// Time allowed to answer, in seconds.
pub const VERIFY_LIMIT_SECS: u64 = 180;

/// Configuration key of the feature.
pub const VERIFY_ENABLED_KEY: &'static str = "verify_enabled";

/// The verification status of a member of a group.
pub enum VerifyStatus {
    /// Nothing recorded.
    Null,
    /// A challenge is open.
    Verifying {
        /// When the challenge was sent, Unix milliseconds.
        date_ms: i64,
        /// The challenge message.
        message_id: i32,
        /// The index of the correct emoji.
        solution: u32,
    },
    /// The member passed.
    Verified,
    /// The member failed or was banned.
    Banned,
}

/// A status as stored: status code, date, message id, solution.
pub struct StatusRow {
    /// `1` verifying, `2` verified, `3` banned, nothing for no status.
    pub status: Option<u32>,
    /// Challenge date in Unix milliseconds.
    pub date: Option<i64>,
    /// Challenge message.
    pub message_id: Option<i32>,
    /// Correct emoji index.
    pub solution: Option<u32>,
}

/// The stored form of a status: code `1` with date, message and solution
/// for an open challenge, `2` verified, `3` banned, nothing at all for no
/// status.
pub open spec fn row_of(s: VerifyStatus) -> StatusRow {
    match s {
        VerifyStatus::Null => StatusRow { status: None, date: None, message_id: None, solution: None },
        VerifyStatus::Verifying { date_ms, message_id, solution } => StatusRow {
            status: Some(1),
            date: Some(date_ms),
            message_id: Some(message_id),
            solution: Some(solution),
        },
        VerifyStatus::Verified => StatusRow {
            status: Some(2),
            date: None,
            message_id: None,
            solution: None,
        },
        VerifyStatus::Banned => StatusRow { status: Some(3), date: None, message_id: None, solution: None },
    }
}

/// The status a stored row means: code `1` with its date, message and
/// solution is an open challenge, `2` verified, `3` banned, anything else no
/// status; an open challenge with a missing column cannot be read (`None`).
pub open spec fn status_of_row(row: StatusRow) -> Option<VerifyStatus> {
    match row.status {
        Some(1) => match (row.date, row.message_id, row.solution) {
            (Some(d), Some(m), Some(s)) => Some(
                VerifyStatus::Verifying { date_ms: d, message_id: m, solution: s },
            ),
            _ => None,
        },
        Some(2) => Some(VerifyStatus::Verified),
        Some(3) => Some(VerifyStatus::Banned),
        _ => Some(VerifyStatus::Null),
    }
}

impl VerifyStatus {
    /// The stored form of the status (see `row_of`).
    pub fn to_row(&self) -> (res: StatusRow)
        ensures
            res == row_of(*self),
    {
        match self {
            VerifyStatus::Null => StatusRow { status: None, date: None, message_id: None, solution: None },
            VerifyStatus::Verifying { date_ms, message_id, solution } => StatusRow {
                status: Some(1),
                date: Some(*date_ms),
                message_id: Some(*message_id),
                solution: Some(*solution),
            },
            VerifyStatus::Verified => StatusRow { status: Some(2), date: None, message_id: None, solution: None },
            VerifyStatus::Banned => StatusRow { status: Some(3), date: None, message_id: None, solution: None },
        }
    }

    /// The status a stored row means (see `status_of_row`).
    pub fn from_row(row: &StatusRow) -> (res: Option<VerifyStatus>)
        ensures
            res == status_of_row(*row),
    {
        match row.status {
            Some(1) => match (row.date, row.message_id, row.solution) {
                (Some(d), Some(m), Some(s)) => Some(
                    VerifyStatus::Verifying { date_ms: d, message_id: m, solution: s },
                ),
                _ => None,
            },
            Some(2) => Some(VerifyStatus::Verified),
            Some(3) => Some(VerifyStatus::Banned),
            _ => Some(VerifyStatus::Null),
        }
    }
}

/// Reading a stored status gives back the status that was stored.
pub proof fn status_row_roundtrip(s: VerifyStatus)
    ensures
        status_of_row(row_of(s)) == Some(s),
{
}

/// What to do before sending a challenge to a joining member.
pub enum JoinAction {
    /// Already verified: send nothing.
    Skip,
    /// A challenge is open: delete its message, then send a new one.
    Replace(i32),
    /// Restrict the member from sending, then send a challenge.
    Restrict,
}

/// The action for a joining member with the given status.
pub fn join_action(status: &VerifyStatus) -> (res: JoinAction)
    ensures
        match *status {
            VerifyStatus::Verified => res matches JoinAction::Skip,
            VerifyStatus::Verifying { message_id, .. } => res == JoinAction::Replace(message_id),
            VerifyStatus::Null | VerifyStatus::Banned => res matches JoinAction::Restrict,
        },
{
    match status {
        VerifyStatus::Verified => JoinAction::Skip,
        VerifyStatus::Verifying { message_id, .. } => JoinAction::Replace(*message_id),
        VerifyStatus::Null | VerifyStatus::Banned => JoinAction::Restrict,
    }
}

/// The outcome of pressing an emoji.
pub enum AnswerOutcome {
    /// Correct and in time: mark verified and lift the restriction.
    Pass,
    /// Wrong or late: mark banned and ban.
    Fail,
    /// No open challenge: nothing changes.
    Ignore,
}

/// Nanoseconds from the challenge date (milliseconds) to `now_ns`.
pub open spec fn elapsed_ns(now_ns: i128, date_ms: i64) -> int {
    now_ns - date_ms * 1_000_000
}

/// The outcome of pressing emoji `index` at `now_ns` (Unix nanoseconds): an
/// open challenge passes when the answer comes within the limit and is the
/// solution, and fails otherwise. The time is any instant a timestamp can
/// hold (within 10^27 nanoseconds of the epoch).
pub fn answer_outcome(status: &VerifyStatus, now_ns: i128, index: u32) -> (res: AnswerOutcome)
    requires
        -1_000_000_000_000_000_000_000_000_000 <= now_ns <= 1_000_000_000_000_000_000_000_000_000,
    ensures
        match *status {
            VerifyStatus::Verifying { date_ms, solution, .. } => if elapsed_ns(now_ns, date_ms)
                < VERIFY_LIMIT_NS && solution == index {
                res matches AnswerOutcome::Pass
            } else {
                res matches AnswerOutcome::Fail
            },
            _ => res matches AnswerOutcome::Ignore,
        },
{
    match status {
        VerifyStatus::Verifying { date_ms, solution, .. } => {
            let elapsed = now_ns - (*date_ms as i128) * 1_000_000;
            if elapsed < VERIFY_LIMIT_NS && *solution == index {
                AnswerOutcome::Pass
            } else {
                AnswerOutcome::Fail
            }
        },
        _ => AnswerOutcome::Ignore,
    }
}

/// Whether an open challenge has timed out at `now_ns` (within 10^27
/// nanoseconds of the epoch): more than the limit has passed since it was
/// sent.
pub fn challenge_expired(status: &VerifyStatus, now_ns: i128) -> (res: Option<i32>)
    requires
        -1_000_000_000_000_000_000_000_000_000 <= now_ns <= 1_000_000_000_000_000_000_000_000_000,
    ensures
        match *status {
            VerifyStatus::Verifying { date_ms, message_id, .. } => if elapsed_ns(now_ns, date_ms)
                > VERIFY_LIMIT_NS {
                res == Some(message_id)
            } else {
                res is None
            },
            _ => res is None,
        },
{
    match status {
        VerifyStatus::Verifying { date_ms, message_id, .. } => {
            let elapsed = now_ns - (*date_ms as i128) * 1_000_000;
            if elapsed > VERIFY_LIMIT_NS {
                Some(*message_id)
            } else {
                None
            }
        },
        _ => None,
    }
}

/// The shortened display name: at most seven ASCII characters and at most two
/// characters in all once a non-ASCII one is reached (the count includes the
/// ASCII ones before), followed by `...` when something was cut.
pub open spec fn truncate_state(s: Seq<char>) -> (Seq<char>, bool)
    decreases s.len(),
{
    if s.len() == 0 {
        (Seq::empty(), false)
    } else {
        let (r, cut) = truncate_state(s.drop_last());
        if cut {
            (r, true)
        } else {
            let c = s.last();
            if (c as u32) < 128 {
                if r.len() >= 7 {
                    (r, true)
                } else {
                    (r.push(c), false)
                }
            } else if r.len() < 2 {
                (r.push(c), false)
            } else {
                (r, true)
            }
        }
    }
}

/// The displayed form of a name (see `truncate_state`).
pub open spec fn truncate_name_spec(s: Seq<char>) -> Seq<char> {
    let (r, cut) = truncate_state(s);
    if cut {
        r + "..."@
    } else {
        r
    }
}

proof fn lemma_truncate_state_len(s: Seq<char>)
    ensures
        truncate_state(s).0.len() <= 7,
    decreases s.len(),
{
    if s.len() > 0 {
        lemma_truncate_state_len(s.drop_last());
    }
}

/// A shortened name keeps at most seven characters of the name, and is at
/// most ten characters long with the `...`.
pub proof fn truncated_name_is_short(s: Seq<char>)
    ensures
        truncate_name_spec(s).len() <= 10,
{
    lemma_truncate_state_len(s);
    reveal_strlit("...");
}

/// Shortens a display name (see `truncate_name_spec`).
pub fn truncate_name(s: &str) -> (res: String)
    ensures
        res@ == truncate_name_spec(s@),
{
    let chars = str_chars(s);
    let mut result: Vec<char> = Vec::new();
    let mut count: usize = 0;
    let mut truncated = false;
    let mut i: usize = 0;
    while i < chars.len()
        invariant
            i <= chars@.len(),
            chars@ == s@,
            count == result@.len(),
            count <= 7,
            truncate_state(s@.take(i as int)) == (result@, truncated),
        decreases chars@.len() - i,
    {
        assert(s@.take(i + 1).drop_last() =~= s@.take(i as int));
        if truncated {
            i = i + 1;
        } else {
            let c = chars[i];
            if (c as u32) < 128 {
                if count >= 7 {
                    truncated = true;
                } else {
                    result.push(c);
                    count = count + 1;
                }
            } else {
                if count < 2 {
                    result.push(c);
                    count = count + 1;
                } else {
                    truncated = true;
                }
            }
            i = i + 1;
        }
    }
    assert(s@.take(s@.len() as int) =~= s@);
    let mut out = String::new();
    let mut k: usize = 0;
    while k < result.len()
        invariant
            k <= result@.len(),
            out@ == result@.take(k as int),
        decreases result@.len() - k,
    {
        push_char(&mut out, result[k]);
        k = k + 1;
        assert(out@ =~= result@.take(k as int));
    }
    assert(result@.take(result@.len() as int) =~= result@);
    if truncated {
        push_str(&mut out, "...");
    }
    out
}

/// The link to a user: `https://t.me/{username}`, or `tg://user?id={id}`
/// without a username.
pub open spec fn user_url_spec(username: Option<Seq<char>>, user_id: i64) -> Seq<char> {
    match username {
        Some(u) => "https://t.me/"@ + u,
        None => "tg://user?id="@ + dec_signed(user_id as int),
    }
}

/// Builds the user link (see `user_url_spec`).
pub fn user_url(username: Option<&str>, user_id: i64) -> (res: String)
    ensures
        res@ == user_url_spec(
            match username {
                Some(u) => Some(u@),
                None => None,
            },
            user_id,
        ),
{
    let mut res = String::new();
    match username {
        Some(u) => {
            push_str(&mut res, "https://t.me/");
            push_str(&mut res, u);
        },
        None => {
            push_str(&mut res, "tg://user?id=");
            push_str(&mut res, i64_to_string(user_id).as_str());
        },
    }
    res
}

/// The challenge text: a link to the member, the time limit and the emoji to
/// press.
pub open spec fn prompt_spec(user_url: Seq<char>, user_name: Seq<char>, emoji: char) -> Seq<char> {
    "<a href=\""@ + user_url + "\">"@ + user_name + "</a> 请在 "@ + dec(180) + " 秒内点击 "@
        + seq![emoji] + " 完成入群验证"@
}

/// Builds the challenge text (see `prompt_spec`).
pub fn prompt_text(user_url: &str, user_name: &str, emoji: char) -> (res: String)
    ensures
        res@ == prompt_spec(user_url@, user_name@, emoji),
{
    let mut res = String::new();
    push_str(&mut res, "<a href=\"");
    push_str(&mut res, user_url);
    push_str(&mut res, "\">");
    push_str(&mut res, user_name);
    push_str(&mut res, "</a> 请在 ");
    push_str(&mut res, u64_to_string(VERIFY_LIMIT_SECS).as_str());
    push_str(&mut res, " 秒内点击 ");
    push_char(&mut res, emoji);
    push_str(&mut res, " 完成入群验证");
    res
}

/// A challenge: nine emoji indices shown in rows of three, and the position
/// of the correct one among them.
pub struct Challenge {
    /// The emoji indices shown, in order.
    pub emoji_indexs: Vec<u32>,
    /// The index of the correct emoji.
    pub solution: u32,
    /// The emoji to press.
    pub solution_emoji: char,
}

/// The challenge for the shown indices and the position `rand_index` of the
/// correct one.
pub fn make_challenge(emoji_indexs: Vec<u32>, rand_index: usize) -> (res: Challenge)
    requires
        rand_index < emoji_indexs@.len(),
        forall|i: int| 0 <= i < emoji_indexs@.len() ==> #[trigger] emoji_indexs@[i] < 13,
    ensures
        res.emoji_indexs@ == emoji_indexs@,
        res.solution == emoji_indexs@[rand_index as int],
        res.solution_emoji == EMOJIS@[res.solution as int],
{
    let solution = emoji_indexs[rand_index];
    let solution_emoji = EMOJIS[solution as usize];
    Challenge { emoji_indexs, solution, solution_emoji }
}

/// The first button is never the correct answer: the shown indices are
/// distinct and the correct position is drawn from 1 to 8.
pub proof fn first_button_is_wrong(emoji_indexs: Seq<u32>, rand_index: int)
    requires
        1 <= rand_index < 9,
        emoji_indexs.len() == 9,
        forall|i: int, j: int|
            0 <= i < j < emoji_indexs.len() ==> #[trigger] emoji_indexs[i] != #[trigger] emoji_indexs[j],
    ensures
        emoji_indexs[rand_index] != emoji_indexs[0],
{
    assert(emoji_indexs[0] != emoji_indexs[rand_index]);
}

/// A new challenge: nine distinct emoji indices drawn at random, and a
/// correct one drawn among positions 1 to 8, so that the first button is
/// never correct.
pub fn new_challenge() -> (res: Challenge)
    ensures
        res.emoji_indexs@.len() == 9,
        forall|i: int| 0 <= i < 9 ==> #[trigger] res.emoji_indexs@[i] < 13,
        forall|i: int, j: int|
            0 <= i < j < 9 ==> #[trigger] res.emoji_indexs@[i] != #[trigger] res.emoji_indexs@[j],
        exists|k: int| 1 <= k < 9 && res.solution == #[trigger] res.emoji_indexs@[k],
        res.solution != res.emoji_indexs@[0],
        res.solution_emoji == EMOJIS@[res.solution as int],
{
    let emoji_indexs = sample_below(13, 9);
    let rand_index = random_inclusive(1, 8) as usize;
    proof {
        first_button_is_wrong(emoji_indexs@, rand_index as int);
    }
    let res = make_challenge(emoji_indexs, rand_index);
    assert(res.solution == res.emoji_indexs@[rand_index as int]);
    res
}

/// The keyboard of a challenge: the emoji buttons in rows of three, then a
/// row with the administrator's "let in" and "ban" buttons.
pub fn challenge_keyboard(
    verify_id: [u8; 4],
    admin_verify_id: [u8; 4],
    admin_kick_id: [u8; 4],
    user_id: i64,
    emoji_indexs: &Vec<u32>,
) -> (res: Vec<Vec<InlineButton>>)
    requires
        forall|i: int| 0 <= i < emoji_indexs@.len() ==> #[trigger] emoji_indexs@[i] < 13,
    ensures
        res@.len() == (emoji_indexs@.len() + 2) / 3 + 1,
        forall|r: int, c: int|
            0 <= r < res@.len() - 1 && 0 <= c < res@[r]@.len() ==> 3 * r + c < emoji_indexs@.len()
                && (#[trigger] res@[r]@[c]).data@ == crate::buttons::verify_data_spec(
                verify_id,
                user_id,
                emoji_indexs@[3 * r + c],
            ),
        forall|r: int|
            0 <= r < res@.len() - 1 ==> #[trigger] res@[r]@.len() == if 3 * r + 3
                <= emoji_indexs@.len() {
                3
            } else {
                emoji_indexs@.len() - 3 * r
            },
        res@.last()@.len() == 2,
        res@.last()@[0].data@ == crate::buttons::user_data_spec(admin_verify_id, user_id),
        res@.last()@[1].data@ == crate::buttons::user_data_spec(admin_kick_id, user_id),
{
    let n = emoji_indexs.len();
    let mut rows: Vec<Vec<InlineButton>> = Vec::new();
    let mut start: usize = 0;
    while start < n
        invariant
            n == emoji_indexs@.len(),
            forall|i: int| 0 <= i < emoji_indexs@.len() ==> #[trigger] emoji_indexs@[i] < 13,
            start <= n,
            start < n ==> start % 3 == 0,
            rows@.len() == (start + 2) / 3,
            forall|r: int, c: int|
                0 <= r < rows@.len() && 0 <= c < rows@[r]@.len() ==> 3 * r + c < n && (
                #[trigger] rows@[r]@[c]).data@ == crate::buttons::verify_data_spec(
                    verify_id,
                    user_id,
                    emoji_indexs@[3 * r + c],
                ),
            forall|r: int|
                0 <= r < rows@.len() ==> #[trigger] rows@[r]@.len() == if 3 * r + 3 <= n {
                    3
                } else {
                    n - 3 * r
                },
        decreases n - start,
    {
        let end = if n - start >= 3 { start + 3 } else { n };
        let mut row: Vec<InlineButton> = Vec::new();
        let mut k = start;
        while k < end
            invariant
                start <= k <= end <= n,
                n == emoji_indexs@.len(),
                forall|i: int| 0 <= i < emoji_indexs@.len() ==> #[trigger] emoji_indexs@[i] < 13,
                row@.len() == k - start,
                forall|c: int|
                    0 <= c < row@.len() ==> (#[trigger] row@[c]).data@
                        == crate::buttons::verify_data_spec(
                        verify_id,
                        user_id,
                        emoji_indexs@[start + c],
                    ),
            decreases end - k,
        {
            row.push(VerifyButton::new(verify_id, user_id, emoji_indexs[k]));
            k = k + 1;
        }
        let ghost old_rows = rows@;
        let ghost r0: int = rows@.len() as int;
        assert(start == 3 * r0);
        rows.push(row);
        assert(forall|r: int| 0 <= r < r0 ==> rows@[r] == old_rows[r]);
        assert(rows@[r0] == row);
        start = end;
        assert(rows@.len() == (start + 2) / 3);
    }
    let mut last: Vec<InlineButton> = Vec::new();
    last.push(AdminVerifyButton::new(admin_verify_id, user_id));
    last.push(AdminKickButton::new(admin_kick_id, user_id));
    rows.push(last);
    rows
}

/// The kind of a service message in a group.
pub enum ServiceAction {
    JoinedByLink,
    AddUser,
    DeleteUser,
    JoinedByRequest,
    JoinedViaCommunity,
    /// Any other service message.
    Other,
}

/// Whether a service message is deleted: joins and leaves are, other
/// service messages are kept.
pub fn deletes_service_message(a: &ServiceAction) -> (res: bool)
    ensures
        res == !(*a matches ServiceAction::Other),
{
    match a {
        ServiceAction::Other => false,
        _ => true,
    }
}

/// A pressed button of a join verification.
pub enum VerifyCallback {
    /// An emoji: the member it was sent to and the emoji index.
    Answer(i64, u32),
    /// The administrator's "let in" for a member.
    AdminLet(i64),
    /// The administrator's "ban" for a member.
    AdminKick(i64),
    /// Not a button of the verification.
    Unrelated,
}

/// Reads a pressed button, trying the emoji button, then "let in", then
/// "ban".
pub fn route_callback(
    verify_id: [u8; 4],
    admin_verify_id: [u8; 4],
    admin_kick_id: [u8; 4],
    data: &[u8],
) -> (res: VerifyCallback)
    requires
        data@.len() >= 4,
        has_id(data@, verify_id) ==> data@.len() >= 16,
        has_id(data@, admin_verify_id) ==> data@.len() >= 12,
        has_id(data@, admin_kick_id) ==> data@.len() >= 12,
    ensures
        has_id(data@, verify_id) ==> res == VerifyCallback::Answer(
            from_le64(data@.subrange(4, 12)) as i64,
            from_le32(data@.subrange(12, 16)),
        ),
        !has_id(data@, verify_id) && has_id(data@, admin_verify_id) ==> res
            == VerifyCallback::AdminLet(from_le64(data@.subrange(4, 12)) as i64),
        !has_id(data@, verify_id) && !has_id(data@, admin_verify_id) && has_id(data@, admin_kick_id)
            ==> res == VerifyCallback::AdminKick(from_le64(data@.subrange(4, 12)) as i64),
        !has_id(data@, verify_id) && !has_id(data@, admin_verify_id) && !has_id(
            data@,
            admin_kick_id,
        ) ==> res matches VerifyCallback::Unrelated,
{
    if let Some((user, index)) = VerifyButton::from_data(verify_id, data) {
        VerifyCallback::Answer(user, index)
    } else if let Some(user) = AdminVerifyButton::from_data(admin_verify_id, data) {
        VerifyCallback::AdminLet(user)
    } else if let Some(user) = AdminKickButton::from_data(admin_kick_id, data) {
        VerifyCallback::AdminKick(user)
    } else {
        VerifyCallback::Unrelated
    }
}

/// What an administrator's button does: "let in" marks the member verified,
/// "ban" marks them banned.
pub fn admin_status(kick: bool) -> (res: VerifyStatus)
    ensures
        kick ==> res matches VerifyStatus::Banned,
        !kick ==> res matches VerifyStatus::Verified,
{
    if kick {
        VerifyStatus::Banned
    } else {
        VerifyStatus::Verified
    }
}

/// The alert shown after an administrator's button: `放行成功` / `放行失败`
/// for "let in", `封禁成功` / `封禁失败` for "ban".
pub fn admin_result_text(kick: bool, success: bool) -> (res: &'static str)
    ensures
        res@ == if kick {
            if success {
                "封禁成功"@
            } else {
                "封禁失败"@
            }
        } else {
            if success {
                "放行成功"@
            } else {
                "放行失败"@
            }
        },
{
    if kick {
        if success {
            "封禁成功"
        } else {
            "封禁失败"
        }
    } else {
        if success {
            "放行成功"
        } else {
            "放行失败"
        }
    }
}

/// The alert shown when storing an administrator's decision failed.
pub fn admin_store_failed_text(kick: bool) -> (res: &'static str)
    ensures
        res@ == if kick {
            "封禁失败: 设置状态错误"@
        } else {
            "放行失败: 设置状态错误"@
        },
{
    if kick {
        "封禁失败: 设置状态错误"
    } else {
        "放行失败: 设置状态错误"
    }
}

/// The alert shown to a member pressing another member's emoji.
pub const NOT_YOUR_CHALLENGE: &'static str = "这是别人的入群验证啦";

/// The alert shown to a non-administrator pressing an administrator's
/// button or a configuration switch.
pub const NOT_ADMIN: &'static str = "没有管理员权限";

/// The alert for pressing an emoji: none for the member it was sent to, the
/// refusal for anyone else (whose press changes nothing).
pub fn answer_alert(sender: i64, challenged: i64) -> (res: Option<&'static str>)
    ensures
        sender == challenged ==> res is None,
        sender != challenged ==> (res matches Some(t) && t@ == NOT_YOUR_CHALLENGE@),
{
    if sender == challenged {
        None
    } else {
        Some(NOT_YOUR_CHALLENGE)
    }
}

/// What happened last while handling an administrator's button.
pub enum AdminEvent {
    /// The presser's rights were read: `None` when they could not be.
    Permissions(Option<bool>),
    /// Storing the new status succeeded or failed.
    Stored(bool),
    /// Changing the member's rights succeeded or failed.
    RightsChanged(bool),
}

/// What to do next while handling an administrator's button.
pub enum AdminAction {
    /// Stop without answering.
    Stop,
    /// Answer with this alert and stop, changing nothing more.
    Refuse(&'static str),
    /// Store this status for the member.
    Store(VerifyStatus),
    /// Let the member in (`false`) or ban them (`true`).
    ChangeRights(bool),
    /// Answer with this alert; when `delete_message`, remove the challenge.
    Finish { alert: &'static str, delete_message: bool },
}

/// The next step of the "let in" (`kick` false) or "ban" (`kick` true)
/// button: rights unreadable, stop; not an administrator, refuse with
/// `NOT_ADMIN`; then store the new status first, refuse if storing failed
/// (the rights are not changed), change the rights only after the status is
/// stored, and finish with the result alert, deleting the challenge on
/// success.
pub fn admin_next(kick: bool, event: AdminEvent) -> (res: AdminAction)
    ensures
        match event {
            AdminEvent::Permissions(None) => res matches AdminAction::Stop,
            AdminEvent::Permissions(Some(false)) => (res matches AdminAction::Refuse(t) && t@
                == NOT_ADMIN@),
            AdminEvent::Permissions(Some(true)) => (res matches AdminAction::Store(st) && (if kick {
                st matches VerifyStatus::Banned
            } else {
                st matches VerifyStatus::Verified
            })),
            AdminEvent::Stored(false) => (res matches AdminAction::Refuse(t) && t@ == (if kick {
                "封禁失败: 设置状态错误"@
            } else {
                "放行失败: 设置状态错误"@
            })),
            AdminEvent::Stored(true) => res == AdminAction::ChangeRights(kick),
            AdminEvent::RightsChanged(ok) => (res matches AdminAction::Finish {
                alert,
                delete_message,
            } && delete_message == ok && alert@ == (if kick {
                if ok {
                    "封禁成功"@
                } else {
                    "封禁失败"@
                }
            } else {
                if ok {
                    "放行成功"@
                } else {
                    "放行失败"@
                }
            })),
        },
{
    match event {
        AdminEvent::Permissions(None) => AdminAction::Stop,
        AdminEvent::Permissions(Some(false)) => AdminAction::Refuse(NOT_ADMIN),
        AdminEvent::Permissions(Some(true)) => AdminAction::Store(admin_status(kick)),
        AdminEvent::Stored(false) => AdminAction::Refuse(admin_store_failed_text(kick)),
        AdminEvent::Stored(true) => AdminAction::ChangeRights(kick),
        AdminEvent::RightsChanged(ok) => AdminAction::Finish {
            alert: admin_result_text(kick, ok),
            delete_message: ok,
        },
    }
}

/// The status a stored code means, for a row that holds every column:
/// `1` an open challenge with those columns, `2` verified, `3` banned,
/// anything else no status.
pub fn status_of_code(code: u32, date_ms: i64, message_id: i32, solution: u32) -> (res: VerifyStatus)
    ensures
        res == status_of_row(StatusRow {
            status: Some(code),
            date: Some(date_ms),
            message_id: Some(message_id),
            solution: Some(solution),
        })->0,
{
    match code {
        1 => VerifyStatus::Verifying { date_ms, message_id, solution },
        2 => VerifyStatus::Verified,
        3 => VerifyStatus::Banned,
        _ => VerifyStatus::Null,
    }
}

} // verus!
