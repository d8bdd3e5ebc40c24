//! What the bot keeps in its databases: the schema version steps, the kinds
//! of cached media and their stored codes, and the statements built for the
//! merge session table.
use vstd::prelude::*;

use crate::text::{dec_signed, i64_to_string, push_str};

verus! {

/// Schema version that the databases are brought to.
pub const SCHEMA_VERSION: i64 = 1;

/// What opening a database does for the version it reports: whether the
/// tables are created and whether the new version is recorded.
pub struct InitSteps {
    /// Create the tables of the first version.
    pub migrate_v0_to_v1: bool,
    /// Record the new version.
    pub set_version: bool,
}

/// The steps for the stored `user_version`: nothing when it is current,
/// create the tables and record the version when it is `0`, and nothing for
/// any other version.
pub fn init_steps(user_version: i64) -> (res: InitSteps)
    ensures
        res.migrate_v0_to_v1 == (user_version == 0),
        res.set_version == (user_version == 0),
{
    if user_version == SCHEMA_VERSION {
        return InitSteps { migrate_v0_to_v1: false, set_version: false };
    }
    let mut version = user_version;
    let mut migrate = false;
    if version == 0 {
        migrate = true;
        version = version + 1;
    }
    InitSteps { migrate_v0_to_v1: migrate, set_version: version == SCHEMA_VERSION }
}

/// The statement that records a schema version.
pub open spec fn set_version_sql_spec(version: i64) -> Seq<char> {
    "PRAGMA user_version = "@ + dec_signed(version as int)
}

/// Builds the statement that records a schema version.
pub fn set_version_sql(version: i64) -> (res: String)
    ensures
        res@ == set_version_sql_spec(version),
{
    let mut res = String::new();
    push_str(&mut res, "PRAGMA user_version = ");
    push_str(&mut res, i64_to_string(version).as_str());
    res
}

/// The kind of a cached media, as stored.
#[derive(PartialEq, Eq, Structural, Clone, Copy, Debug)]
pub enum MediaType {
    Photo,
    Video,
    Audio,
    Document,
    Animated,
    Sticker,
    CustomEmoji,
}

/// The stored code of each kind: 1 to 7 in the order of the variants.
pub open spec fn media_code(t: MediaType) -> u8 {
    match t {
        MediaType::Photo => 1,
        MediaType::Video => 2,
        MediaType::Audio => 3,
        MediaType::Document => 4,
        MediaType::Animated => 5,
        MediaType::Sticker => 6,
        MediaType::CustomEmoji => 7,
    }
}

impl MediaType {
    /// The stored code (see `media_code`).
    pub fn code(&self) -> (res: u8)
        ensures
            res == media_code(*self),
    {
        match self {
            MediaType::Photo => 1,
            MediaType::Video => 2,
            MediaType::Audio => 3,
            MediaType::Document => 4,
            MediaType::Animated => 5,
            MediaType::Sticker => 6,
            MediaType::CustomEmoji => 7,
        }
    }

    /// The kind with a stored code; codes outside 1 to 7 are refused.
    pub fn try_from_code(x: u8) -> (res: Option<MediaType>)
        ensures
            res is Some <==> 1 <= x <= 7,
            res matches Some(t) ==> media_code(t) == x,
    {
        match x {
            1 => Some(MediaType::Photo),
            2 => Some(MediaType::Video),
            3 => Some(MediaType::Audio),
            4 => Some(MediaType::Document),
            5 => Some(MediaType::Animated),
            6 => Some(MediaType::Sticker),
            7 => Some(MediaType::CustomEmoji),
            _ => None,
        }
    }

    /// The kind read back from a stored column: the column holds the code
    /// as a 32-bit number, of which the low byte is taken.
    pub fn from_column(x: u32) -> (res: Option<MediaType>)
        ensures
            res is Some <==> 1 <= x % 256 <= 7,
            res matches Some(t) ==> media_code(t) == x % 256,
    {
        let low: u8 = (x % 256) as u8;
        MediaType::try_from_code(low)
    }
}

/// Reading back the code of a kind gives the kind.
pub proof fn media_code_roundtrip(t: MediaType)
    ensures
        1 <= media_code(t) <= 7,
        forall|u: MediaType| media_code(u) == media_code(t) ==> u == t,
{
}

/// An attribute of a document that decides its kind.
#[derive(PartialEq, Eq, Structural, Clone, Copy, Debug)]
pub enum DocumentAttribute {
    Video,
    Audio,
    Animated,
    Sticker,
    CustomEmoji,
    /// Any other attribute (file name, image size, ...).
    Other,
}

/// The kind an attribute gives, if it decides one.
pub open spec fn attribute_kind(a: DocumentAttribute) -> Option<MediaType> {
    match a {
        DocumentAttribute::Video => Some(MediaType::Video),
        DocumentAttribute::Audio => Some(MediaType::Audio),
        DocumentAttribute::Animated => Some(MediaType::Animated),
        DocumentAttribute::Sticker => Some(MediaType::Sticker),
        DocumentAttribute::CustomEmoji => Some(MediaType::CustomEmoji),
        DocumentAttribute::Other => None,
    }
}

/// The kind of a document: that of its first deciding attribute, `Document`
/// when none decides.
pub open spec fn document_kind(attrs: Seq<DocumentAttribute>) -> MediaType
    decreases attrs.len(),
{
    if attrs.len() == 0 {
        MediaType::Document
    } else {
        match attribute_kind(attrs[0]) {
            Some(t) => t,
            None => document_kind(attrs.drop_first()),
        }
    }
}

/// The kind of a document from its attributes (see `document_kind`).
pub fn kind_of_attributes(attrs: &Vec<DocumentAttribute>) -> (res: MediaType)
    ensures
        res == document_kind(attrs@),
{
    let mut i: usize = 0;
    assert(attrs@.skip(0) =~= attrs@);
    while i < attrs.len()
        invariant
            i <= attrs@.len(),
            document_kind(attrs@) == document_kind(attrs@.skip(i as int)),
        decreases attrs@.len() - i,
    {
        assert(attrs@.skip(i as int).drop_first() =~= attrs@.skip(i + 1));
        assert(attrs@.skip(i as int)[0] == attrs@[i as int]);
        match attrs[i] {
            DocumentAttribute::Video => return MediaType::Video,
            DocumentAttribute::Audio => return MediaType::Audio,
            DocumentAttribute::Animated => return MediaType::Animated,
            DocumentAttribute::Sticker => return MediaType::Sticker,
            DocumentAttribute::CustomEmoji => return MediaType::CustomEmoji,
            DocumentAttribute::Other => {},
        }
        i = i + 1;
    }
    MediaType::Document
}

/// The kind of a document media: `None` when the media holds no document
/// (an empty one), else `document_kind` of its attributes.
pub fn parse_media_type(attributes: Option<&Vec<DocumentAttribute>>) -> (res: Option<MediaType>)
    ensures
        match attributes {
            None => res is None,
            Some(a) => res == Some(document_kind(a@)),
        },
{
    match attributes {
        None => None,
        Some(attrs) => Some(kind_of_attributes(attrs)),
    }
}

/// How a cached media is sent again: photos as photos, every other kind as
/// a document.
pub fn sends_as_photo(t: MediaType) -> (res: bool)
    ensures
        res == (t == MediaType::Photo),
{
    match t {
        MediaType::Photo => true,
        _ => false,
    }
}

/// The statement that adds `count` messages to a merge session.
pub open spec fn merge_insert_sql_spec(count: nat) -> Seq<char>
    decreases count,
{
    if count == 0 {
        "INSERT INTO merge (peer_id, message_id) VALUES "@
    } else if count == 1 {
        merge_insert_sql_spec(0) + "(?, ?)"@
    } else {
        merge_insert_sql_spec((count - 1) as nat) + ", (?, ?)"@
    }
}

/// Builds the statement that adds `count` messages to a merge session: one
/// `(?, ?)` per message, separated by `, `.
pub fn merge_insert_sql(count: usize) -> (res: String)
    ensures
        res@ == merge_insert_sql_spec(count as nat),
{
    let mut res = String::new();
    push_str(&mut res, "INSERT INTO merge (peer_id, message_id) VALUES ");
    let mut i: usize = 0;
    while i < count
        invariant
            i <= count,
            res@ == merge_insert_sql_spec(i as nat),
        decreases count - i,
    {
        if i == 0 {
            push_str(&mut res, "(?, ?)");
        } else {
            push_str(&mut res, ", (?, ?)");
        }
        i = i + 1;
    }
    res
}

/// The values bound to that statement: the chat, then a message, for each
/// message in order.
pub fn merge_insert_params(peer_id: i64, message_ids: &[i32]) -> (res: Vec<i64>)
    ensures
        res@.len() == 2 * message_ids@.len(),
        forall|k: int|
            0 <= k < message_ids@.len() ==> #[trigger] res@[2 * k] == peer_id && res@[2 * k + 1]
                == message_ids@[k] as i64,
{
    let mut res: Vec<i64> = Vec::new();
    let mut i: usize = 0;
    while i < message_ids.len()
        invariant
            i <= message_ids@.len(),
            res@.len() == 2 * i,
            forall|k: int|
                0 <= k < i ==> #[trigger] res@[2 * k] == peer_id && res@[2 * k + 1]
                    == message_ids@[k] as i64,
        decreases message_ids@.len() - i,
    {
        let ghost before = res@;
        res.push(peer_id);
        res.push(message_ids[i] as i64);
        assert(forall|j: int| 0 <= j < before.len() ==> res@[j] == before[j]);
        assert(res@[2 * i] == peer_id && res@[2 * i + 1] == message_ids@[i as int] as i64);
        i = i + 1;
        assert forall|k: int| 0 <= k < i implies #[trigger] res@[2 * k] == peer_id && res@[2 * k
            + 1] == message_ids@[k] as i64 by {
            if k < i - 1 {
                assert(res@[2 * k] == before[2 * k]);
                assert(res@[2 * k + 1] == before[2 * k + 1]);
            }
        }
    }
    res
}

/// Seconds between the checks for saving the session state.
pub const SYNC_INTERVAL_SECS: u64 = 60;

/// Longest time, in seconds, that unsaved changes wait for handlers to
/// finish before the session state is saved anyway.
pub const MAX_SYNC_INTERVAL_SECS: u64 = 600;

/// Whether the session state is saved at a check: only when something
/// changed, and then when no handler is running or the last save is more
/// than `MAX_SYNC_INTERVAL_SECS` ago (`since_save_ns` nanoseconds).
pub fn sync_due(dirty: bool, handlers_idle: bool, since_save_ns: u128) -> (res: bool)
    ensures
        res == (dirty && (handlers_idle || since_save_ns > MAX_SYNC_INTERVAL_SECS * 1_000_000_000)),
{
    dirty && (handlers_idle || since_save_ns > (MAX_SYNC_INTERVAL_SECS as u128) * 1_000_000_000)
}

/// The media of a message, as far as caching goes.
pub enum MessageMedia {
    /// A photo.
    Photo,
    /// A document, with its attributes (`None` for an empty document).
    Document(Option<Vec<DocumentAttribute>>),
    /// Anything else.
    Other,
}

/// The kind a message's media is cached as: photos as photos, documents by
/// their attributes (see `parse_media_type`), nothing for other media.
pub fn stored_media_type(m: &MessageMedia) -> (res: Option<MediaType>)
    ensures
        match *m {
            MessageMedia::Photo => res == Some(MediaType::Photo),
            MessageMedia::Document(None) => res is None,
            MessageMedia::Document(Some(a)) => res == Some(document_kind(a@)),
            MessageMedia::Other => res is None,
        },
{
    match m {
        MessageMedia::Photo => Some(MediaType::Photo),
        MessageMedia::Document(attrs) => match attrs {
            Some(a) => parse_media_type(Some(a)),
            None => None,
        },
        MessageMedia::Other => None,
    }
}

/// The key a cached media keeps when it is stored again: the new key when
/// one is given, else the key it had.
pub fn upsert_key(new_key: Option<String>, old_key: Option<String>) -> (res: Option<String>)
    ensures
        new_key is Some ==> res == new_key,
        new_key is None ==> res == old_key,
{
    match new_key {
        Some(k) => Some(k),
        None => old_key,
    }
}

} // verus!
