//! Choosing and naming the streams of a video: which video and audio track
//! to download, how to label them and which files they go to.
use vstd::prelude::*;

use crate::text::{dec, dec_signed, i64_to_string, push_char, push_str, str_eq, u64_to_string};

verus! {

/// A stream of a DASH manifest.
pub struct DashMedia {
    /// Quality id.
    pub id: i32,
    /// Bandwidth, used as the size estimate.
    pub bandwidth: u32,
    /// Main URL.
    pub base_url: String,
    /// Mirror URLs.
    pub backup_url: Vec<String>,
    /// MIME type of the stream.
    pub mime_type: String,
    /// Codec description.
    pub codecs: String,
    /// Codec id.
    pub codecid: i32,
}

/// A single-file stream of a legacy manifest.
pub struct Durl {
    /// Main URL.
    pub url: String,
    /// Mirror URLs.
    pub backup_url: Vec<String>,
    /// Size in bytes.
    pub size: u32,
}

/// A video stream that can be downloaded.
pub struct Video {
    /// Quality id.
    pub id: i32,
    /// Size estimate.
    pub size: u32,
    /// URLs to try, in order.
    pub urls: Vec<String>,
    /// Codec description.
    pub codecs: Option<String>,
    /// Codec id.
    pub codecid: Option<i32>,
}

/// An audio stream that can be downloaded.
pub struct Audio {
    /// Quality id.
    pub id: i32,
    /// Size estimate.
    pub size: u32,
    /// URLs to try, in order.
    pub urls: Vec<String>,
}

/// The main URL followed by the mirrors.
pub open spec fn urls_of(base: Seq<char>, backup: Seq<String>) -> Seq<Seq<char>> {
    seq![base] + backup.map_values(|u: String| u@)
}

/// The characters of a list of strings.
pub open spec fn strings_view(v: Seq<String>) -> Seq<Seq<char>> {
    v.map_values(|u: String| u@)
}

/// A stream's URL list is its main URL followed by every mirror, in order.
pub proof fn urls_of_law(base: Seq<char>, backup: Seq<String>)
    ensures
        urls_of(base, backup).len() == 1 + backup.len(),
        urls_of(base, backup)[0] == base,
        forall|k: int| 0 <= k < backup.len() ==> #[trigger] urls_of(base, backup)[k + 1] == backup[k]@,
{
}

/// The URLs of a video made from a DASH stream are the stream's main URL
/// followed by all of its mirrors, in order; likewise for an audio track.
pub proof fn stream_urls_law(m: DashMedia, v: Video, a: Audio)
    ensures
        video_of(m, v) ==> {
            &&& v.urls@.len() == 1 + m.backup_url@.len()
            &&& v.urls@[0]@ == m.base_url@
            &&& forall|k: int| 0 <= k < m.backup_url@.len() ==> #[trigger] v.urls@[k + 1]@ == m.backup_url@[k]@
        },
        audio_of(m, a) ==> {
            &&& a.urls@.len() == 1 + m.backup_url@.len()
            &&& a.urls@[0]@ == m.base_url@
            &&& forall|k: int| 0 <= k < m.backup_url@.len() ==> #[trigger] a.urls@[k + 1]@ == m.backup_url@[k]@
        },
{
    urls_of_law(m.base_url@, m.backup_url@);
    if video_of(m, v) {
        assert(strings_view(v.urls@).len() == v.urls@.len());
        assert forall|k: int| 0 <= k < m.backup_url@.len() implies #[trigger] v.urls@[k + 1]@
            == m.backup_url@[k]@ by {
            assert(strings_view(v.urls@)[k + 1] == v.urls@[k + 1]@);
        }
        assert(strings_view(v.urls@)[0] == v.urls@[0]@);
    }
    if audio_of(m, a) {
        assert(strings_view(a.urls@).len() == a.urls@.len());
        assert forall|k: int| 0 <= k < m.backup_url@.len() implies #[trigger] a.urls@[k + 1]@
            == m.backup_url@[k]@ by {
            assert(strings_view(a.urls@)[k + 1] == a.urls@[k + 1]@);
        }
        assert(strings_view(a.urls@)[0] == a.urls@[0]@);
    }
}

fn urls_from(base: &String, backup: &Vec<String>) -> (res: Vec<String>)
    ensures
        strings_view(res@) == urls_of(base@, backup@),
        res@.len() == 1 + backup@.len(),
        res@[0]@ == base@,
        forall|k: int| 0 <= k < backup@.len() ==> #[trigger] res@[k + 1]@ == backup@[k]@,
{
    let mut urls: Vec<String> = Vec::new();
    urls.push(base.clone());
    let mut i: usize = 0;
    while i < backup.len()
        invariant
            i <= backup@.len(),
            strings_view(urls@) =~= seq![base@] + strings_view(backup@.take(i as int)),
        decreases backup@.len() - i,
    {
        let ghost before = strings_view(urls@);
        let u = backup[i].clone();
        urls.push(u);
        assert(strings_view(urls@) =~= before.push(backup@[i as int]@));
        assert(strings_view(backup@.take(i + 1)) =~= strings_view(backup@.take(i as int)).push(
            backup@[i as int]@,
        ));
        i = i + 1;
    }
    assert(backup@.take(backup@.len() as int) =~= backup@);
    proof {
        urls_of_law(base@, backup@);
        assert(strings_view(urls@).len() == urls@.len());
        assert(strings_view(urls@)[0] == urls@[0]@);
        assert forall|k: int| 0 <= k < backup@.len() implies #[trigger] urls@[k + 1]@ == backup@[k]@ by {
            assert(strings_view(urls@)[k + 1] == urls@[k + 1]@);
        }
    }
    urls
}

/// The video streams of a DASH manifest: those of type `video/mp4`, in order.
pub open spec fn mp4_videos_spec(media: Seq<DashMedia>) -> Seq<DashMedia>
    decreases media.len(),
{
    if media.len() == 0 {
        media
    } else if media.last().mime_type@ == "video/mp4"@ {
        mp4_videos_spec(media.drop_last()).push(media.last())
    } else {
        mp4_videos_spec(media.drop_last())
    }
}

/// The audio streams of a DASH manifest: those of type `audio/mp4`, in order.
pub open spec fn mp4_audios_spec(media: Seq<DashMedia>) -> Seq<DashMedia>
    decreases media.len(),
{
    if media.len() == 0 {
        media
    } else if media.last().mime_type@ == "audio/mp4"@ {
        mp4_audios_spec(media.drop_last()).push(media.last())
    } else {
        mp4_audios_spec(media.drop_last())
    }
}

/// A downloadable video made from a DASH stream.
pub open spec fn video_of(m: DashMedia, v: Video) -> bool {
    &&& v.id == m.id
    &&& v.size == m.bandwidth
    &&& strings_view(v.urls@) == urls_of(m.base_url@, m.backup_url@)
    &&& v.codecs matches Some(c) && c@ == m.codecs@
    &&& v.codecid == Some(m.codecid)
}

/// A downloadable audio track made from a DASH stream.
pub open spec fn audio_of(m: DashMedia, a: Audio) -> bool {
    &&& a.id == m.id
    &&& a.size == m.bandwidth
    &&& strings_view(a.urls@) == urls_of(m.base_url@, m.backup_url@)
}

/// The `video/mp4` streams of a manifest as downloadable videos.
pub fn dash_videos(media: &Vec<DashMedia>) -> (res: Vec<Video>)
    ensures
        res@.len() == mp4_videos_spec(media@).len(),
        forall|i: int| 0 <= i < res@.len() ==> video_of(mp4_videos_spec(media@)[i], #[trigger] res@[i]),
{
    let mut res: Vec<Video> = Vec::new();
    let mut i: usize = 0;
    while i < media.len()
        invariant
            i <= media@.len(),
            res@.len() == mp4_videos_spec(media@.take(i as int)).len(),
            forall|k: int|
                0 <= k < res@.len() ==> video_of(mp4_videos_spec(media@.take(i as int))[k], #[trigger] res@[k]),
        decreases media@.len() - i,
    {
        let m = &media[i];
        let ghost prev = mp4_videos_spec(media@.take(i as int));
        assert(media@.take(i + 1).drop_last() =~= media@.take(i as int));
        proof { reveal_strlit("video/mp4"); }
        if str_eq(m.mime_type.as_str(), "video/mp4") {
            let urls = urls_from(&m.base_url, &m.backup_url);
            let v = Video {
                id: m.id,
                size: m.bandwidth,
                urls,
                codecs: Some(m.codecs.clone()),
                codecid: Some(m.codecid),
            };
            res.push(v);
            assert(mp4_videos_spec(media@.take(i + 1)) == prev.push(media@[i as int]));
        }
        i = i + 1;
    }
    assert(media@.take(media@.len() as int) =~= media@);
    res
}

/// The `audio/mp4` streams of a manifest as downloadable audio tracks.
pub fn dash_audios(media: &Vec<DashMedia>) -> (res: Vec<Audio>)
    ensures
        res@.len() == mp4_audios_spec(media@).len(),
        forall|i: int| 0 <= i < res@.len() ==> audio_of(mp4_audios_spec(media@)[i], #[trigger] res@[i]),
{
    let mut res: Vec<Audio> = Vec::new();
    let mut i: usize = 0;
    while i < media.len()
        invariant
            i <= media@.len(),
            res@.len() == mp4_audios_spec(media@.take(i as int)).len(),
            forall|k: int|
                0 <= k < res@.len() ==> audio_of(mp4_audios_spec(media@.take(i as int))[k], #[trigger] res@[k]),
        decreases media@.len() - i,
    {
        let m = &media[i];
        let ghost prev = mp4_audios_spec(media@.take(i as int));
        assert(media@.take(i + 1).drop_last() =~= media@.take(i as int));
        proof { reveal_strlit("audio/mp4"); }
        if str_eq(m.mime_type.as_str(), "audio/mp4") {
            let urls = urls_from(&m.base_url, &m.backup_url);
            res.push(Audio { id: m.id, size: m.bandwidth, urls });
            assert(mp4_audios_spec(media@.take(i + 1)) == prev.push(media@[i as int]));
        }
        i = i + 1;
    }
    assert(media@.take(media@.len() as int) =~= media@);
    res
}

/// The video of a legacy manifest: its first stream, labelled with the
/// reply's quality.
pub fn durl_video(durl: &Vec<Durl>, quality: i32) -> (res: Video)
    requires
        durl@.len() > 0,
    ensures
        res.id == quality,
        res.size == durl@[0].size,
        strings_view(res.urls@) == urls_of(durl@[0].url@, durl@[0].backup_url@),
        res.codecs is None,
        res.codecid is None,
{
    let d = &durl[0];
    let urls = urls_from(&d.url, &d.backup_url);
    Video { id: quality, size: d.size, urls, codecs: None, codecid: None }
}

/// `a < b` for optional codec ids, `None` first.
pub open spec fn codec_lt(a: Option<i32>, b: Option<i32>) -> bool {
    match (a, b) {
        (None, Some(_)) => true,
        (Some(x), Some(y)) => x < y,
        _ => false,
    }
}

/// Video `a` ranks above `b`: a higher quality id, or the same id with a
/// lower codec id.
pub open spec fn video_above(a: Video, b: Video) -> bool {
    a.id > b.id || (a.id == b.id && codec_lt(a.codecid, b.codecid))
}

/// The index that `max_by` picks among the first `n` videos: a later video
/// replaces the current pick unless the pick ranks above it.
pub open spec fn pick_video(vs: Seq<Video>, n: int) -> int
    decreases n,
{
    if n <= 1 {
        0
    } else {
        let k = pick_video(vs, n - 1);
        if video_above(vs[k], vs[n - 1]) {
            k
        } else {
            n - 1
        }
    }
}

/// The index that `max_by_key` on the quality id picks among the first `n`
/// audio tracks: the last one with the highest id.
pub open spec fn pick_audio(a: Seq<Audio>, n: int) -> int
    decreases n,
{
    if n <= 1 {
        0
    } else {
        let k = pick_audio(a, n - 1);
        if a[k].id > a[n - 1].id {
            k
        } else {
            n - 1
        }
    }
}

proof fn lemma_pick_video(vs: Seq<Video>, n: int)
    requires
        1 <= n <= vs.len(),
    ensures
        0 <= pick_video(vs, n) < n,
        forall|j: int| 0 <= j < n ==> #[trigger] vs[j].id <= vs[pick_video(vs, n)].id,
        forall|j: int|
            0 <= j < n && vs[j].id == vs[pick_video(vs, n)].id ==> !codec_lt(
                #[trigger] vs[j].codecid,
                vs[pick_video(vs, n)].codecid,
            ),
    decreases n,
{
    if n > 1 {
        lemma_pick_video(vs, n - 1);
    }
}

proof fn lemma_pick_audio(a: Seq<Audio>, n: int)
    requires
        1 <= n <= a.len(),
    ensures
        0 <= pick_audio(a, n) < n,
        forall|j: int| 0 <= j < n ==> #[trigger] a[j].id <= a[pick_audio(a, n)].id,
    decreases n,
{
    if n > 1 {
        lemma_pick_audio(a, n - 1);
    }
}

/// The video to download: the highest quality id, and among those the
/// lowest codec id (the last such one on a tie).
pub fn select_video(videos: &Vec<Video>) -> (res: usize)
    requires
        videos@.len() > 0,
    ensures
        res == pick_video(videos@, videos@.len() as int),
        res < videos@.len(),
        forall|j: int| 0 <= j < videos@.len() ==> #[trigger] videos@[j].id <= videos@[res as int].id,
        forall|j: int|
            0 <= j < videos@.len() && videos@[j].id == videos@[res as int].id ==> !codec_lt(
                #[trigger] videos@[j].codecid,
                videos@[res as int].codecid,
            ),
{
    let mut best: usize = 0;
    let mut n: usize = 1;
    while n < videos.len()
        invariant
            1 <= n <= videos@.len(),
            best < n,
            best == pick_video(videos@, n as int),
        decreases videos@.len() - n,
    {
        let a = &videos[best];
        let b = &videos[n];
        let lt = match (a.codecid, b.codecid) {
            (None, Some(_)) => true,
            (Some(x), Some(y)) => x < y,
            _ => false,
        };
        let above = a.id > b.id || (a.id == b.id && lt);
        if !above {
            best = n;
        }
        n = n + 1;
    }
    proof { lemma_pick_video(videos@, videos@.len() as int); }
    best
}

/// The audio track to download: the last one with the highest quality id;
/// `None` when there is none.
pub fn select_audio(audios: &Vec<Audio>) -> (res: Option<usize>)
    ensures
        audios@.len() == 0 <==> res is None,
        res matches Some(k) ==> k == pick_audio(audios@, audios@.len() as int) && k
            < audios@.len() && forall|j: int|
            0 <= j < audios@.len() ==> #[trigger] audios@[j].id <= audios@[k as int].id,
{
    if audios.len() == 0 {
        return None;
    }
    let mut best: usize = 0;
    let mut n: usize = 1;
    while n < audios.len()
        invariant
            1 <= n <= audios@.len(),
            best < n,
            best == pick_audio(audios@, n as int),
        decreases audios@.len() - n,
    {
        if !(audios[best].id > audios[n].id) {
            best = n;
        }
        n = n + 1;
    }
    proof { lemma_pick_audio(audios@, audios@.len() as int); }
    Some(best)
}

/// Total size of a video and its audio track.
pub fn stream_size(video_size: u32, audio_size: Option<u32>) -> (res: u64)
    ensures
        res == video_size + match audio_size {
            Some(a) => a as int,
            None => 0,
        },
{
    let mut size = video_size as u64;
    if let Some(a) = audio_size {
        size = size + a as u64;
    }
    size
}

/// The label of a quality: the description at the position of `id` among
/// the accepted qualities (the default `高清 720P` when it is missing), then
/// a space and the codec description if any.
pub open spec fn quality_label_spec(
    id: i32,
    codecs: Option<Seq<char>>,
    accept_quality: Seq<i32>,
    accept_description: Seq<Seq<char>>,
) -> Seq<char> {
    let base = match first_index(accept_quality, id) {
        Some(i) => if i < accept_description.len() {
            accept_description[i]
        } else {
            "高清 720P"@
        },
        None => "高清 720P"@,
    };
    match codecs {
        Some(c) => base + seq![' '] + c,
        None => base,
    }
}

/// Index of the first occurrence of `x`.
pub open spec fn first_index(s: Seq<i32>, x: i32) -> Option<int>
    decreases s.len(),
{
    if s.len() == 0 {
        None
    } else if s[0] == x {
        Some(0)
    } else {
        match first_index(s.drop_first(), x) {
            Some(i) => Some(i + 1),
            None => None,
        }
    }
}

proof fn lemma_first_index(s: Seq<i32>, x: i32, p: int)
    requires
        0 <= p <= s.len(),
        forall|k: int| 0 <= k < p ==> s[k] != x,
    ensures
        p < s.len() && s[p] == x ==> first_index(s, x) == Some(p),
        p == s.len() ==> first_index(s, x) is None,
    decreases p,
{
    if p > 0 {
        let t = s.drop_first();
        assert forall|k: int| 0 <= k < p - 1 implies t[k] != x by {
            assert(t[k] == s[k + 1]);
        }
        lemma_first_index(t, x, p - 1);
        if p < s.len() {
            assert(t[p - 1] == s[p]);
        }
    } else if s.len() > 0 && p < s.len() {
    }
}

/// Builds the quality label (see `quality_label_spec`).
pub fn quality_label(
    id: i32,
    codecs: Option<String>,
    accept_quality: &[i32],
    accept_description: &[String],
) -> (res: String)
    ensures
        res@ == quality_label_spec(
            id,
            match codecs {
                Some(c) => Some(c@),
                None => None,
            },
            accept_quality@,
            strings_view(accept_description@),
        ),
{
    let mut p: usize = 0;
    while p < accept_quality.len() && accept_quality[p] != id
        invariant
            p <= accept_quality@.len(),
            forall|k: int| 0 <= k < p ==> accept_quality@[k] != id,
        decreases accept_quality@.len() - p,
    {
        p = p + 1;
    }
    proof { lemma_first_index(accept_quality@, id, p as int); }
    let mut quality = String::new();
    if p < accept_quality.len() && p < accept_description.len() {
        push_str(&mut quality, accept_description[p].as_str());
    } else {
        push_str(&mut quality, "高清 720P");
    }
    if let Some(c) = codecs {
        push_char(&mut quality, ' ');
        push_str(&mut quality, c.as_str());
    }
    quality
}

/// The left margin of the stream list: five spaces on terminals at least
/// 80 columns wide, three otherwise.
pub fn margin(width: usize) -> (res: &'static str)
    ensures
        res@ == if width >= 80 { "     "@ } else { "   "@ },
{
    if width >= 80 { "     " } else { "   " }
}

/// The key of downloaded files: `{bvid}_{cid}`.
pub open spec fn file_key_spec(bvid: Seq<char>, cid: i64) -> Seq<char> {
    bvid + seq!['_'] + dec_signed(cid as int)
}

/// Computes `file_key_spec`.
pub fn file_key(bvid: &str, cid: i64) -> (res: String)
    ensures
        res@ == file_key_spec(bvid@, cid),
{
    let mut res = String::new();
    push_str(&mut res, bvid);
    push_char(&mut res, '_');
    push_str(&mut res, i64_to_string(cid).as_str());
    res
}

/// The file of the video stream: `{key}_video_{id}` with `-{codecid}` when
/// known, then `.mp4`.
pub open spec fn video_file_spec(key: Seq<char>, id: i32, codecid: Option<i32>) -> Seq<char> {
    key + "_video_"@ + dec_signed(id as int) + match codecid {
        Some(c) => seq!['-'] + dec_signed(c as int),
        None => Seq::empty(),
    } + ".mp4"@
}

/// Computes `video_file_spec`.
pub fn video_file_name(key: &str, id: i32, codecid: Option<i32>) -> (res: String)
    ensures
        res@ == video_file_spec(key@, id, codecid),
{
    let mut res = String::new();
    push_str(&mut res, key);
    push_str(&mut res, "_video_");
    push_str(&mut res, i64_to_string(id as i64).as_str());
    if let Some(c) = codecid {
        push_char(&mut res, '-');
        push_str(&mut res, i64_to_string(c as i64).as_str());
    }
    push_str(&mut res, ".mp4");
    res
}

/// The file of the audio track: `{key}_audio_{id}.mp4`.
pub fn audio_file_name(key: &str, id: i32) -> (res: String)
    ensures
        res@ == key@ + "_audio_"@ + dec_signed(id as int) + ".mp4"@,
{
    let mut res = String::new();
    push_str(&mut res, key);
    push_str(&mut res, "_audio_");
    push_str(&mut res, i64_to_string(id as i64).as_str());
    push_str(&mut res, ".mp4");
    res
}

/// The merged output file: `{key}.mp4`.
pub fn output_file_name(key: &str) -> (res: String)
    ensures
        res@ == key@ + ".mp4"@,
{
    let mut res = String::new();
    push_str(&mut res, key);
    push_str(&mut res, ".mp4");
    res
}

/// The cover picture file: `{key}_pic.jpg`.
pub fn picture_file_name(key: &str) -> (res: String)
    ensures
        res@ == key@ + "_pic.jpg"@,
{
    let mut res = String::new();
    push_str(&mut res, key);
    push_str(&mut res, "_pic.jpg");
    res
}

} // verus!
