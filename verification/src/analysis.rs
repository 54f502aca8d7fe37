//! Turning yt-dlp's JSON description of a link into what the UI shows: one
//! video with its available heights, or a playlist with its entries.
//! Durations are floating-point and are carried by the caller beside these
//! values (an entry's `index` is its 1-based position in the raw list).
use vstd::prelude::*;
use vstd::string::*;
use crate::spec::copy_opt;
use crate::text::{chars_eq_str, concat, to_chars};

verus! {

broadcast use vstd::string::group_string_axioms;

/// A thumbnail as yt-dlp lists it.
#[derive(Clone, Debug)]
pub struct RawThumbnail {
    pub url: Option<String>,
    pub preference: Option<i64>,
}

/// A format as yt-dlp lists it.
#[derive(Clone, Debug)]
pub struct RawFormat {
    pub height: Option<u32>,
    pub vcodec: Option<String>,
    pub acodec: Option<String>,
}

/// A playlist entry as yt-dlp lists it (flat).
#[derive(Clone, Debug)]
pub struct RawEntry {
    pub id: Option<String>,
    pub title: Option<String>,
    pub thumbnail: Option<String>,
    pub thumbnails: Option<Vec<RawThumbnail>>,
    pub uploader: Option<String>,
    pub channel: Option<String>,
    pub url: Option<String>,
    pub webpage_url: Option<String>,
}

/// yt-dlp's description of a link.
#[derive(Clone, Debug)]
pub struct RawInfo {
    pub id: Option<String>,
    pub title: Option<String>,
    pub uploader: Option<String>,
    pub channel: Option<String>,
    pub thumbnail: Option<String>,
    pub thumbnails: Option<Vec<RawThumbnail>>,
    pub webpage_url: Option<String>,
    pub original_url: Option<String>,
    /// yt-dlp's `_type`.
    pub kind: Option<String>,
    pub entries: Option<Vec<RawEntry>>,
    pub formats: Option<Vec<RawFormat>>,
    pub is_live: Option<bool>,
    pub was_live: Option<bool>,
}

/// One video.
#[derive(Clone, Debug)]
pub struct VideoInfo {
    pub id: String,
    pub title: String,
    pub uploader: Option<String>,
    pub thumbnail: Option<String>,
    pub webpage_url: String,
    pub available_heights: Vec<u32>,
    pub has_audio_only: bool,
    pub is_live: bool,
}

/// One entry of a playlist.
#[derive(Clone, Debug)]
pub struct PlaylistEntry {
    pub id: String,
    pub title: String,
    pub thumbnail: Option<String>,
    /// 1-based position in yt-dlp's list, entries without an id included.
    pub index: u32,
    pub uploader: Option<String>,
    pub webpage_url: String,
}

/// A playlist.
#[derive(Clone, Debug)]
pub struct PlaylistInfo {
    pub id: String,
    pub title: String,
    pub uploader: Option<String>,
    pub thumbnail: Option<String>,
    pub webpage_url: String,
    pub entries: Vec<PlaylistEntry>,
}

/// What a link turned out to be.
#[derive(Clone, Debug)]
pub enum Analysis {
    Video(VideoInfo),
    Playlist(PlaylistInfo),
}

// --------------------------------------------------------------- thumbnails

/// A thumbnail's preference; unranked ones rank lowest.
pub open spec fn preference_of(t: RawThumbnail) -> int {
    match t.preference {
        Some(p) => p as int,
        None => i64::MIN as int,
    }
}

/// Position of the preferred thumbnail among the first `n`: the highest
/// preference, the later one on ties (as `max_by_key` picks).
pub open spec fn preferred_index(list: Seq<RawThumbnail>, n: int) -> int
    decreases n,
{
    if n <= 1 {
        0
    } else {
        let b = preferred_index(list, n - 1);
        if preference_of(list[n - 1]) >= preference_of(list[b]) {
            n - 1
        } else {
            b
        }
    }
}

proof fn lemma_preferred_index_range(list: Seq<RawThumbnail>, n: int)
    requires
        n >= 1,
    ensures
        0 <= preferred_index(list, n) < n,
    decreases n,
{
    if n > 1 {
        lemma_preferred_index_range(list, n - 1);
    }
}

/// The thumbnail shown: the direct one if given; else the preferred listed
/// one's URL, falling back to the last listed one's.
pub open spec fn spec_best_thumbnail(direct: Option<String>, list: Option<Vec<RawThumbnail>>) -> Option<Seq<char>> {
    match direct {
        Some(u) => Some(u@),
        None => match list {
            None => None,
            Some(l) => if l@.len() == 0 {
                None
            } else {
                match l@[preferred_index(l@, l@.len() as int)].url {
                    Some(u) => Some(u@),
                    None => l@.last().url.deep_view(),
                }
            },
        },
    }
}

/// Picks the thumbnail to show.
pub fn best_thumbnail(direct: &Option<String>, list: &Option<Vec<RawThumbnail>>) -> (r: Option<String>)
    ensures
        r.deep_view() == spec_best_thumbnail(*direct, *list),
{
    if let Some(u) = direct {
        return Some(u.clone());
    }
    let thumbs = match list {
        Some(l) => l,
        None => return None,
    };
    let n = thumbs.len();
    if n == 0 {
        return None;
    }
    let mut best: usize = 0;
    let mut i: usize = 1;
    while i < n
        invariant
            1 <= i <= n == thumbs@.len(),
            best == preferred_index(thumbs@, i as int),
            best < i,
        decreases n - i,
    {
        let pi: i64 = match thumbs[i].preference {
            Some(p) => p,
            None => i64::MIN,
        };
        let pb: i64 = match thumbs[best].preference {
            Some(p) => p,
            None => i64::MIN,
        };
        if pi >= pb {
            best = i;
        }
        i += 1;
    }
    match &thumbs[best].url {
        Some(u) => Some(u.clone()),
        None => copy_opt(&thumbs[n - 1].url),
    }
}

// ------------------------------------------------------------------ formats

/// `h` is the height of one of the formats.
pub open spec fn is_format_height(fs: Seq<RawFormat>, h: u32) -> bool {
    exists|i: int| 0 <= i < fs.len() && #[trigger] fs[i].height == Some(h)
}

/// Strictly decreasing.
pub open spec fn strictly_decreasing(s: Seq<u32>) -> bool {
    forall|i: int, j: int| 0 <= i < j < s.len() ==> s[i] > s[j]
}

fn insert_height(r: &mut Vec<u32>, h: u32)
    requires
        strictly_decreasing(old(r)@),
    ensures
        strictly_decreasing(final(r)@),
        forall|x: u32| final(r)@.contains(x) <==> (old(r)@.contains(x) || x == h),
{
    let ghost before = r@;
    let mut p: usize = 0;
    while p < r.len() && r[p] > h
        invariant
            p <= r@.len(),
            r@ == before,
            forall|q: int| 0 <= q < p ==> r@[q] > h,
        decreases r.len() - p,
    {
        p += 1;
    }
    if p < r.len() && r[p] == h {
        assert(r@[p as int] == h);
        assert forall|x: u32| r@.contains(x) <==> (before.contains(x) || x == h) by {
            if x == h {
                assert(r@[p as int] == x);
            }
        }
        return;
    }
    r.insert(p, h);
    assert forall|a: int, b: int| 0 <= a < b < r@.len() implies r@[a] > r@[b] by {
        if b < p {
        } else if a < p && b == p {
        } else if a < p {
            assert(r@[b] == before[b - 1]);
        } else if a == p {
            assert(r@[b] == before[b - 1]);
            assert(before[p as int] < h);
            if b - 1 > p {
                assert(before[p as int] > before[b - 1]);
            }
        } else {
            assert(r@[a] == before[a - 1] && r@[b] == before[b - 1]);
        }
    }
    assert forall|x: u32| r@.contains(x) <==> (before.contains(x) || x == h) by {
        if r@.contains(x) {
            let k = choose|k: int| 0 <= k < r@.len() && r@[k] == x;
            if k < p {
                assert(before[k] == x);
            } else if k > p {
                assert(before[k - 1] == x);
            }
        }
        if before.contains(x) {
            let k = choose|k: int| 0 <= k < before.len() && before[k] == x;
            if k < p {
                assert(r@[k] == x);
            } else {
                assert(r@[k + 1] == x);
            }
        }
        if x == h {
            assert(r@[p as int] == h);
        }
    }
}

/// The distinct format heights, highest first.
pub fn available_heights(fs: &Vec<RawFormat>) -> (r: Vec<u32>)
    ensures
        strictly_decreasing(r@),
        forall|h: u32| r@.contains(h) <==> is_format_height(fs@, h),
{
    let mut r: Vec<u32> = Vec::new();
    let mut i: usize = 0;
    while i < fs.len()
        invariant
            i <= fs@.len(),
            strictly_decreasing(r@),
            forall|h: u32| r@.contains(h) <==> is_format_height(fs@.take(i as int), h),
        decreases fs.len() - i,
    {
        let ghost before = r@;
        assert forall|h: u32| #[trigger] is_format_height(fs@.take(i + 1), h) <==> (is_format_height(
            fs@.take(i as int),
            h,
        ) || fs@[i as int].height == Some(h)) by {
            if is_format_height(fs@.take(i + 1), h) {
                let k = choose|k: int| 0 <= k < i + 1 && #[trigger] fs@.take(i + 1)[k].height == Some(h);
                if k < i {
                    assert(fs@.take(i as int)[k] == fs@.take(i + 1)[k]);
                }
            }
            if is_format_height(fs@.take(i as int), h) {
                let k = choose|k: int| 0 <= k < i && #[trigger] fs@.take(i as int)[k].height == Some(h);
                assert(fs@.take(i + 1)[k] == fs@.take(i as int)[k]);
            }
            if fs@[i as int].height == Some(h) {
                assert(fs@.take(i + 1)[i as int] == fs@[i as int]);
            }
        }
        match fs[i].height {
            Some(h) => {
                insert_height(&mut r, h);
            },
            None => {},
        }
        assert forall|x: u32| r@.contains(x) <==> is_format_height(fs@.take(i + 1), x) by {
            assert(before.contains(x) <==> is_format_height(fs@.take(i as int), x));
        }
        i += 1;
    }
    assert(fs@.take(fs@.len() as int) =~= fs@);
    r
}

/// Some format carries audio only: no video codec and a real audio codec.
pub open spec fn is_audio_only(f: RawFormat) -> bool {
    f.vcodec.deep_view() == Some("none"@) && match f.acodec {
        Some(a) => a@ != "none"@,
        None => false,
    }
}

/// Whether any format is audio-only.
pub fn has_audio_only_format(fs: &Vec<RawFormat>) -> (r: bool)
    ensures
        r == exists|i: int| 0 <= i < fs@.len() && is_audio_only(#[trigger] fs@[i]),
{
    let mut i: usize = 0;
    while i < fs.len()
        invariant
            i <= fs@.len(),
            forall|j: int| 0 <= j < i ==> !is_audio_only(#[trigger] fs@[j]),
        decreases fs.len() - i,
    {
        let v_none = match &fs[i].vcodec {
            Some(v) => chars_eq_str(&to_chars(v.as_str()), "none"),
            None => false,
        };
        let a_real = match &fs[i].acodec {
            Some(a) => !chars_eq_str(&to_chars(a.as_str()), "none"),
            None => false,
        };
        if v_none && a_real {
            assert(is_audio_only(fs@[i as int]));
            return true;
        }
        i += 1;
    }
    false
}

// ------------------------------------------------------------------ fields

/// The first value that is present.
pub open spec fn either(a: Option<String>, b: Option<String>) -> Option<Seq<char>> {
    match a {
        Some(x) => Some(x@),
        None => b.deep_view(),
    }
}

/// The value, or `fallback` when absent.
pub open spec fn or_text(a: Option<String>, fallback: Seq<char>) -> Seq<char> {
    match a {
        Some(x) => x@,
        None => fallback,
    }
}

fn either_of(a: &Option<String>, b: &Option<String>) -> (r: Option<String>)
    ensures
        r.deep_view() == either(*a, *b),
{
    match a {
        Some(x) => Some(x.clone()),
        None => copy_opt(b),
    }
}

fn or_text_of(a: &Option<String>, fallback: &str) -> (r: String)
    ensures
        r@ == or_text(*a, fallback@),
{
    match a {
        Some(x) => x.clone(),
        None => String::from_str(fallback),
    }
}

/// yt-dlp described a playlist.
pub open spec fn is_playlist(raw: RawInfo) -> bool {
    raw.kind.deep_view() == Some("playlist"@) || raw.entries is Some
}

/// The page URL shown: yt-dlp's page URL, its original URL, or the link asked about.
pub open spec fn page_url(raw: RawInfo, url: Seq<char>) -> Seq<char> {
    match raw.webpage_url {
        Some(w) => w@,
        None => or_text(raw.original_url, url),
    }
}

/// Positions of the raw entries that have an id, among the first `n`.
pub open spec fn kept_entries(es: Seq<RawEntry>, n: int) -> Seq<int>
    decreases n,
{
    if n <= 0 {
        seq![]
    } else if es[n - 1].id is Some {
        kept_entries(es, n - 1).push(n - 1)
    } else {
        kept_entries(es, n - 1)
    }
}

/// `p` is the entry shown for raw entry `e` at position `i`.
pub open spec fn entry_from(p: PlaylistEntry, e: RawEntry, i: int) -> bool {
    &&& e.id matches Some(id) && p.id@ == id@
    &&& p.title@ == or_text(e.title, "Без названия"@)
    &&& p.thumbnail.deep_view() == spec_best_thumbnail(e.thumbnail, e.thumbnails)
    &&& p.uploader.deep_view() == either(e.uploader, e.channel)
    &&& p.index == i + 1
    &&& p.webpage_url@ == (match e.webpage_url {
        Some(w) => w@,
        None => or_text(e.url, "https://www.youtube.com/watch?v="@ + p.id@),
    })
}

/// The formats yt-dlp listed (none when it listed none).
pub open spec fn formats_of(raw: RawInfo) -> Seq<RawFormat> {
    match raw.formats {
        Some(f) => f@,
        None => seq![],
    }
}

/// `v` is the video shown for `raw` probed at `url`.
pub open spec fn video_from(v: VideoInfo, raw: RawInfo, url: Seq<char>) -> bool {
    let fs = formats_of(raw);
    &&& v.id@ == or_text(raw.id, seq![])
    &&& v.title@ == or_text(raw.title, "Без названия"@)
    &&& v.uploader.deep_view() == either(raw.uploader, raw.channel)
    &&& v.thumbnail.deep_view() == spec_best_thumbnail(raw.thumbnail, raw.thumbnails)
    &&& v.webpage_url@ == page_url(raw, url)
    &&& strictly_decreasing(v.available_heights@)
    &&& (forall|h: u32| v.available_heights@.contains(h) <==> is_format_height(fs, h))
    &&& v.has_audio_only == exists|i: int| 0 <= i < fs.len() && is_audio_only(#[trigger] fs[i])
    &&& v.is_live == (raw.is_live == Some(true) || raw.was_live == Some(true))
}

/// `p` is the playlist shown for `raw` probed at `url`: its entries are the raw
/// entries that have an id, in order.
pub open spec fn playlist_from(p: PlaylistInfo, raw: RawInfo, url: Seq<char>) -> bool {
    let es: Seq<RawEntry> = match raw.entries {
        Some(e) => e@,
        None => seq![],
    };
    let kept = kept_entries(es, es.len() as int);
    &&& p.id@ == or_text(raw.id, seq![])
    &&& p.title@ == or_text(raw.title, "Плейлист"@)
    &&& p.uploader.deep_view() == either(raw.uploader, raw.channel)
    &&& p.thumbnail.deep_view() == spec_best_thumbnail(raw.thumbnail, raw.thumbnails)
    &&& p.webpage_url@ == page_url(raw, url)
    &&& p.entries@.len() == kept.len()
    &&& forall|k: int| 0 <= k < kept.len() ==> entry_from(#[trigger] p.entries@[k], es[kept[k]], kept[k])
}

fn entry_of(e: &RawEntry, i: usize) -> (r: Option<PlaylistEntry>)
    requires
        i < u32::MAX,
    ensures
        e.id is None ==> r is None,
        e.id is Some ==> (r matches Some(p) && entry_from(p, *e, i as int)),
{
    let id = match &e.id {
        Some(id) => id.clone(),
        None => return None,
    };
    let webpage_url = match &e.webpage_url {
        Some(w) => w.clone(),
        None => match &e.url {
            Some(u) => u.clone(),
            None => concat("https://www.youtube.com/watch?v=", id.as_str()),
        },
    };
    Some(PlaylistEntry {
        title: or_text_of(&e.title, "Без названия"),
        thumbnail: best_thumbnail(&e.thumbnail, &e.thumbnails),
        index: i as u32 + 1,
        uploader: either_of(&e.uploader, &e.channel),
        webpage_url,
        id,
    })
}

fn playlist_entries(es: &Vec<RawEntry>) -> (r: Vec<PlaylistEntry>)
    requires
        es@.len() <= u32::MAX,
    ensures
        r@.len() == kept_entries(es@, es@.len() as int).len(),
        forall|k: int|
            0 <= k < r@.len() ==> entry_from(
                #[trigger] r@[k],
                es@[kept_entries(es@, es@.len() as int)[k]],
                kept_entries(es@, es@.len() as int)[k],
            ),
{
    let mut r: Vec<PlaylistEntry> = Vec::new();
    let mut i: usize = 0;
    while i < es.len()
        invariant
            i <= es@.len() <= u32::MAX,
            r@.len() == kept_entries(es@, i as int).len(),
            forall|k: int|
                0 <= k < r@.len() ==> entry_from(
                    #[trigger] r@[k],
                    es@[kept_entries(es@, i as int)[k]],
                    kept_entries(es@, i as int)[k],
                ),
        decreases es.len() - i,
    {
        let ghost before = r@;
        match entry_of(&es[i], i) {
            Some(p) => {
                r.push(p);
                assert forall|k: int| 0 <= k < r@.len() implies entry_from(
                    #[trigger] r@[k],
                    es@[kept_entries(es@, i + 1)[k]],
                    kept_entries(es@, i + 1)[k],
                ) by {
                    if k < before.len() {
                        assert(r@[k] == before[k]);
                    }
                }
            },
            None => {},
        }
        i += 1;
    }
    r
}

fn text_or_empty(a: &Option<String>) -> (r: String)
    ensures
        r@ == or_text(*a, seq![]),
{
    match a {
        Some(x) => x.clone(),
        None => String::new(),
    }
}

fn page_url_of(raw: &RawInfo, url: &str) -> (r: String)
    ensures
        r@ == page_url(*raw, url@),
{
    match &raw.webpage_url {
        Some(w) => w.clone(),
        None => or_text_of(&raw.original_url, url),
    }
}

fn video_info(raw: &RawInfo, url: &str) -> (v: VideoInfo)
    ensures
        video_from(v, *raw, url@),
{
    let empty: Vec<RawFormat> = Vec::new();
    let fs = match &raw.formats {
        Some(fs) => fs,
        None => &empty,
    };
    assert(fs@ == formats_of(*raw));
    let available_heights = available_heights(fs);
    let has_audio_only = has_audio_only_format(fs);
    let is_live = match raw.is_live {
        Some(true) => true,
        _ => match raw.was_live {
            Some(true) => true,
            _ => false,
        },
    };
    VideoInfo {
        id: text_or_empty(&raw.id),
        title: or_text_of(&raw.title, "Без названия"),
        uploader: either_of(&raw.uploader, &raw.channel),
        thumbnail: best_thumbnail(&raw.thumbnail, &raw.thumbnails),
        webpage_url: page_url_of(raw, url),
        available_heights,
        has_audio_only,
        is_live,
    }
}

fn playlist_info(raw: &RawInfo, url: &str) -> (p: PlaylistInfo)
    requires
        raw.entries matches Some(e) ==> e@.len() <= u32::MAX,
    ensures
        playlist_from(p, *raw, url@),
{
    let entries = match &raw.entries {
        Some(es) => playlist_entries(es),
        None => {
            let v: Vec<PlaylistEntry> = Vec::new();
            v
        },
    };
    PlaylistInfo {
        id: text_or_empty(&raw.id),
        title: or_text_of(&raw.title, "Плейлист"),
        uploader: either_of(&raw.uploader, &raw.channel),
        thumbnail: best_thumbnail(&raw.thumbnail, &raw.thumbnails),
        webpage_url: page_url_of(raw, url),
        entries,
    }
}

/// Law: a single video is marked live whenever yt-dlp reports it as live now
/// or as formerly live, and a video with neither report is not marked live.
pub proof fn law_live_streams_are_marked(v: VideoInfo, raw: RawInfo, url: Seq<char>)
    requires
        video_from(v, raw, url),
    ensures
        raw.is_live == Some(true) ==> v.is_live,
        raw.was_live == Some(true) ==> v.is_live,
        raw.is_live != Some(true) && raw.was_live != Some(true) ==> !v.is_live,
{
}

/// What a link's description shows: a playlist when yt-dlp says so or lists
/// entries, otherwise a single video.
pub fn analysis_from_raw(raw: &RawInfo, url: &str) -> (r: Analysis)
    requires
        raw.entries matches Some(e) ==> e@.len() <= u32::MAX,
    ensures
        is_playlist(*raw) ==> (r matches Analysis::Playlist(p) && playlist_from(p, *raw, url@)),
        !is_playlist(*raw) ==> (r matches Analysis::Video(v) && video_from(v, *raw, url@)),
{
    let typed_playlist = match &raw.kind {
        Some(k) => chars_eq_str(&to_chars(k.as_str()), "playlist"),
        None => false,
    };
    if typed_playlist || raw.entries.is_some() {
        Analysis::Playlist(playlist_info(raw, url))
    } else {
        Analysis::Video(video_info(raw, url))
    }
}

} // verus!
