//! The records of the wallpaper library and of its apply history, and the
//! rules that decide what the history keeps.
use crate::media;
use crate::paths;
use crate::text;
use vstd::prelude::*;

verus! {

/// A wallpaper saved in the library.
#[derive(Debug, Clone)]
pub struct Wallpaper {
    pub id: i64,
    pub title: String,
    pub file_path: String,
    pub thumbnail_path: Option<String>,
    pub tags: Vec<String>,
    pub width: i32,
    pub height: i32,
    pub fps: i32,
    pub duration_ms: i64,
    pub file_size_bytes: i64,
    pub created_at: i64,
    pub media_type: String,
    pub source: Option<String>,
    pub source_id: Option<String>,
    pub is_favorite: bool,
}

/// What an import or a download knows about a wallpaper before it is saved.
#[derive(Debug, Clone)]
pub struct WallpaperMetadata {
    pub title: String,
    pub thumbnail_path: Option<String>,
    pub tags: Vec<String>,
    pub width: i32,
    pub height: i32,
    pub fps: i32,
    pub duration_ms: i64,
    pub media_type: String,
    pub source: Option<String>,
    pub source_id: Option<String>,
}

/// A named group of library wallpapers.
#[derive(Debug, Clone)]
pub struct Collection {
    pub id: i64,
    pub name: String,
    pub created_at: i64,
    pub wallpaper_count: i64,
}

/// One wallpaper's membership in one collection.
#[derive(Debug, Clone, Copy)]
pub struct CollectionMembership {
    pub collection_id: i64,
    pub wallpaper_id: i64,
}

/// A saved search of the local library or of Wallhaven.
#[derive(Debug, Clone)]
pub struct SavedFilter {
    pub id: i64,
    pub name: String,
    pub filter_type: String,
    pub payload: String,
    pub created_at: i64,
}

/// One recorded application of a wallpaper.
#[derive(Debug, Clone)]
pub struct WallpaperHistoryEntry {
    pub id: i64,
    pub wallpaper_id: Option<i64>,
    pub title: String,
    pub file_path: String,
    pub thumbnail_path: Option<String>,
    pub media_type: String,
    pub target_monitor_id: Option<String>,
    pub apply_source: String,
    pub applied_at: i64,
}

/// A history row before it is stored.
#[derive(Debug, Clone)]
pub struct WallpaperHistoryRecord {
    pub wallpaper_id: Option<i64>,
    pub title: String,
    pub file_path: String,
    pub thumbnail_path: Option<String>,
    pub media_type: String,
    pub target_monitor_id: Option<String>,
    pub apply_source: String,
}

/// The view of an optional string.
pub open spec fn opt_view(o: Option<String>) -> Option<Seq<char>> {
    match o {
        Some(s) => Some(s@),
        None => None,
    }
}

/// The view of an optional string slice.
pub open spec fn opt_str_view(o: Option<&str>) -> Option<Seq<char>> {
    match o {
        Some(s) => Some(s@),
        None => None,
    }
}

/// A copy of an optional string.
pub fn copy_opt(o: &Option<String>) -> (r: Option<String>)
    ensures
        r == *o,
{
    match o {
        Some(s) => Some(s.clone()),
        None => None,
    }
}

/// An owned copy of an optional string slice.
pub fn owned_opt(o: Option<&str>) -> (r: Option<String>)
    ensures
        opt_view(r) == opt_str_view(o),
{
    match o {
        Some(s) => Some(text::owned(s)),
        None => None,
    }
}

/// Compares two optional strings by content.
pub fn opt_eq(a: Option<&str>, b: Option<&str>) -> (r: bool)
    ensures
        r == (opt_str_view(a) == opt_str_view(b)),
{
    match (a, b) {
        (Some(x), Some(y)) => {
            let xc = text::chars_of(x);
            let yc = text::chars_of(y);
            text::chars_eq(xc.as_slice(), yc.as_slice())
        },
        (None, None) => true,
        _ => false,
    }
}

/// The optional string as a string slice.
pub fn opt_as_str(o: &Option<String>) -> (r: Option<&str>)
    ensures
        opt_str_view(r) == opt_view(*o),
{
    match o {
        Some(s) => Some(s.as_str()),
        None => None,
    }
}

impl WallpaperHistoryEntry {
    /// A field-by-field copy.
    pub fn duplicate(&self) -> (r: Self)
        ensures
            r == *self,
    {
        WallpaperHistoryEntry {
            id: self.id,
            wallpaper_id: self.wallpaper_id,
            title: self.title.clone(),
            file_path: self.file_path.clone(),
            thumbnail_path: copy_opt(&self.thumbnail_path),
            media_type: self.media_type.clone(),
            target_monitor_id: copy_opt(&self.target_monitor_id),
            apply_source: self.apply_source.clone(),
            applied_at: self.applied_at,
        }
    }
}

/// Whether two stored history paths are the same file (an absent path matches nothing).
pub open spec fn path_matches(left: Option<Seq<char>>, right: Seq<char>) -> bool {
    match left {
        Some(l) => paths::same_path(l, right),
        None => false,
    }
}

pub fn path_matches_exec(left: Option<&str>, right: &str) -> (r: bool)
    ensures
        r == path_matches(opt_str_view(left), right@),
{
    match left {
        Some(l) => {
            let lc = text::chars_of(l);
            let rc = text::chars_of(right);
            paths::same_path_exec(lc.as_slice(), rc.as_slice())
        },
        None => false,
    }
}

/// The title recorded for a file that is not in the library: its stem when the
/// stem is not blank, else the whole path.
pub open spec fn fallback_title_of(file_path: Seq<char>) -> Seq<char> {
    match paths::file_stem(file_path) {
        Some(stem) => if text::trim_seq(stem).len() > 0 {
            stem
        } else {
            file_path
        },
        None => file_path,
    }
}

pub fn fallback_title(file_path: &str) -> (r: String)
    ensures
        r@ == fallback_title_of(file_path@),
{
    let p = text::chars_of(file_path);
    match paths::file_stem_exec(p.as_slice()) {
        Some(stem) => {
            let trimmed = text::trim(stem.as_slice());
            if trimmed.len() > 0 {
                text::string_from(stem.as_slice())
            } else {
                text::owned(file_path)
            }
        },
        None => text::owned(file_path),
    }
}

/// The media type recorded for a file that is not in the library: `image` for a
/// still-image extension, `video` otherwise.
pub open spec fn fallback_media_type_of(file_path: Seq<char>) -> Seq<char> {
    match paths::extension(file_path) {
        Some(ext) => if media::static_image_extensions().contains(text::lower_seq(ext)) {
            "image"@
        } else {
            "video"@
        },
        None => "video"@,
    }
}

pub fn fallback_media_type(file_path: &str) -> (r: String)
    ensures
        r@ == fallback_media_type_of(file_path@),
{
    let p = text::chars_of(file_path);
    match paths::extension_exec(p.as_slice()) {
        Some(ext) => {
            let lower = text::lower_vec(ext.as_slice());
            let list = media::static_image_extension_list();
            let mut i: usize = 0;
            while i < list.len()
                invariant
                    i <= list@.len(),
                    list@.len() == media::static_image_extensions().len(),
                    forall|k: int|
                        0 <= k < list@.len() ==> #[trigger] list@[k]@
                            == media::static_image_extensions()[k],
                    forall|k: int| 0 <= k < i ==> media::static_image_extensions()[k] != lower@,
                    paths::extension(file_path@) == Some(ext@),
                    lower@ == text::lower_seq(ext@),
                decreases list@.len() - i,
            {
                if text::chars_eq_str(lower.as_slice(), list[i]) {
                    assert(media::static_image_extensions()[i as int] == lower@);
                    assert(media::static_image_extensions().contains(lower@));
                    return text::owned("image");
                }
                i = i + 1;
            }
            assert(!media::static_image_extensions().contains(lower@)) by {
                if media::static_image_extensions().contains(lower@) {
                    let k = choose|k: int|
                        0 <= k < media::static_image_extensions().len()
                            && media::static_image_extensions()[k] == lower@;
                    assert(media::static_image_extensions()[k] != lower@);
                }
            }
            text::owned("video")
        },
        None => text::owned("video"),
    }
}

/// The history row for applying `file_path`: the library entry's details when
/// there is one, else a title and media type read from the path.
pub open spec fn record_matches(
    r: WallpaperHistoryRecord,
    wallpaper: Option<Wallpaper>,
    file_path: Seq<char>,
    target_monitor_id: Option<Seq<char>>,
    apply_source: Seq<char>,
) -> bool {
    &&& opt_view(r.target_monitor_id) == target_monitor_id
    &&& r.apply_source@ == apply_source
    &&& match wallpaper {
        Some(w) => {
            &&& r.wallpaper_id == Some(w.id)
            &&& r.title == w.title
            &&& r.file_path == w.file_path
            &&& r.thumbnail_path == w.thumbnail_path
            &&& r.media_type == w.media_type
        },
        None => {
            &&& r.wallpaper_id is None
            &&& r.title@ == fallback_title_of(file_path)
            &&& r.file_path@ == file_path
            &&& r.thumbnail_path is None
            &&& r.media_type@ == fallback_media_type_of(file_path)
        },
    }
}

pub fn record_from_wallpaper(
    wallpaper: Option<Wallpaper>,
    file_path: &str,
    target_monitor_id: Option<&str>,
    apply_source: &str,
) -> (r: WallpaperHistoryRecord)
    ensures
        record_matches(r, wallpaper, file_path@, opt_str_view(target_monitor_id), apply_source@),
{
    match wallpaper {
        Some(wallpaper) => WallpaperHistoryRecord {
            wallpaper_id: Some(wallpaper.id),
            title: wallpaper.title,
            file_path: wallpaper.file_path,
            thumbnail_path: wallpaper.thumbnail_path,
            media_type: wallpaper.media_type,
            target_monitor_id: owned_opt(target_monitor_id),
            apply_source: text::owned(apply_source),
        },
        None => WallpaperHistoryRecord {
            wallpaper_id: None,
            title: fallback_title(file_path),
            file_path: text::owned(file_path),
            thumbnail_path: None,
            media_type: fallback_media_type(file_path),
            target_monitor_id: owned_opt(target_monitor_id),
            apply_source: text::owned(apply_source),
        },
    }
}

/// A record repeats the latest history entry when it applies the same file to
/// the same target.
pub open spec fn repeats_latest(latest: WallpaperHistoryEntry, record: WallpaperHistoryRecord) -> bool {
    path_matches(Some(latest.file_path@), record.file_path@) && opt_view(latest.target_monitor_id)
        == opt_view(record.target_monitor_id)
}

/// Consecutive duplicates are not stored: when `record` repeats the latest entry
/// this returns that entry's id, which the store hands back instead of a new row.
pub fn duplicate_of_latest(latest: Option<&WallpaperHistoryEntry>, record: &WallpaperHistoryRecord) -> (r: Option<i64>)
    ensures
        match latest {
            Some(l) => if repeats_latest(*l, *record) {
                r == Some(l.id)
            } else {
                r is None
            },
            None => r is None,
        },
{
    match latest {
        Some(l) => {
            if path_matches_exec(Some(l.file_path.as_str()), record.file_path.as_str()) && opt_eq(
                opt_as_str(&l.target_monitor_id),
                opt_as_str(&record.target_monitor_id),
            ) {
                Some(l.id)
            } else {
                None
            }
        },
        None => None,
    }
}

/// The first history entry, newest first, that is not the current wallpaper.
pub open spec fn is_first_distinct(
    entries: Seq<WallpaperHistoryEntry>,
    current: Option<Seq<char>>,
    k: int,
) -> bool {
    &&& 0 <= k < entries.len()
    &&& !path_matches(current, entries[k].file_path@)
    &&& forall|j: int| 0 <= j < k ==> path_matches(current, #[trigger] entries[j].file_path@)
}

pub fn latest_distinct_before(entries: Vec<WallpaperHistoryEntry>, current_path: Option<&str>) -> (r: Option<WallpaperHistoryEntry>)
    ensures
        match r {
            Some(e) => exists|k: int|
                is_first_distinct(entries@, opt_str_view(current_path), k) && e == entries@[k],
            None => forall|k: int|
                0 <= k < entries@.len() ==> path_matches(
                    opt_str_view(current_path),
                    #[trigger] entries@[k].file_path@,
                ),
        },
{
    let mut i: usize = 0;
    while i < entries.len()
        invariant
            i <= entries@.len(),
            forall|j: int|
                0 <= j < i ==> path_matches(
                    opt_str_view(current_path),
                    #[trigger] entries@[j].file_path@,
                ),
        decreases entries@.len() - i,
    {
        if !path_matches_exec(current_path, entries[i].file_path.as_str()) {
            let e = entries[i].duplicate();
            assert(is_first_distinct(entries@, opt_str_view(current_path), i as int));
            return Some(e);
        }
        i = i + 1;
    }
    None
}

/// The number of history rows a query may ask for: between 1 and 100.
pub fn history_query_limit(limit: i64) -> (r: i64)
    ensures
        r == if limit < 1 {
            1
        } else if limit > 100 {
            100
        } else {
            limit
        },
{
    if limit < 1 {
        1
    } else if limit > 100 {
        100
    } else {
        limit
    }
}

/// What `serde_json::from_str::<Vec<String>>` gives for a text: the list of
/// strings, or `None` when the text is not a JSON array of strings.
pub uninterp spec fn json_string_list(text: Seq<char>) -> Option<Seq<Seq<char>>>;

/// Reads a JSON array of strings with `serde_json::from_str`; the result is
/// `json_string_list` of the text.
#[verifier::external_body]
fn read_json_string_list(text: &str) -> (r: Option<Vec<String>>)
    ensures
        match r {
            Some(v) => json_string_list(text@) == Some(text::strings_view(v@)),
            None => json_string_list(text@) is None,
        },
{
    serde_json::from_str::<Vec<String>>(text).ok()
}

/// The tags stored with a wallpaper; a column that does not hold a JSON list
/// of strings gives no tags.
pub fn tags_from_json(text: &str) -> (r: Vec<String>)
    ensures
        text::strings_view(r@) == (match json_string_list(text@) {
            Some(tags) => tags,
            None => seq![],
        }),
{
    match read_json_string_list(text) {
        Some(v) => v,
        None => Vec::new(),
    }
}

/// What `serde_json::to_string` gives for a list of strings: the JSON array
/// text, or `None` when serialization fails.
pub uninterp spec fn json_text_of_string_list(tags: Seq<Seq<char>>) -> Option<Seq<char>>;

/// Writes a list of strings with `serde_json::to_string`; the result is
/// `json_text_of_string_list` of the list.
#[verifier::external_body]
fn write_json_string_list(tags: &Vec<String>) -> (r: Option<String>)
    ensures
        match r {
            Some(t) => json_text_of_string_list(text::strings_view(tags@)) == Some(t@),
            None => json_text_of_string_list(text::strings_view(tags@)) is None,
        },
{
    serde_json::to_string(tags).ok()
}

/// The tags as they are stored: a JSON array, or the empty text when they
/// cannot be written.
pub fn tags_to_json(tags: &Vec<String>) -> (r: String)
    ensures
        r@ == (match json_text_of_string_list(text::strings_view(tags@)) {
            Some(t) => t,
            None => Seq::<char>::empty(),
        }),
{
    match write_json_string_list(tags) {
        Some(t) => t,
        None => String::new(),
    }
}

/// The pattern a library search matches titles and tags against: the query
/// anywhere in the text.
pub fn search_pattern(query: &str) -> (r: String)
    ensures
        r@ == seq!['%'] + query@ + seq!['%'],
{
    let mut v: Vec<char> = Vec::new();
    v.push('%');
    text::push_str(&mut v, query);
    v.push('%');
    text::string_from(v.as_slice())
}

} // verus!
