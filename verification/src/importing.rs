//! Importing local files: the probe the interface sends, thumbnails, metadata and
//! batch results.
use crate::db::{Wallpaper, WallpaperMetadata};
use crate::media;
use crate::text;
use base64::Engine;
use vstd::prelude::*;

verus! {

/// What the interface measured of a selected file.
#[derive(Debug, Clone)]
pub struct ImportProbe {
    pub width: Option<i32>,
    pub height: Option<i32>,
    pub fps: Option<i32>,
    pub duration_ms: Option<i64>,
    pub thumbnail_data_url: Option<String>,
    pub warnings: Option<Vec<String>>,
}

/// A probe with every value in range, defaults for what could not be measured, and
/// the warnings that explain them.
#[derive(Debug, Clone)]
pub struct NormalizedImportProbe {
    pub width: i32,
    pub height: i32,
    pub fps: i32,
    pub duration_ms: i64,
    pub thumbnail_path: Option<String>,
    pub warnings: Vec<String>,
}


/// A selection to import: the trimmed path, or the error for a blank one.
pub fn selected_import_path(video_path: &str) -> (r: Result<String, String>)
    ensures
        text::trim_seq(video_path@).len() == 0 ==> (r matches Err(e) && e@ == "No video file was selected"@),
        text::trim_seq(video_path@).len() > 0 ==> (r matches Ok(p) && p@ == text::trim_seq(video_path@)),
{
    let t = text::trim_str(video_path);
    if t.len() == 0 {
        Err(text::owned("No video file was selected"))
    } else {
        Ok(text::string_from(t.as_slice()))
    }
}

pub open spec fn in_range(v: Option<int>, lo: int, hi: int) -> Option<int> {
    match v {
        Some(x) => if lo <= x <= hi {
            Some(x)
        } else {
            None
        },
        None => None,
    }
}

pub open spec fn opt_i32(v: Option<i32>) -> Option<int> {
    match v {
        Some(x) => Some(x as int),
        None => None,
    }
}

pub open spec fn opt_i64(v: Option<i64>) -> Option<int> {
    match v {
        Some(x) => Some(x as int),
        None => None,
    }
}

/// Twenty-four hours in milliseconds, the longest duration a probe may report.
pub open spec fn max_duration_ms() -> int {
    86400000
}

/// How a probe's thumbnail fared: none was sent, it was stored at a path, or storing
/// it failed with a warning.
#[derive(Debug, Clone)]
pub enum ThumbnailOutcome {
    NotSent,
    Stored(String),
    Failed(String),
}

/// The warnings of a normalized probe, in order: the probe's own, then one for each
/// value replaced by its default, then the thumbnail's.
pub open spec fn probe_warnings(probe: Option<ImportProbe>, thumbnail: ThumbnailOutcome) -> Seq<Seq<char>> {
    let own = match probe {
        Some(p) => match p.warnings {
            Some(w) => text::strings_view(w@),
            None => Seq::empty(),
        },
        None => Seq::empty(),
    };
    let width = match probe { Some(p) => opt_i32(p.width), None => None };
    let height = match probe { Some(p) => opt_i32(p.height), None => None };
    let fps = match probe { Some(p) => opt_i32(p.fps), None => None };
    let duration = match probe { Some(p) => opt_i64(p.duration_ms), None => None };
    own + (if in_range(width, 1, 16384) is None {
        seq!["Video width could not be probed; using 1920."@]
    } else {
        Seq::empty()
    }) + (if in_range(height, 1, 16384) is None {
        seq!["Video height could not be probed; using 1080."@]
    } else {
        Seq::empty()
    }) + (if in_range(fps, 1, 240) is None {
        seq!["Video frame rate could not be estimated; using 60fps."@]
    } else {
        Seq::empty()
    }) + (if in_range(duration, 0, max_duration_ms()) is None {
        seq!["Video duration could not be probed."@]
    } else {
        Seq::empty()
    }) + match thumbnail {
        ThumbnailOutcome::Failed(w) => seq![w@],
        _ => Seq::empty(),
    }
}

fn push_warning(warnings: &mut Vec<String>, w: &str)
    ensures
        text::strings_view(final(warnings)@) == text::strings_view(old(warnings)@).push(w@),
{
    warnings.push(text::owned(w));
    assert(text::strings_view(warnings@) =~= text::strings_view(old(warnings)@).push(w@));
}

fn own_warnings(probe: &Option<ImportProbe>) -> (r: Vec<String>)
    ensures
        text::strings_view(r@) == match *probe {
            Some(p) => match p.warnings {
                Some(w) => text::strings_view(w@),
                None => Seq::empty(),
            },
            None => Seq::<Seq<char>>::empty(),
        },
{
    let mut warnings: Vec<String> = Vec::new();
    match probe {
        Some(p) => match &p.warnings {
            Some(ws) => {
                let mut i: usize = 0;
                while i < ws.len()
                    invariant
                        i <= ws@.len(),
                        text::strings_view(warnings@) == text::strings_view(ws@).take(i as int),
                    decreases ws@.len() - i,
                {
                    push_warning(&mut warnings, ws[i].as_str());
                    assert(text::strings_view(ws@).take(i + 1) == text::strings_view(ws@).take(i as int).push(ws@[i as int]@));
                    i = i + 1;
                }
                assert(text::strings_view(ws@).take(ws@.len() as int) == text::strings_view(ws@));
            },
            None => {
                assert(text::strings_view(warnings@) =~= Seq::<Seq<char>>::empty());
            },
        },
        None => {
            assert(text::strings_view(warnings@) =~= Seq::<Seq<char>>::empty());
        },
    }
    warnings
}

/// A measured value within `lo..=hi`, or `default` with a warning.
fn checked_i64(v: Option<i64>, lo: i64, hi: i64, default: i64, warning: &str, warnings: &mut Vec<String>) -> (r: i64)
    ensures
        r == or_default(in_range(opt_i64(v), lo as int, hi as int), default as int),
        text::strings_view(final(warnings)@) == text::strings_view(old(warnings)@) + (if in_range(
            opt_i64(v),
            lo as int,
            hi as int,
        ) is None {
            seq![warning@]
        } else {
            Seq::<Seq<char>>::empty()
        }),
{
    match v {
        Some(x) => if lo <= x && x <= hi {
            assert(text::strings_view(warnings@) + Seq::<Seq<char>>::empty() =~= text::strings_view(warnings@));
            return x;
        },
        None => {},
    }
    push_warning(warnings, warning);
    assert(text::strings_view(old(warnings)@).push(warning@) =~= text::strings_view(old(warnings)@) + seq![warning@]);
    default
}

pub open spec fn widen(v: Option<i32>) -> Option<i64> {
    match v {
        Some(x) => Some(x as i64),
        None => None,
    }
}

fn widen_exec(v: Option<i32>) -> (r: Option<i64>)
    ensures
        r == widen(v),
        opt_i64(r) == opt_i32(v),
{
    match v {
        Some(x) => Some(x as i64),
        None => None,
    }
}

/// Normalizes a probe: width and height must lie in 1..=16384 (else 1920 by 1080),
/// the frame rate in 1..=240 (else 60), the duration within a day (else 0); the
/// thumbnail path is where the thumbnail was stored, if it was.
pub fn normalize_import_probe(probe: Option<ImportProbe>, thumbnail: ThumbnailOutcome) -> (r: NormalizedImportProbe)
    ensures
        r.width == or_default(in_range(match probe { Some(p) => opt_i32(p.width), None => None }, 1, 16384), 1920),
        r.height == or_default(in_range(match probe { Some(p) => opt_i32(p.height), None => None }, 1, 16384), 1080),
        r.fps == or_default(in_range(match probe { Some(p) => opt_i32(p.fps), None => None }, 1, 240), 60),
        r.duration_ms == or_default(
            in_range(match probe { Some(p) => opt_i64(p.duration_ms), None => None }, 0, max_duration_ms()),
            0,
        ),
        text::opt_string_view(r.thumbnail_path) == match thumbnail {
            ThumbnailOutcome::Stored(p) => Some(p@),
            _ => None::<Seq<char>>,
        },
        text::strings_view(r.warnings@) == probe_warnings(probe, thumbnail),
{
    let ghost pr = probe;
    let ghost th = thumbnail;
    let mut warnings = own_warnings(&probe);
    let (w0, h0, f0, d0): (Option<i32>, Option<i32>, Option<i32>, Option<i64>) = match &probe {
        Some(p) => (p.width, p.height, p.fps, p.duration_ms),
        None => (None, None, None, None),
    };
    let width = checked_i64(widen_exec(w0), 1, 16384, 1920, "Video width could not be probed; using 1920.", &mut warnings) as i32;
    let height = checked_i64(widen_exec(h0), 1, 16384, 1080, "Video height could not be probed; using 1080.", &mut warnings) as i32;
    let fps = checked_i64(widen_exec(f0), 1, 240, 60, "Video frame rate could not be estimated; using 60fps.", &mut warnings) as i32;
    let duration_ms = checked_i64(d0, 0, 86400000, 0, "Video duration could not be probed.", &mut warnings);
    let ghost before_thumb = text::strings_view(warnings@);
    let thumbnail_path = match thumbnail {
        ThumbnailOutcome::NotSent => None,
        ThumbnailOutcome::Stored(p) => Some(p),
        ThumbnailOutcome::Failed(w) => {
            push_warning(&mut warnings, w.as_str());
            None
        },
    };
    proof {
        let ws5: Seq<Seq<char>> = match th {
            ThumbnailOutcome::Failed(w) => seq![w@],
            _ => Seq::empty(),
        };
        assert(text::strings_view(warnings@) =~= before_thumb + ws5);
    }
    NormalizedImportProbe { width, height, fps, duration_ms, thumbnail_path, warnings }
}

pub open spec fn or_default(v: Option<int>, d: int) -> int {
    match v {
        Some(x) => x,
        None => d,
    }
}

/// What `base64::engine::general_purpose::STANDARD.decode` gives for a text: the bytes,
/// or the error's message.
pub uninterp spec fn base64_standard(text: Seq<char>) -> Result<Seq<u8>, Seq<char>>;

/// Decodes standard padded base64 with the `base64` crate's `STANDARD` engine; on
/// failure, the error's `Display` text. The result is `base64_standard`.
#[verifier::external_body]
fn base64_decode(text: &str) -> (r: Result<Vec<u8>, String>)
    ensures
        match r {
            Ok(b) => base64_standard(text@) == Ok::<Seq<u8>, Seq<char>>(b@),
            Err(e) => base64_standard(text@) == Err::<Seq<u8>, Seq<char>>(e@),
        },
{
    base64::engine::general_purpose::STANDARD.decode(text).map_err(|e| e.to_string())
}

/// The media type and payload of a thumbnail data URL.
pub open spec fn data_url_parts(url: Seq<char>) -> Option<(Seq<char>, Seq<char>)> {
    if text::has_prefix(url, "data:image/jpeg;base64,"@) {
        Some(("image/jpeg"@, url.skip("data:image/jpeg;base64,"@.len() as int)))
    } else if text::has_prefix(url, "data:image/png;base64,"@) {
        Some(("image/png"@, url.skip("data:image/png;base64,"@.len() as int)))
    } else if text::has_prefix(url, "data:image/webp;base64,"@) {
        Some(("image/webp"@, url.skip("data:image/webp;base64,"@.len() as int)))
    } else {
        None
    }
}

/// Decodes a generated thumbnail: a JPEG, PNG or WebP base64 data URL of at most two
/// million bytes.
pub fn decode_thumbnail_data_url(thumbnail: &str) -> (r: Result<(String, Vec<u8>), String>)
    ensures
        match data_url_parts(thumbnail@) {
            None => r matches Err(e) && e@ == "Generated thumbnail used an unsupported image format."@,
            Some((mime, payload)) => if thumbnail.len() > 2000000 {
                r matches Err(e) && e@ == "Generated thumbnail was too large to save."@
            } else {
                match base64_standard(payload) {
                    Ok(bytes) => r matches Ok((m, b)) && m@ == mime && b@ == bytes,
                    Err(msg) => r matches Err(e) && e@ == "Failed to decode generated thumbnail: "@ + msg,
                }
            },
        },
{
    let t = text::chars_of(thumbnail);
    let jpeg = text::chars_of("data:image/jpeg;base64,");
    let png = text::chars_of("data:image/png;base64,");
    let webp = text::chars_of("data:image/webp;base64,");
    let (mime, skip): (&str, usize) = if text::starts_with(t.as_slice(), jpeg.as_slice()) {
        ("image/jpeg", jpeg.len())
    } else if text::starts_with(t.as_slice(), png.as_slice()) {
        ("image/png", png.len())
    } else if text::starts_with(t.as_slice(), webp.as_slice()) {
        ("image/webp", webp.len())
    } else {
        return Err(text::owned("Generated thumbnail used an unsupported image format."));
    };
    if thumbnail.len() > 2000000 {
        return Err(text::owned("Generated thumbnail was too large to save."));
    }
    let payload = text::string_from(text::slice_to_vec(t.as_slice(), skip, t.len()).as_slice());
    match base64_decode(payload.as_str()) {
        Ok(bytes) => Ok((text::owned(mime), bytes)),
        Err(e) => {
            let mut msg = text::chars_of("Failed to decode generated thumbnail: ");
            text::push_str(&mut msg, e.as_str());
            Err(text::string_from(msg.as_slice()))
        },
    }
}

/// The extension a thumbnail of a media type is saved under.
pub fn thumbnail_extension(mime: &str) -> (r: Option<&'static str>)
    ensures
        match r {
            Some(e) => (mime@ == "image/jpeg"@ && e@ == "jpg"@) || (mime@ == "image/png"@ && e@ == "png"@)
                || (mime@ == "image/webp"@ && e@ == "webp"@),
            None => mime@ != "image/jpeg"@ && mime@ != "image/png"@ && mime@ != "image/webp"@,
        },
{
    let m = text::chars_of(mime);
    if text::chars_eq_str(m.as_slice(), "image/jpeg") {
        Some("jpg")
    } else if text::chars_eq_str(m.as_slice(), "image/png") {
        Some("png")
    } else if text::chars_eq_str(m.as_slice(), "image/webp") {
        Some("webp")
    } else {
        None
    }
}

/// The file name of a stored thumbnail: `thumbnail-{stamp}-{seq}.{ext}`.
pub fn thumbnail_file_name(stamp: u64, seq: u64, ext: &str) -> (r: String)
    ensures
        r@ == "thumbnail-"@ + text::decimal(stamp as nat) + seq!['-'] + text::decimal(seq as nat) + seq!['.'] + ext@,
{
    let mut out = text::chars_of("thumbnail-");
    text::push_all(&mut out, text::u64_text(stamp).as_slice());
    out.push('-');
    text::push_all(&mut out, text::u64_text(seq).as_slice());
    out.push('.');
    text::push_str(&mut out, ext);
    text::string_from(out.as_slice())
}

/// The library entry for an imported file and the warnings to show. A still image keeps
/// the probe's warnings and size (0 when unknown) and is its own thumbnail; a video
/// takes the normalized probe and warns when no thumbnail could be made.
pub fn import_metadata(file_path: &str, probe: Option<ImportProbe>, normalized: Option<NormalizedImportProbe>) -> (r: (WallpaperMetadata, Vec<String>))
    requires
        !media::is_static_image(file_path@) ==> normalized is Some,
    ensures
        r.0.title@ == media::title_for_path(file_path@),
        text::strings_view(r.0.tags@) == media::tags_for_path(file_path@),
        r.0.source is None && r.0.source_id is None,
        media::is_static_image(file_path@) ==> {
            &&& r.0.thumbnail_path matches Some(t) && t@ == file_path@
            &&& r.0.width == match probe { Some(p) => match p.width { Some(w) => w, None => 0 }, None => 0 }
            &&& r.0.height == match probe { Some(p) => match p.height { Some(h) => h, None => 0 }, None => 0 }
            &&& r.0.fps == 0 && r.0.duration_ms == 0
            &&& r.0.media_type@ == "image"@
            &&& text::strings_view(r.1@) == match probe {
                Some(p) => match p.warnings {
                    Some(w) => text::strings_view(w@),
                    None => Seq::empty(),
                },
                None => Seq::empty(),
            }
        },
        !media::is_static_image(file_path@) ==> {
            let n = normalized->0;
            &&& text::opt_string_view(r.0.thumbnail_path) == text::opt_string_view(n.thumbnail_path)
            &&& r.0.width == n.width && r.0.height == n.height && r.0.fps == n.fps && r.0.duration_ms == n.duration_ms
            &&& r.0.media_type@ == "video"@
            &&& text::strings_view(r.1@) == text::strings_view(n.warnings@) + (if n.thumbnail_path is None {
                seq!["Thumbnail preview could not be generated for this file."@]
            } else {
                Seq::empty()
            })
        },
{
    let title = media::title_from_path(file_path);
    let tags = media::tags_from_path(file_path);
    if media::is_supported_image_path(file_path) {
        let (width, height, warnings) = match probe {
            Some(p) => {
                let w = match p.width {
                    Some(w) => w,
                    None => 0,
                };
                let h = match p.height {
                    Some(h) => h,
                    None => 0,
                };
                let ws = match p.warnings {
                    Some(ws) => ws,
                    None => Vec::new(),
                };
                (w, h, ws)
            },
            None => (0, 0, Vec::new()),
        };
        assert(text::strings_view(Seq::<String>::empty()) =~= Seq::<Seq<char>>::empty());
        let metadata = WallpaperMetadata {
            title,
            thumbnail_path: Some(text::owned(file_path)),
            tags,
            width,
            height,
            fps: 0,
            duration_ms: 0,
            media_type: text::owned("image"),
            source: None,
            source_id: None,
        };
        return (metadata, warnings);
    }
    let n = normalized.unwrap();
    let mut warnings = n.warnings;
    let ghost before = text::strings_view(warnings@);
    if n.thumbnail_path.is_none() {
        push_warning(&mut warnings, "Thumbnail preview could not be generated for this file.");
    } else {
        assert(before + Seq::<Seq<char>>::empty() =~= before);
    }
    let metadata = WallpaperMetadata {
        title,
        thumbnail_path: n.thumbnail_path,
        tags,
        width: n.width,
        height: n.height,
        fps: n.fps,
        duration_ms: n.duration_ms,
        media_type: text::owned("video"),
        source: None,
        source_id: None,
    };
    (metadata, warnings)
}

/// The outcome of importing one file.
#[derive(Debug)]
pub struct ImportWallpaperResult {
    pub wallpaper: Wallpaper,
    pub warnings: Vec<String>,
    pub duplicate: bool,
}

/// One file of a batch import and its probe.
#[derive(Debug, Clone)]
pub struct BatchImportItem {
    pub video_path: String,
    pub probe: Option<ImportProbe>,
}

/// A file a batch import could not take, and why.
#[derive(Debug, Clone)]
pub struct ImportFailure {
    pub path: String,
    pub reason: String,
}

/// The outcome of a batch import.
#[derive(Debug)]
pub struct BatchImportResult {
    pub imported: Vec<Wallpaper>,
    pub duplicates: Vec<Wallpaper>,
    pub failed: Vec<ImportFailure>,
    pub warnings: Vec<String>,
}

/// The result of re-importing a file that the library already holds.
pub fn duplicate_import(existing: Wallpaper) -> (r: ImportWallpaperResult)
    ensures
        r.wallpaper == existing,
        r.duplicate,
        text::strings_view(r.warnings@) == seq!["Already in library; skipped duplicate."@],
{
    let mut warnings: Vec<String> = Vec::new();
    warnings.push(text::owned("Already in library; skipped duplicate."));
    assert(text::strings_view(warnings@) =~= seq!["Already in library; skipped duplicate."@]);
    ImportWallpaperResult { wallpaper: existing, warnings, duplicate: true }
}

impl BatchImportResult {
    pub fn new() -> (r: BatchImportResult)
        ensures
            r.imported@.len() == 0 && r.duplicates@.len() == 0 && r.failed@.len() == 0 && r.warnings@.len() == 0,
    {
        BatchImportResult { imported: Vec::new(), duplicates: Vec::new(), failed: Vec::new(), warnings: Vec::new() }
    }

    /// Takes in the outcome of one file: its warnings, prefixed with the wallpaper's
    /// title, join the batch's; the wallpaper is counted as imported or duplicate, or
    /// the path as failed with the reason.
    pub fn record(&mut self, source_path: String, outcome: Result<ImportWallpaperResult, String>)
        ensures
            match outcome {
                Ok(res) => {
                    &&& text::strings_view(final(self).warnings@) == text::strings_view(old(self).warnings@) + Seq::new(
                        res.warnings@.len(),
                        |i: int| res.wallpaper.title@ + ": "@ + res.warnings@[i]@,
                    )
                    &&& final(self).failed@ == old(self).failed@
                    &&& if res.duplicate {
                        final(self).duplicates@ == old(self).duplicates@.push(res.wallpaper)
                            && final(self).imported@ == old(self).imported@
                    } else {
                        final(self).imported@ == old(self).imported@.push(res.wallpaper)
                            && final(self).duplicates@ == old(self).duplicates@
                    }
                },
                Err(reason) => {
                    &&& final(self).warnings@ == old(self).warnings@
                    &&& final(self).imported@ == old(self).imported@
                    &&& final(self).duplicates@ == old(self).duplicates@
                    &&& final(self).failed@.len() == old(self).failed@.len() + 1
                    &&& final(self).failed@.drop_last() == old(self).failed@
                    &&& final(self).failed@.last().path@ == source_path@
                    &&& final(self).failed@.last().reason@ == reason@
                },
            },
    {
        match outcome {
            Ok(res) => {
                let ghost start = text::strings_view(self.warnings@);
                let mut i: usize = 0;
                while i < res.warnings.len()
                    invariant
                        i <= res.warnings@.len(),
                        text::strings_view(self.warnings@) == start + Seq::new(
                            i as nat,
                            |k: int| res.wallpaper.title@ + ": "@ + res.warnings@[k]@,
                        ),
                        self.failed@ == old(self).failed@,
                        self.imported@ == old(self).imported@,
                        self.duplicates@ == old(self).duplicates@,
                        start == text::strings_view(old(self).warnings@),
                    decreases res.warnings@.len() - i,
                {
                    let mut msg = text::chars_of(res.wallpaper.title.as_str());
                    text::push_str(&mut msg, ": ");
                    text::push_str(&mut msg, res.warnings[i].as_str());
                    let ghost before = text::strings_view(self.warnings@);
                    self.warnings.push(text::string_from(msg.as_slice()));
                    assert(text::strings_view(self.warnings@) =~= before.push(msg@));
                    assert(start + Seq::new((i + 1) as nat, |k: int| res.wallpaper.title@ + ": "@ + res.warnings@[k]@)
                        =~= (start + Seq::new(i as nat, |k: int| res.wallpaper.title@ + ": "@ + res.warnings@[k]@)).push(msg@));
                    i = i + 1;
                }
                if res.duplicate {
                    self.duplicates.push(res.wallpaper);
                } else {
                    self.imported.push(res.wallpaper);
                }
            },
            Err(reason) => {
                self.failed.push(ImportFailure { path: source_path, reason });
                assert(self.failed@.drop_last() =~= old(self).failed@);
            },
        }
    }
}

/// The result of refreshing a video's thumbnail.
#[derive(Debug)]
pub struct ThumbnailRegenerationResult {
    pub wallpaper: Wallpaper,
    pub warnings: Vec<String>,
}

/// The checks before a thumbnail refresh: a library entry, of a video.
pub fn regeneration_check(id: i64, media_type: Option<&str>) -> (r: Result<(), String>)
    ensures
        id <= 0 ==> (r matches Err(e) && e@ == "Only imported wallpapers can refresh thumbnails"@),
        id > 0 ==> match media_type {
            None => r is Err,
            Some(t) => if t@ == "video"@ {
                r is Ok
            } else {
                r matches Err(e) && e@ == "Thumbnail regeneration is only available for video wallpapers"@
            },
        },
{
    if id <= 0 {
        return Err(text::owned("Only imported wallpapers can refresh thumbnails"));
    }
    match media_type {
        None => Err(crate::library::wallpaper_not_found(id)),
        Some(t) => if text::chars_eq_str(text::chars_of(t).as_slice(), "video") {
            Ok(())
        } else {
            Err(text::owned("Thumbnail regeneration is only available for video wallpapers"))
        },
    }
}

/// The warnings shown after a refresh: those of the probe, or a confirmation when
/// there are none.
pub fn regeneration_warnings(warnings: Vec<String>) -> (r: Vec<String>)
    ensures
        warnings@.len() > 0 ==> r@ == warnings@,
        warnings@.len() == 0 ==> text::strings_view(r@) == seq!["Thumbnail regenerated."@],
{
    if warnings.len() == 0 {
        let mut w: Vec<String> = Vec::new();
        w.push(text::owned("Thumbnail regenerated."));
        assert(text::strings_view(w@) =~= seq!["Thumbnail regenerated."@]);
        w
    } else {
        warnings
    }
}

} // verus!
