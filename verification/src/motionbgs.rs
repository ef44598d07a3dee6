//! MotionBGS: reading its public listing and detail pages, and checking its URLs.
use crate::html::{self, HtmlNode};
use crate::text;
use crate::weburl::{self, WebUrl};
use vstd::prelude::*;

verus! {

pub const MOTIONBGS_SOURCE_NAME: &'static str = "motionbgs";

/// Largest video that is downloaded: 300 MiB.
pub const MAX_DOWNLOAD_BYTES: u64 = 314572800;

/// A search as the user interface asks for it.
#[derive(Debug, Clone)]
pub struct MotionBgsSearchRequest {
    pub query: Option<String>,
    pub category: Option<String>,
    pub page: Option<u32>,
}

/// One downloadable rendition of a wallpaper.
#[derive(Debug, Clone)]
pub struct MotionBgsDownloadOption {
    pub quality: String,
    pub url: String,
    pub width: i32,
    pub height: i32,
    pub file_size: i64,
}

/// A live wallpaper as listed or detailed on MotionBGS.
#[derive(Debug, Clone)]
pub struct MotionBgsWallpaper {
    pub id: String,
    pub slug: String,
    pub title: String,
    pub url: String,
    pub thumbnail_url: String,
    pub preview_video_url: Option<String>,
    pub quality: String,
    pub width: i32,
    pub height: i32,
    pub file_size: i64,
    pub tags: Vec<String>,
    pub downloads: Vec<MotionBgsDownloadOption>,
}

#[derive(Debug, Clone, Copy)]
pub struct MotionBgsMeta {
    pub current_page: u32,
    pub has_next_page: bool,
}

#[derive(Debug, Clone)]
pub struct MotionBgsSearchResponse {
    pub data: Vec<MotionBgsWallpaper>,
    pub meta: MotionBgsMeta,
}

/// A downloaded video with the wallpaper and rendition it came from.
#[derive(Debug)]
pub struct DownloadedMotionBgsVideo {
    pub bytes: Vec<u8>,
    pub extension: &'static str,
    pub wallpaper: MotionBgsWallpaper,
    pub download: MotionBgsDownloadOption,
}

/// The plain content of a download option.
pub struct DownloadView {
    pub quality: Seq<char>,
    pub url: Seq<char>,
    pub width: int,
    pub height: int,
    pub file_size: int,
}

/// The plain content of a wallpaper.
pub struct WallpaperView {
    pub id: Seq<char>,
    pub slug: Seq<char>,
    pub title: Seq<char>,
    pub url: Seq<char>,
    pub thumbnail_url: Seq<char>,
    pub preview_video_url: Option<Seq<char>>,
    pub quality: Seq<char>,
    pub width: int,
    pub height: int,
    pub file_size: int,
    pub tags: Seq<Seq<char>>,
    pub downloads: Seq<DownloadView>,
}

pub open spec fn download_view(d: MotionBgsDownloadOption) -> DownloadView {
    DownloadView {
        quality: d.quality@,
        url: d.url@,
        width: d.width as int,
        height: d.height as int,
        file_size: d.file_size as int,
    }
}

pub open spec fn downloads_view(v: Seq<MotionBgsDownloadOption>) -> Seq<DownloadView> {
    Seq::new(v.len(), |i: int| download_view(v[i]))
}


pub open spec fn wallpaper_view(w: MotionBgsWallpaper) -> WallpaperView {
    WallpaperView {
        id: w.id@,
        slug: w.slug@,
        title: w.title@,
        url: w.url@,
        thumbnail_url: w.thumbnail_url@,
        preview_video_url: text::opt_string_view(w.preview_video_url),
        quality: w.quality@,
        width: w.width as int,
        height: w.height as int,
        file_size: w.file_size as int,
        tags: text::strings_view(w.tags@),
        downloads: downloads_view(w.downloads@),
    }
}

pub open spec fn wallpapers_view(v: Seq<MotionBgsWallpaper>) -> Seq<WallpaperView> {
    Seq::new(v.len(), |i: int| wallpaper_view(v[i]))
}

fn copy_download(d: &MotionBgsDownloadOption) -> (r: MotionBgsDownloadOption)
    ensures
        download_view(r) == download_view(*d),
{
    MotionBgsDownloadOption {
        quality: text::owned(d.quality.as_str()),
        url: text::owned(d.url.as_str()),
        width: d.width,
        height: d.height,
        file_size: d.file_size,
    }
}

// ---------------------------------------------------------------------------
// Feed paths, titles, qualities
// ---------------------------------------------------------------------------

/// The first path segment of a category feed.
pub open spec fn feed_root(category: Option<Seq<char>>) -> Seq<char> {
    match category {
        Some(c) => if c == "4k"@ {
            "/4k"@
        } else if c == "mobile"@ {
            "/mobile"@
        } else if c == "gifs"@ {
            "/gifs"@
        } else {
            Seq::empty()
        },
        None => Seq::empty(),
    }
}

/// The path of a feed page: `{root}/` for the first page, `{root}/{page}/` after it.
pub open spec fn feed_path(category: Option<Seq<char>>, page: nat) -> Seq<char> {
    if page <= 1 {
        feed_root(category) + seq!['/']
    } else {
        feed_root(category) + seq!['/'] + text::decimal(page) + seq!['/']
    }
}

pub open spec fn opt_str_view(o: Option<&str>) -> Option<Seq<char>> {
    match o {
        Some(s) => Some(s@),
        None => None,
    }
}

pub fn motionbgs_feed_path(category: Option<&str>, page: u32) -> (r: String)
    ensures
        r@ == feed_path(opt_str_view(category), page as nat),
{
    let mut out: Vec<char> = Vec::new();
    match category {
        Some(c) => {
            let cc = text::chars_of(c);
            if text::chars_eq_str(cc.as_slice(), "4k") {
                text::push_str(&mut out, "/4k");
            } else if text::chars_eq_str(cc.as_slice(), "mobile") {
                text::push_str(&mut out, "/mobile");
            } else if text::chars_eq_str(cc.as_slice(), "gifs") {
                text::push_str(&mut out, "/gifs");
            }
        },
        None => {},
    }
    assert(out@ == feed_root(opt_str_view(category)));
    out.push('/');
    if page > 1 {
        let digits = text::u64_text(page as u64);
        text::push_all(&mut out, digits.as_slice());
        out.push('/');
    }
    text::string_from(out.as_slice())
}

/// A title with a trailing "live wallpaper" (in any ASCII case) and surrounding
/// whitespace removed.
pub open spec fn cleaned_title(title: Seq<char>) -> Seq<char> {
    let t = text::trim_seq(title);
    match text::last_occurrence(text::lower_seq(t), " live wallpaper"@) {
        Some(i) => text::trim_seq(t.take(i)),
        None => t,
    }
}

pub fn clean_title(title: &str) -> (r: String)
    ensures
        r@ == cleaned_title(title@),
{
    let t = text::trim_str(title);
    let lower = text::lower_vec(t.as_slice());
    let suffix = text::chars_of(" live wallpaper");
    match text::rfind(lower.as_slice(), suffix.as_slice()) {
        Some(i) => {
            assert(lower@.len() == t@.len());
            let head = text::slice_to_vec(t.as_slice(), 0, i);
            assert(head@ == t@.take(i as int));
            let trimmed = text::trim(head.as_slice());
            text::string_from(trimmed.as_slice())
        },
        None => text::string_from(t.as_slice()),
    }
}

/// A word with its first character in upper case (by `char::to_uppercase`).
pub open spec fn capitalized(w: Seq<char>) -> Seq<char> {
    if w.len() == 0 {
        w
    } else {
        text::unicode_upper(w[0]) + w.drop_first()
    }
}

pub open spec fn dashes_as_spaces(s: Seq<char>) -> Seq<char> {
    s.map_values(|c: char| if c == '-' { ' ' } else { c })
}

/// The title read out of a slug: its dash-separated words, each capitalized, joined
/// by single spaces.
pub open spec fn slug_title(slug: Seq<char>) -> Seq<char> {
    let ws = text::words(dashes_as_spaces(slug));
    text::join_space(Seq::new(ws.len(), |i: int| capitalized(ws[i])))
}

pub fn title_from_slug(slug: &str) -> (r: String)
    ensures
        r@ == slug_title(slug@),
{
    let s = text::chars_of(slug);
    let mut spaced: Vec<char> = Vec::new();
    let mut i: usize = 0;
    while i < s.len()
        invariant
            i <= s@.len(),
            spaced@ == dashes_as_spaces(s@.take(i as int)),
        decreases s@.len() - i,
    {
        spaced.push(if s[i] == '-' { ' ' } else { s[i] });
        i = i + 1;
        assert(dashes_as_spaces(s@.take(i as int)) =~= dashes_as_spaces(s@.take(i - 1)).push(
            if s@[i - 1] == '-' { ' ' } else { s@[i - 1] },
        ));
    }
    assert(s@.take(s@.len() as int) == s@);
    let ws = text::split_words(spaced.as_slice());
    let ghost wv = text::views(ws@);
    let mut caps: Vec<Vec<char>> = Vec::new();
    let mut k: usize = 0;
    while k < ws.len()
        invariant
            k <= ws@.len(),
            wv == text::views(ws@),
            caps@.len() == k,
            forall|j: int| 0 <= j < k ==> #[trigger] caps@[j]@ == capitalized(wv[j]),
        decreases ws@.len() - k,
    {
        let w = &ws[k];
        let mut c: Vec<char> = Vec::new();
        if w.len() > 0 {
            c = text::char_to_uppercase(w[0]);
            let rest = text::slice_to_vec(w.as_slice(), 1, w.len());
            text::push_all(&mut c, rest.as_slice());
            assert(rest@ == w@.drop_first());
        } else {
            assert(w@ =~= Seq::<char>::empty());
        }
        caps.push(c);
        k = k + 1;
    }
    let out = text::join_words(&caps);
    assert(text::views(caps@) =~= Seq::new(wv.len(), |i: int| capitalized(wv[i])));
    text::string_from(out.as_slice())
}

/// The frame size that a quality label stands for.
pub open spec fn quality_dimensions(quality: Seq<char>) -> (int, int) {
    if text::upper_seq(quality) == "4K"@ {
        (3840, 2160)
    } else {
        (1920, 1080)
    }
}

pub fn dimensions_for_quality(quality: &str) -> (r: (i32, i32))
    ensures
        r.0 as int == quality_dimensions(quality@).0,
        r.1 as int == quality_dimensions(quality@).1,
{
    let q = text::chars_of(quality);
    let upper = text::upper_vec(q.as_slice());
    if text::chars_eq_str(upper.as_slice(), "4K") {
        (3840, 2160)
    } else {
        (1920, 1080)
    }
}


/// A word with leading and trailing characters that are not ASCII letters or digits
/// removed (`trim_matches(|c| !c.is_ascii_alphanumeric())`).
pub open spec fn strip_front(s: Seq<char>) -> Seq<char>
    decreases s.len(),
{
    if s.len() > 0 && !text::is_alnum(s[0]) {
        strip_front(s.drop_first())
    } else {
        s
    }
}

pub open spec fn strip_back(s: Seq<char>) -> Seq<char>
    decreases s.len(),
{
    if s.len() > 0 && !text::is_alnum(s.last()) {
        strip_back(s.drop_last())
    } else {
        s
    }
}

pub open spec fn in_dimension_range(v: int) -> bool {
    1 <= v <= 16384
}

/// The `WIDTHxHEIGHT` that one word of a download label spells, both sides being
/// `i32` numbers from 1 to 16384.
pub open spec fn word_dimensions(w: Seq<char>) -> Option<(int, int)> {
    let c = strip_back(strip_front(w));
    match text::index_of(c, 'x') {
        Some(i) => match (
            text::parse_signed(c.take(i), i32::MIN as int, i32::MAX as int),
            text::parse_signed(c.skip(i + 1), i32::MIN as int, i32::MAX as int),
        ) {
            (Some(a), Some(b)) => if in_dimension_range(a) && in_dimension_range(b) {
                Some((a, b))
            } else {
                None
            },
            _ => None,
        },
        None => None,
    }
}

pub open spec fn first_dimensions(ws: Seq<Seq<char>>) -> Option<(int, int)>
    decreases ws.len(),
{
    if ws.len() == 0 {
        None
    } else {
        match word_dimensions(ws[0]) {
            Some(d) => Some(d),
            None => first_dimensions(ws.drop_first()),
        }
    }
}

/// The first word of `text` that spells a frame size.
pub open spec fn text_dimensions(t: Seq<char>) -> Option<(int, int)> {
    first_dimensions(text::words(t))
}

fn strip_bounds(s: &[char]) -> (r: (usize, usize))
    ensures
        r.0 <= r.1 <= s@.len(),
        s@.subrange(r.0 as int, r.1 as int) == strip_back(strip_front(s@)),
{
    let mut a: usize = 0;
    assert(s@.skip(0) == s@);
    while a < s.len() && !text::char_is_alnum(s[a])
        invariant
            a <= s@.len(),
            strip_front(s@) == strip_front(s@.skip(a as int)),
        decreases s@.len() - a,
    {
        assert(s@.skip(a as int).drop_first() == s@.skip(a + 1));
        a = a + 1;
    }
    assert(strip_front(s@) == s@.skip(a as int));
    let mut b: usize = s.len();
    while b > a && !text::char_is_alnum(s[b - 1])
        invariant
            a <= b <= s@.len(),
            strip_back(strip_front(s@)) == strip_back(s@.subrange(a as int, b as int)),
        decreases b,
    {
        assert(s@.subrange(a as int, b as int).drop_last() == s@.subrange(a as int, b - 1));
        b = b - 1;
    }
    assert(s@.skip(a as int) == s@.subrange(a as int, s@.len() as int));
    (a, b)
}

fn word_dimensions_exec(w: &[char]) -> (r: Option<(i32, i32)>)
    ensures
        match r {
            Some((a, b)) => word_dimensions(w@) == Some((a as int, b as int)),
            None => word_dimensions(w@) is None,
        },
{
    let (a, b) = strip_bounds(w);
    let c = text::slice_to_vec(w, a, b);
    proof {
        text::lemma_index_of(c@, 'x');
    }
    match text::find_char(c.as_slice(), 'x') {
        Some(i) => {
            let left = text::slice_to_vec(c.as_slice(), 0, i);
            let right = text::slice_to_vec(c.as_slice(), i + 1, c.len());
            assert(left@ == c@.take(i as int));
            assert(right@ == c@.skip(i + 1));
            match (text::parse_i32(left.as_slice()), text::parse_i32(right.as_slice())) {
                (Some(x), Some(y)) => if 1 <= x && x <= 16384 && 1 <= y && y <= 16384 {
                    Some((x, y))
                } else {
                    None
                },
                _ => None,
            }
        },
        None => None,
    }
}

/// Reads the frame size out of a download label such as `3840x2160 mp4 file`.
pub fn parse_dimensions(label: &str) -> (r: Option<(i32, i32)>)
    ensures
        match r {
            Some((a, b)) => text_dimensions(label@) == Some((a as int, b as int)),
            None => text_dimensions(label@) is None,
        },
{
    let chars = text::chars_of(label);
    let ws = text::split_words(chars.as_slice());
    let ghost wv = text::views(ws@);
    let mut i: usize = 0;
    assert(wv.skip(0) == wv);
    while i < ws.len()
        invariant
            i <= ws@.len(),
            wv == text::views(ws@),
            wv == text::words(chars@),
            chars@ == label@,
            first_dimensions(wv) == first_dimensions(wv.skip(i as int)),
        decreases ws@.len() - i,
    {
        assert(wv.skip(i as int)[0] == ws@[i as int]@);
        match word_dimensions_exec(ws[i].as_slice()) {
            Some(d) => {
                assert(first_dimensions(wv.skip(i as int)) == Some((d.0 as int, d.1 as int)));
                assert(text_dimensions(label@) == first_dimensions(wv));
                return Some((d.0, d.1));
            },
            None => {
                assert(wv.skip(i as int).drop_first() == wv.skip(i + 1));
            },
        }
        i = i + 1;
    }
    None
}

// ---------------------------------------------------------------------------
// Source ids
// ---------------------------------------------------------------------------

pub open spec fn alnum_only(s: Seq<char>) -> Seq<char>
    decreases s.len(),
{
    if s.len() == 0 {
        s
    } else if text::is_alnum(s.last()) {
        alnum_only(s.drop_last()).push(s.last())
    } else {
        alnum_only(s.drop_last())
    }
}

/// The id under which a download is cached: `{id}-{quality}`, the quality kept to its
/// lowercase ASCII letters and digits, `hd` when none are left.
pub open spec fn download_source_id(id: Seq<char>, quality: Seq<char>) -> Seq<char> {
    let q = text::lower_seq(alnum_only(quality));
    id + seq!['-'] + (if q.len() == 0 {
        "hd"@
    } else {
        q
    })
}

pub fn motionbgs_download_source_id(wallpaper: &MotionBgsWallpaper) -> (r: String)
    ensures
        r@ == download_source_id(wallpaper.id@, wallpaper.quality@),
{
    let q = text::chars_of(wallpaper.quality.as_str());
    let mut kept: Vec<char> = Vec::new();
    let mut i: usize = 0;
    while i < q.len()
        invariant
            i <= q@.len(),
            kept@ == alnum_only(q@.take(i as int)),
        decreases q@.len() - i,
    {
        assert(q@.take(i + 1).drop_last() == q@.take(i as int));
        if text::char_is_alnum(q[i]) {
            kept.push(q[i]);
        }
        i = i + 1;
    }
    assert(q@.take(q@.len() as int) == q@);
    let lower = text::lower_vec(kept.as_slice());
    let mut out = text::chars_of(wallpaper.id.as_str());
    out.push('-');
    if lower.len() == 0 {
        text::push_str(&mut out, "hd");
    } else {
        text::push_all(&mut out, lower.as_slice());
    }
    text::string_from(out.as_slice())
}


// ---------------------------------------------------------------------------
// Site URLs
// ---------------------------------------------------------------------------

/// The serialization of `reference` (trimmed) resolved against the site root.
pub open spec fn site_url(reference: Seq<char>) -> Option<Seq<char>> {
    match weburl::url_parse("https://motionbgs.com"@) {
        Some(base) => match weburl::url_join(base.3, text::trim_seq(reference)) {
            Some(u) => Some(u.3),
            None => None,
        },
        None => None,
    }
}

pub fn absolute_url(value: &str) -> (r: Option<String>)
    ensures
        text::opt_string_view(r) == site_url(value@),
{
    let base = match weburl::parse_url("https://motionbgs.com") {
        Some(b) => b,
        None => return None,
    };
    let trimmed = text::string_from(text::trim_str(value).as_slice());
    match weburl::join_url(&base, trimmed.as_str()) {
        Some(u) => Some(text::owned(u.as_str())),
        None => None,
    }
}

/// The path segments of a URL text, where it parses and has a path that starts with `/`.
pub open spec fn url_segments(url: Seq<char>) -> Option<Seq<Seq<char>>> {
    match weburl::url_parse(url) {
        Some(p) => weburl::path_segments(p.2),
        None => None,
    }
}

fn segments_of(url: &str) -> (r: Option<Vec<Vec<char>>>)
    ensures
        match r {
            Some(v) => url_segments(url@) == Some(text::views(v@)),
            None => url_segments(url@) is None,
        },
{
    match weburl::parse_url(url) {
        Some(u) => weburl::url_path_segments(&u),
        None => None,
    }
}

pub open spec fn first_nonempty(segs: Seq<Seq<char>>) -> Option<Seq<char>>
    decreases segs.len(),
{
    if segs.len() == 0 {
        None
    } else if segs[0].len() > 0 {
        Some(segs[0])
    } else {
        first_nonempty(segs.drop_first())
    }
}

/// The slug of a page URL: its first non-empty path segment.
pub open spec fn page_slug(url: Seq<char>) -> Option<Seq<char>> {
    match url_segments(url) {
        Some(segs) => first_nonempty(segs),
        None => None,
    }
}

pub fn slug_from_page_url(url: &str) -> (r: Option<String>)
    ensures
        text::opt_string_view(r) == page_slug(url@),
{
    let segs = match segments_of(url) {
        Some(v) => v,
        None => return None,
    };
    let ghost sv = text::views(segs@);
    let mut i: usize = 0;
    assert(sv.skip(0) == sv);
    while i < segs.len()
        invariant
            i <= segs@.len(),
            sv == text::views(segs@),
            first_nonempty(sv) == first_nonempty(sv.skip(i as int)),
            url_segments(url@) == Some(sv),
        decreases segs@.len() - i,
    {
        assert(sv.skip(i as int)[0] == segs@[i as int]@);
        if segs[i].len() > 0 {
            return Some(text::string_from(segs[i].as_slice()));
        }
        assert(sv.skip(i as int).drop_first() == sv.skip(i + 1));
        i = i + 1;
    }
    None
}

pub open spec fn media_id_in(segs: Seq<Seq<char>>) -> Option<Seq<char>>
    decreases segs.len(),
{
    if segs.len() < 2 {
        None
    } else if segs[0] == "media"@ && text::all_digits(segs[1]) {
        Some(segs[1])
    } else {
        media_id_in(segs.drop_first())
    }
}

/// The numeric media id in a URL: the segment after the first `media` segment that
/// is followed by digits only.
pub open spec fn media_id(url: Seq<char>) -> Option<Seq<char>> {
    match url_segments(url) {
        Some(segs) => media_id_in(segs),
        None => None,
    }
}

fn all_digits_exec(s: &[char]) -> (r: bool)
    ensures
        r == text::all_digits(s@),
{
    let mut i: usize = 0;
    while i < s.len()
        invariant
            i <= s@.len(),
            forall|k: int| 0 <= k < i ==> text::is_digit(s@[k]),
        decreases s@.len() - i,
    {
        if !text::char_is_digit(s[i]) {
            return false;
        }
        i = i + 1;
    }
    true
}

pub fn media_id_from_url(url: &str) -> (r: Option<String>)
    ensures
        text::opt_string_view(r) == media_id(url@),
{
    let segs = match segments_of(url) {
        Some(v) => v,
        None => return None,
    };
    let ghost sv = text::views(segs@);
    let mut i: usize = 0;
    assert(sv.skip(0) == sv);
    while segs.len() > 1 && i < segs.len() - 1
        invariant
            i <= segs@.len(),
            url_segments(url@) == Some(sv),
            sv == text::views(segs@),
            media_id_in(sv) == media_id_in(sv.skip(i as int)),
        decreases segs@.len() - i,
    {
        assert(sv.skip(i as int)[0] == segs@[i as int]@);
        assert(sv.skip(i as int)[1] == segs@[i + 1]@);
        if text::chars_eq_str(segs[i].as_slice(), "media") && all_digits_exec(segs[i + 1].as_slice()) {
            return Some(text::string_from(segs[i + 1].as_slice()));
        }
        assert(sv.skip(i as int).drop_first() == sv.skip(i + 1));
        i = i + 1;
    }
    None
}

/// The id in a download URL `/dl/{quality}/{id}/...`.
pub open spec fn download_id(url: Seq<char>) -> Option<Seq<char>> {
    match url_segments(url) {
        Some(segs) => if segs.len() >= 3 && segs[0] == "dl"@ {
            Some(segs[2])
        } else {
            None
        },
        None => None,
    }
}

pub fn id_from_download_url(url: &str) -> (r: Option<String>)
    ensures
        text::opt_string_view(r) == download_id(url@),
{
    let segs = match segments_of(url) {
        Some(v) => v,
        None => return None,
    };
    assert(segs@.len() >= 1 ==> text::views(segs@)[0] == segs@[0]@);
    if segs.len() >= 3 && text::chars_eq_str(segs[0].as_slice(), "dl") {
        assert(text::views(segs@)[2] == segs@[2]@);
        Some(text::string_from(segs[2].as_slice()))
    } else {
        None
    }
}

/// The quality label of a download URL: `4K` for `/dl/4k/...`, `HD` for `/dl/hd/...`.
pub open spec fn download_quality(url: Seq<char>) -> Option<Seq<char>> {
    match url_segments(url) {
        Some(segs) => if segs.len() >= 2 && segs[1] == "4k"@ {
            Some("4K"@)
        } else if segs.len() >= 2 && segs[1] == "hd"@ {
            Some("HD"@)
        } else {
            None
        },
        None => None,
    }
}

pub fn download_quality_from_url(url: &str) -> (r: Option<String>)
    ensures
        text::opt_string_view(r) == download_quality(url@),
{
    let segs = match segments_of(url) {
        Some(v) => v,
        None => return None,
    };
    if segs.len() < 2 {
        return None;
    }
    assert(text::views(segs@)[1] == segs@[1]@);
    if text::chars_eq_str(segs[1].as_slice(), "4k") {
        Some(text::owned("4K"))
    } else if text::chars_eq_str(segs[1].as_slice(), "hd") {
        Some(text::owned("HD"))
    } else {
        None
    }
}

pub open spec fn strip_slash_front(s: Seq<char>) -> Seq<char>
    decreases s.len(),
{
    if s.len() > 0 && s[0] == '/' {
        strip_slash_front(s.drop_first())
    } else {
        s
    }
}

pub open spec fn strip_slash_back(s: Seq<char>) -> Seq<char>
    decreases s.len(),
{
    if s.len() > 0 && s.last() == '/' {
        strip_slash_back(s.drop_last())
    } else {
        s
    }
}

/// A path that starts with `/`, lies outside the site's service areas and has at most
/// one segment once surrounding slashes are removed.
pub open spec fn page_path_allowed(path: Seq<char>) -> bool {
    &&& path.len() > 0 && path[0] == '/'
    &&& !text::has_prefix(path, "/admin/"@)
    &&& !text::has_prefix(path, "/ajax/"@)
    &&& !text::has_prefix(path, "/a2/"@)
    &&& !text::has_prefix(path, "/dl/"@)
    &&& !text::has_prefix(path, "/media/"@)
    &&& !text::has_prefix(path, "/static/"@)
    &&& !text::has_prefix(path, "/i/"@)
    &&& !text::has_prefix(path, "/tag:"@)
    &&& !text::has_prefix(path, "/page/"@)
    &&& text::index_of(strip_slash_back(strip_slash_front(path)), '/') is None
}

/// An https URL on the site host (in any case) whose path names a public page.
pub open spec fn is_page_url(url: Seq<char>) -> bool {
    match weburl::url_parse(url) {
        Some(p) => match p.1 {
            Some(host) => p.0 == "https"@ && text::lower_seq(host) == "motionbgs.com"@
                && page_path_allowed(p.2),
            None => false,
        },
        None => false,
    }
}

fn single_segment(path: &[char]) -> (r: bool)
    ensures
        r == (text::index_of(strip_slash_back(strip_slash_front(path@)), '/') is None),
{
    let mut a: usize = 0;
    assert(path@.skip(0) == path@);
    while a < path.len() && path[a] == '/'
        invariant
            a <= path@.len(),
            strip_slash_front(path@) == strip_slash_front(path@.skip(a as int)),
        decreases path@.len() - a,
    {
        assert(path@.skip(a as int).drop_first() == path@.skip(a + 1));
        a = a + 1;
    }
    let mut b: usize = path.len();
    assert(path@.skip(a as int) == path@.subrange(a as int, path@.len() as int));
    while b > a && path[b - 1] == '/'
        invariant
            a <= b <= path@.len(),
            strip_slash_back(strip_slash_front(path@)) == strip_slash_back(
                path@.subrange(a as int, b as int),
            ),
        decreases b,
    {
        assert(path@.subrange(a as int, b as int).drop_last() == path@.subrange(a as int, b - 1));
        b = b - 1;
    }
    let middle = text::slice_to_vec(path, a, b);
    text::find_char(middle.as_slice(), '/').is_none()
}

fn page_path_allowed_exec(path: &[char]) -> (r: bool)
    ensures
        r == page_path_allowed(path@),
{
    path.len() > 0 && path[0] == '/' && !text::starts_with_str(path, "/admin/")
        && !text::starts_with_str(path, "/ajax/") && !text::starts_with_str(path, "/a2/")
        && !text::starts_with_str(path, "/dl/") && !text::starts_with_str(path, "/media/")
        && !text::starts_with_str(path, "/static/") && !text::starts_with_str(path, "/i/")
        && !text::starts_with_str(path, "/tag:") && !text::starts_with_str(path, "/page/")
        && single_segment(path)
}

fn host_is_site(u: &WebUrl) -> (r: bool)
    ensures
        r == (match u@.1 {
            Some(h) => text::lower_seq(h) == "motionbgs.com"@,
            None => false,
        }),
{
    match u.host() {
        Some(h) => {
            let hc = text::chars_of(h);
            let lower = text::lower_vec(hc.as_slice());
            text::chars_eq_str(lower.as_slice(), "motionbgs.com")
        },
        None => false,
    }
}

pub fn is_motionbgs_page_url(url: &str) -> (r: bool)
    ensures
        r == is_page_url(url@),
{
    let u = match weburl::parse_url(url) {
        Some(u) => u,
        None => return false,
    };
    if !host_is_site(&u) {
        return false;
    }
    let path = text::chars_of(u.path());
    text::chars_eq_str(text::chars_of(u.scheme()).as_slice(), "https") && page_path_allowed_exec(
        path.as_slice(),
    )
}

/// An https URL on the site host whose path is `/dl/hd/{digits}...` or `/dl/4k/{digits}...`.
pub open spec fn is_download_url(url: Seq<char>) -> bool {
    match weburl::url_parse(url) {
        Some(p) => match p.1 {
            Some(host) => {
                let parts = match weburl::path_segments(p.2) {
                    Some(segs) => segs,
                    None => Seq::empty(),
                };
                &&& p.0 == "https"@
                &&& text::lower_seq(host) == "motionbgs.com"@
                &&& parts.len() >= 3
                &&& parts[0] == "dl"@
                &&& (parts[1] == "hd"@ || parts[1] == "4k"@)
                &&& text::all_digits(parts[2])
            },
            None => false,
        },
        None => false,
    }
}

pub fn is_motionbgs_download_url(url: &str) -> (r: bool)
    ensures
        r == is_download_url(url@),
{
    let u = match weburl::parse_url(url) {
        Some(u) => u,
        None => return false,
    };
    if !host_is_site(&u) {
        return false;
    }
    let parts = match weburl::url_path_segments(&u) {
        Some(v) => v,
        None => Vec::new(),
    };
    assert(parts@.len() == 0 ==> text::views(parts@) =~= Seq::<Seq<char>>::empty());
    if !text::chars_eq_str(text::chars_of(u.scheme()).as_slice(), "https") || parts.len() < 3 {
        return false;
    }
    assert(text::views(parts@)[0] == parts@[0]@);
    assert(text::views(parts@)[1] == parts@[1]@);
    assert(text::views(parts@)[2] == parts@[2]@);
    text::chars_eq_str(parts[0].as_slice(), "dl") && (text::chars_eq_str(parts[1].as_slice(), "hd")
        || text::chars_eq_str(parts[1].as_slice(), "4k")) && all_digits_exec(parts[2].as_slice())
}


// ---------------------------------------------------------------------------
// Derived URLs
// ---------------------------------------------------------------------------

/// `str::replace`: every occurrence of `from`, taken from the left without overlap,
/// replaced by `to`.
pub open spec fn replace_all(s: Seq<char>, from: Seq<char>, to: Seq<char>) -> Seq<char>
    decreases s.len(),
{
    if from.len() == 0 || s.len() == 0 {
        s
    } else if text::has_prefix(s, from) {
        to + replace_all(s.skip(from.len() as int), from, to)
    } else {
        seq![s[0]] + replace_all(s.drop_first(), from, to)
    }
}

fn replace_all_exec(s: &[char], from: &[char], to: &[char]) -> (r: Vec<char>)
    requires
        from@.len() > 0,
    ensures
        r@ == replace_all(s@, from@, to@),
{
    let mut out: Vec<char> = Vec::new();
    let mut i: usize = 0;
    assert(s@.skip(0) == s@);
    while i < s.len()
        invariant
            i <= s@.len(),
            from@.len() > 0,
            replace_all(s@, from@, to@) == out@ + replace_all(s@.skip(i as int), from@, to@),
        decreases s@.len() - i,
    {
        let ghost rest = s@.skip(i as int);
        if text::occurs_at_exec(s, from, i) {
            assert(rest.take(from@.len() as int) == s@.subrange(i as int, i + from@.len()));
            assert(rest.skip(from@.len() as int) == s@.skip(i + from@.len()));
            text::push_all(&mut out, to);
            i = i + from.len();
        } else {
            assert(!text::has_prefix(rest, from@)) by {
                if text::has_prefix(rest, from@) {
                    assert(rest.take(from@.len() as int) == s@.subrange(i as int, i + from@.len()));
                }
            }
            assert(rest.drop_first() == s@.skip(i + 1));
            assert(rest[0] == s@[i as int]);
            out.push(s[i]);
            i = i + 1;
        }
    }
    assert(s@.skip(i as int).len() == 0);
    assert(out@ + Seq::<char>::empty() == out@);
    out
}

/// A thumbnail URL of the 364x205 or 546x308 crops rewritten to the 960x540 crop.
pub open spec fn high_resolution(url: Seq<char>) -> Option<Seq<char>> {
    match weburl::url_parse(url) {
        Some(p) => if text::has_prefix(p.2, "/i/c/364x205/media/"@) || text::has_prefix(
            p.2,
            "/i/c/546x308/media/"@,
        ) {
            Some(
                weburl::url_with_path(
                    p.3,
                    replace_all(
                        replace_all(p.2, "/i/c/364x205/media/"@, "/i/c/960x540/media/"@),
                        "/i/c/546x308/media/"@,
                        "/i/c/960x540/media/"@,
                    ),
                ).3,
            )
        } else {
            None
        },
        None => None,
    }
}

pub fn high_resolution_image_url(url: &str) -> (r: Option<String>)
    ensures
        text::opt_string_view(r) == high_resolution(url@),
{
    let u = match weburl::parse_url(url) {
        Some(u) => u,
        None => return None,
    };
    let path = text::chars_of(u.path());
    let small = text::chars_of("/i/c/364x205/media/");
    let medium = text::chars_of("/i/c/546x308/media/");
    let large = text::chars_of("/i/c/960x540/media/");
    if !(text::starts_with(path.as_slice(), small.as_slice()) || text::starts_with(
        path.as_slice(),
        medium.as_slice(),
    )) {
        return None;
    }
    proof {
        reveal_strlit("/i/c/364x205/media/");
        reveal_strlit("/i/c/546x308/media/");
    }
    let once = replace_all_exec(path.as_slice(), small.as_slice(), large.as_slice());
    let twice = replace_all_exec(once.as_slice(), medium.as_slice(), large.as_slice());
    let new_path = text::string_from(twice.as_slice());
    let high = weburl::set_url_path(u, new_path.as_str());
    Some(text::owned(high.as_str()))
}

/// The preview clip that the site keeps for a numeric id and slug.
pub open spec fn inferred_preview(id: Seq<char>, slug: Seq<char>) -> Option<Seq<char>> {
    if !text::all_digits(id) || slug.len() == 0 {
        None
    } else {
        site_url("/media/"@ + id + "/"@ + slug + ".960x540.mp4"@)
    }
}

pub fn inferred_preview_video_url(id: &str, slug: &str) -> (r: Option<String>)
    ensures
        text::opt_string_view(r) == inferred_preview(id@, slug@),
{
    let idc = text::chars_of(id);
    let slugc = text::chars_of(slug);
    if !all_digits_exec(idc.as_slice()) || slugc.len() == 0 {
        return None;
    }
    let mut path: Vec<char> = Vec::new();
    text::push_str(&mut path, "/media/");
    text::push_all(&mut path, idc.as_slice());
    text::push_str(&mut path, "/");
    text::push_str(&mut path, slug);
    text::push_str(&mut path, ".960x540.mp4");
    let p = text::string_from(path.as_slice());
    absolute_url(p.as_str())
}

pub open spec fn route_quality(quality: Seq<char>) -> Option<Seq<char>> {
    if quality == "4K"@ {
        Some("4k"@)
    } else if quality == "HD"@ {
        Some("hd"@)
    } else {
        None
    }
}

/// The download that the site serves for an id at a quality label (`4K` or `HD`).
pub open spec fn inferred_option(id: Seq<char>, quality: Seq<char>) -> Option<DownloadView> {
    match route_quality(quality) {
        Some(rq) => match site_url("/dl/"@ + rq + "/"@ + id + "/"@) {
            Some(u) => Some(
                DownloadView {
                    quality,
                    url: u,
                    width: quality_dimensions(quality).0,
                    height: quality_dimensions(quality).1,
                    file_size: 0,
                },
            ),
            None => None,
        },
        None => None,
    }
}

pub open spec fn opt_seq<A>(o: Option<A>) -> Seq<A> {
    match o {
        Some(x) => seq![x],
        None => Seq::empty(),
    }
}

/// The downloads offered for a listed wallpaper: both renditions for a 4K card, the
/// HD one otherwise, none for an id that is not numeric.
pub open spec fn inferred_downloads(id: Seq<char>, quality: Seq<char>) -> Seq<DownloadView> {
    if !text::all_digits(id) {
        Seq::empty()
    } else if text::eq_ignore_case(quality, "4K"@) {
        opt_seq(inferred_option(id, "4K"@)) + opt_seq(inferred_option(id, "HD"@))
    } else {
        opt_seq(inferred_option(id, "HD"@))
    }
}

pub fn inferred_download_option(id: &str, quality: &str) -> (r: Option<MotionBgsDownloadOption>)
    ensures
        match r {
            Some(d) => inferred_option(id@, quality@) == Some(download_view(d)),
            None => inferred_option(id@, quality@) is None,
        },
{
    let (width, height) = dimensions_for_quality(quality);
    let q = text::chars_of(quality);
    let route = if text::chars_eq_str(q.as_slice(), "4K") {
        "4k"
    } else if text::chars_eq_str(q.as_slice(), "HD") {
        "hd"
    } else {
        return None;
    };
    assert(route_quality(quality@) == Some(route@));
    let mut path: Vec<char> = Vec::new();
    text::push_str(&mut path, "/dl/");
    text::push_str(&mut path, route);
    text::push_str(&mut path, "/");
    text::push_str(&mut path, id);
    text::push_str(&mut path, "/");
    let p = text::string_from(path.as_slice());
    match absolute_url(p.as_str()) {
        Some(url) => Some(
            MotionBgsDownloadOption {
                quality: text::owned(quality),
                url,
                width,
                height,
                file_size: 0,
            },
        ),
        None => None,
    }
}

pub fn inferred_listing_downloads(id: &str, quality: &str) -> (r: Vec<MotionBgsDownloadOption>)
    ensures
        downloads_view(r@) == inferred_downloads(id@, quality@),
{
    let idc = text::chars_of(id);
    let mut out: Vec<MotionBgsDownloadOption> = Vec::new();
    if !all_digits_exec(idc.as_slice()) {
        assert(downloads_view(out@) =~= Seq::<DownloadView>::empty());
        return out;
    }
    let q = text::chars_of(quality);
    let four_k = text::chars_of("4K");
    if text::eq_ignore_ascii_case(q.as_slice(), four_k.as_slice()) {
        match inferred_download_option(id, "4K") {
            Some(d) => out.push(d),
            None => {},
        }
    }
    assert(downloads_view(out@) =~= (if text::eq_ignore_case(quality@, "4K"@) {
        opt_seq(inferred_option(id@, "4K"@))
    } else {
        Seq::<DownloadView>::empty()
    }));
    let ghost before = downloads_view(out@);
    match inferred_download_option(id, "HD") {
        Some(d) => out.push(d),
        None => {},
    }
    assert(downloads_view(out@) =~= before + opt_seq(inferred_option(id@, "HD"@)));
    out
}

/// Checks that a URL (trimmed) parses and names a public page.
pub fn validate_motionbgs_page_url(url: &str) -> (r: Result<WebUrl, String>)
    ensures
        match r {
            Ok(u) => weburl::url_parse(text::trim_seq(url@)) == Some(u@) && is_page_url(u@.3),
            Err(e) => match weburl::url_parse(text::trim_seq(url@)) {
                None => e@ == "Invalid MotionBGS wallpaper URL"@,
                Some(p) => !is_page_url(p.3) && e@ == "Only public MotionBGS wallpaper pages can be fetched"@,
            },
        },
{
    let trimmed = text::string_from(text::trim_str(url).as_slice());
    match weburl::parse_url(trimmed.as_str()) {
        Some(u) => if is_motionbgs_page_url(u.as_str()) {
            Ok(u)
        } else {
            Err(text::owned("Only public MotionBGS wallpaper pages can be fetched"))
        },
        None => Err(text::owned("Invalid MotionBGS wallpaper URL")),
    }
}

/// Checks that a URL (trimmed) parses and names a public MP4 download route.
pub fn validate_motionbgs_download_url(url: &str) -> (r: Result<WebUrl, String>)
    ensures
        match r {
            Ok(u) => weburl::url_parse(text::trim_seq(url@)) == Some(u@) && is_download_url(u@.3),
            Err(e) => match weburl::url_parse(text::trim_seq(url@)) {
                None => e@ == "Invalid MotionBGS download URL"@,
                Some(p) => !is_download_url(p.3) && e@ == "Only public MotionBGS MP4 download URLs can be downloaded"@,
            },
        },
{
    let trimmed = text::string_from(text::trim_str(url).as_slice());
    match weburl::parse_url(trimmed.as_str()) {
        Some(u) => if is_motionbgs_download_url(u.as_str()) {
            Ok(u)
        } else {
            Err(text::owned("Only public MotionBGS MP4 download URLs can be downloaded"))
        },
        None => Err(text::owned("Invalid MotionBGS download URL")),
    }
}


// ---------------------------------------------------------------------------
// Choosing a download
// ---------------------------------------------------------------------------

/// The first download whose quality is `q`.
pub open spec fn quality_index(ds: Seq<DownloadView>, q: Seq<char>) -> Option<int>
    decreases ds.len(),
{
    if ds.len() == 0 {
        None
    } else if ds[0].quality == q {
        Some(0)
    } else {
        match quality_index(ds.drop_first(), q) {
            Some(i) => Some(i + 1),
            None => None,
        }
    }
}

/// The first download whose quality equals `q` ignoring ASCII case.
pub open spec fn quality_index_ci(ds: Seq<DownloadView>, q: Seq<char>) -> Option<int>
    decreases ds.len(),
{
    if ds.len() == 0 {
        None
    } else if text::eq_ignore_case(ds[0].quality, q) {
        Some(0)
    } else {
        match quality_index_ci(ds.drop_first(), q) {
            Some(i) => Some(i + 1),
            None => None,
        }
    }
}

pub proof fn lemma_quality_index(ds: Seq<DownloadView>, q: Seq<char>)
    ensures
        match quality_index(ds, q) {
            Some(i) => 0 <= i < ds.len() && ds[i].quality == q && forall|k: int|
                0 <= k < i ==> ds[k].quality != q,
            None => forall|k: int| 0 <= k < ds.len() ==> ds[k].quality != q,
        },
    decreases ds.len(),
{
    if ds.len() > 0 && ds[0].quality != q {
        lemma_quality_index(ds.drop_first(), q);
        assert forall|k: int| 1 <= k < ds.len() implies ds[k] == ds.drop_first()[k - 1] by {}
    }
}

pub proof fn lemma_quality_index_ci(ds: Seq<DownloadView>, q: Seq<char>)
    ensures
        match quality_index_ci(ds, q) {
            Some(i) => 0 <= i < ds.len() && text::eq_ignore_case(ds[i].quality, q) && forall|k: int|
                0 <= k < i ==> !text::eq_ignore_case(ds[k].quality, q),
            None => forall|k: int| 0 <= k < ds.len() ==> !text::eq_ignore_case(ds[k].quality, q),
        },
    decreases ds.len(),
{
    if ds.len() > 0 && !text::eq_ignore_case(ds[0].quality, q) {
        lemma_quality_index_ci(ds.drop_first(), q);
        assert forall|k: int| 1 <= k < ds.len() implies ds[k] == ds.drop_first()[k - 1] by {}
    }
}

fn find_quality(ds: &Vec<MotionBgsDownloadOption>, q: &[char]) -> (r: Option<usize>)
    ensures
        match r {
            Some(i) => quality_index(downloads_view(ds@), q@) == Some(i as int),
            None => quality_index(downloads_view(ds@), q@) is None,
        },
{
    let ghost dv = downloads_view(ds@);
    proof {
        lemma_quality_index(dv, q@);
    }
    let mut i: usize = 0;
    while i < ds.len()
        invariant
            i <= ds@.len(),
            dv == downloads_view(ds@),
            forall|k: int| 0 <= k < i ==> dv[k].quality != q@,
            match quality_index(dv, q@) {
                Some(j) => 0 <= j < dv.len() && dv[j].quality == q@ && forall|k: int|
                    0 <= k < j ==> dv[k].quality != q@,
                None => forall|k: int| 0 <= k < dv.len() ==> dv[k].quality != q@,
            },
        decreases ds@.len() - i,
    {
        let qi = text::chars_of(ds[i].quality.as_str());
        if text::chars_eq(qi.as_slice(), q) {
            assert(dv[i as int].quality == q@);
            return Some(i);
        }
        i = i + 1;
    }
    None
}

fn find_quality_ci(ds: &Vec<MotionBgsDownloadOption>, q: &[char]) -> (r: Option<usize>)
    ensures
        match r {
            Some(i) => quality_index_ci(downloads_view(ds@), q@) == Some(i as int),
            None => quality_index_ci(downloads_view(ds@), q@) is None,
        },
{
    let ghost dv = downloads_view(ds@);
    proof {
        lemma_quality_index_ci(dv, q@);
    }
    let mut i: usize = 0;
    while i < ds.len()
        invariant
            i <= ds@.len(),
            dv == downloads_view(ds@),
            forall|k: int| 0 <= k < i ==> !text::eq_ignore_case(dv[k].quality, q@),
            match quality_index_ci(dv, q@) {
                Some(j) => 0 <= j < dv.len() && text::eq_ignore_case(dv[j].quality, q@) && forall|
                    k: int,
                | 0 <= k < j ==> !text::eq_ignore_case(dv[k].quality, q@),
                None => forall|k: int| 0 <= k < dv.len() ==> !text::eq_ignore_case(dv[k].quality, q@),
            },
        decreases ds@.len() - i,
    {
        let qi = text::chars_of(ds[i].quality.as_str());
        if text::eq_ignore_ascii_case(qi.as_slice(), q) {
            assert(text::eq_ignore_case(dv[i as int].quality, q@));
            return Some(i);
        }
        i = i + 1;
    }
    None
}

/// The download to fetch: the one at the wallpaper's quality, else the 4K one, else
/// the first.
pub open spec fn preferred_index(ds: Seq<DownloadView>, quality: Seq<char>) -> Option<int> {
    match quality_index(ds, quality) {
        Some(i) => Some(i),
        None => match quality_index(ds, "4K"@) {
            Some(i) => Some(i),
            None => if ds.len() > 0 {
                Some(0)
            } else {
                None
            },
        },
    }
}

pub fn preferred_download(wallpaper: &MotionBgsWallpaper) -> (r: Option<MotionBgsDownloadOption>)
    ensures
        match preferred_index(downloads_view(wallpaper.downloads@), wallpaper.quality@) {
            Some(i) => r is Some && download_view(r->0) == downloads_view(wallpaper.downloads@)[i],
            None => r is None,
        },
{
    let q = text::chars_of(wallpaper.quality.as_str());
    let four_k = text::chars_of("4K");
    let idx = match find_quality(&wallpaper.downloads, q.as_slice()) {
        Some(i) => Some(i),
        None => match find_quality(&wallpaper.downloads, four_k.as_slice()) {
            Some(i) => Some(i),
            None => if wallpaper.downloads.len() > 0 {
                Some(0)
            } else {
                None
            },
        },
    };
    match idx {
        Some(i) => {
            proof {
                lemma_quality_index(downloads_view(wallpaper.downloads@), q@);
                lemma_quality_index(downloads_view(wallpaper.downloads@), "4K"@);
            }
            Some(copy_download(&wallpaper.downloads[i]))
        },
        None => None,
    }
}

// ---------------------------------------------------------------------------
// Reading pages
// ---------------------------------------------------------------------------

/// The value of the `k`-th requested attribute of a matched element.
pub open spec fn attr(n: html::NodeView, k: int) -> Option<Seq<char>> {
    if 0 <= k < n.0.len() {
        n.0[k]
    } else {
        None
    }
}

/// An element's text nodes joined by single spaces.
pub open spec fn joined_text(n: html::NodeView) -> Seq<char> {
    text::join_space(n.1)
}

fn attr_of(n: &HtmlNode, k: usize) -> (r: Option<String>)
    ensures
        text::opt_string_view(r) == attr(html::node_view(*n), k as int),
{
    if k < n.attrs.len() {
        match &n.attrs[k] {
            Some(v) => Some(text::owned(v.as_str())),
            None => None,
        }
    } else {
        None
    }
}

fn joined_text_of(n: &HtmlNode) -> (r: Vec<char>)
    ensures
        r@ == joined_text(html::node_view(*n)),
{
    let mut pieces: Vec<Vec<char>> = Vec::new();
    let mut i: usize = 0;
    while i < n.text.len()
        invariant
            i <= n.text@.len(),
            pieces@.len() == i,
            forall|k: int| 0 <= k < i ==> #[trigger] pieces@[k]@ == n.text@[k]@,
        decreases n.text@.len() - i,
    {
        pieces.push(text::chars_of(n.text[i].as_str()));
        i = i + 1;
    }
    assert(text::views(pieces@) =~= html::node_view(*n).1);
    text::join_words(&pieces)
}

pub open spec fn somes<A>(s: Seq<Option<A>>) -> Seq<A>
    decreases s.len(),
{
    if s.len() == 0 {
        Seq::empty()
    } else {
        somes(s.drop_last()) + opt_seq(s.last())
    }
}

/// The `content` of the first element matching `selector`.
pub open spec fn meta_content_of(page: Seq<char>, selector: Seq<char>) -> Option<Seq<char>> {
    let ns = html::html_select(page, selector, seq!["content"@]);
    if ns.len() > 0 {
        attr(ns[0], 0)
    } else {
        None
    }
}

pub fn meta_content(page: &str, selector: &str) -> (r: Option<String>)
    ensures
        text::opt_string_view(r) == meta_content_of(page@, selector@),
{
    let names = vec!["content"];
    assert(html::strs_view(names@) =~= seq!["content"@]);
    let ns = html::select(page, selector, &names);
    if ns.len() > 0 {
        attr_of(&ns[0], 0)
    } else {
        None
    }
}

/// The `src` of the first `video source[src]` element, resolved against the site.
pub open spec fn video_source(page: Seq<char>) -> Option<Seq<char>> {
    let ns = html::html_select(page, "video source[src]"@, seq!["src"@]);
    if ns.len() > 0 {
        match attr(ns[0], 0) {
            Some(src) => site_url(src),
            None => None,
        }
    } else {
        None
    }
}

pub fn video_source_url(page: &str) -> (r: Option<String>)
    ensures
        text::opt_string_view(r) == video_source(page@),
{
    let names = vec!["src"];
    assert(html::strs_view(names@) =~= seq!["src"@]);
    let ns = html::select(page, "video source[src]", &names);
    if ns.len() > 0 {
        match attr_of(&ns[0], 0) {
            Some(src) => absolute_url(src.as_str()),
            None => None,
        }
    } else {
        None
    }
}

/// A page links to a next page: a `link[rel="next"]`, or a pagination link whose
/// text contains `next` in any ASCII case.
pub open spec fn next_page_linked(page: Seq<char>) -> bool {
    html::html_select(page, "link[rel=\"next\"]"@, Seq::empty()).len() > 0 || exists|i: int|
        #![trigger html::html_select(page, "section.pag a"@, Seq::empty())[i]]
        0 <= i < html::html_select(page, "section.pag a"@, Seq::empty()).len() && text::contains_seq(
            text::lower_seq(joined_text(html::html_select(page, "section.pag a"@, Seq::empty())[i])),
            "next"@,
        )
}

pub fn has_next_page(page: &str) -> (r: bool)
    ensures
        r == next_page_linked(page@),
{
    let none: Vec<&str> = Vec::new();
    assert(html::strs_view(none@) =~= Seq::<Seq<char>>::empty());
    let rel = html::select(page, "link[rel=\"next\"]", &none);
    if rel.len() > 0 {
        return true;
    }
    let links = html::select(page, "section.pag a", &none);
    let ghost lv = html::nodes_view(links@);
    let mut i: usize = 0;
    while i < links.len()
        invariant
            i <= links@.len(),
            lv == html::nodes_view(links@),
            lv == html::html_select(page@, "section.pag a"@, Seq::empty()),
            forall|k: int| 0 <= k < i ==> !text::contains_seq(text::lower_seq(joined_text(lv[k])), "next"@),
        decreases links@.len() - i,
    {
        let t = joined_text_of(&links[i]);
        let lower = text::lower_vec(t.as_slice());
        if text::contains_str(lower.as_slice(), "next") {
            assert(lv[i as int] == html::node_view(links@[i as int]));
            return true;
        }
        assert(lv[i as int] == html::node_view(links@[i as int]));
        i = i + 1;
    }
    false
}

/// Tags with empty ones dropped and later repeats (ignoring ASCII case) removed.
pub open spec fn dedup_tags(ts: Seq<Seq<char>>) -> Seq<Seq<char>>
    decreases ts.len(),
{
    if ts.len() == 0 {
        Seq::empty()
    } else {
        let pre = dedup_tags(ts.drop_last());
        let t = ts.last();
        if t.len() == 0 || exists|j: int| 0 <= j < pre.len() && text::eq_ignore_case(#[trigger] pre[j], t) {
            pre
        } else {
            pre.push(t)
        }
    }
}

pub open spec fn tags_selector() -> Seq<char> {
    "ul.subtags a span, nav.crumb a[href^=\"/tag:\"]"@
}

/// The tags on a detail page: the text of each tag link, trimmed, without repeats.
pub open spec fn page_tags(page: Seq<char>) -> Seq<Seq<char>> {
    let ns = html::html_select(page, tags_selector(), Seq::empty());
    dedup_tags(Seq::new(ns.len(), |i: int| text::trim_seq(joined_text(ns[i]))))
}

pub fn parse_tags(page: &str) -> (r: Vec<String>)
    ensures
        text::strings_view(r@) == page_tags(page@),
{
    let none: Vec<&str> = Vec::new();
    assert(html::strs_view(none@) =~= Seq::<Seq<char>>::empty());
    let ns = html::select(page, "ul.subtags a span, nav.crumb a[href^=\"/tag:\"]", &none);
    let ghost nv = html::nodes_view(ns@);
    let ghost ts = Seq::new(nv.len(), |i: int| text::trim_seq(joined_text(nv[i])));
    let mut out: Vec<String> = Vec::new();
    let mut i: usize = 0;
    while i < ns.len()
        invariant
            i <= ns@.len(),
            nv == html::nodes_view(ns@),
            ts.len() == nv.len(),
            forall|k: int| 0 <= k < ts.len() ==> #[trigger] ts[k] == text::trim_seq(joined_text(nv[k])),
            text::strings_view(out@) == dedup_tags(ts.take(i as int)),
        decreases ns@.len() - i,
    {
        assert(nv[i as int] == html::node_view(ns@[i as int]));
        let t = text::trim(joined_text_of(&ns[i]).as_slice());
        let ghost pre = text::strings_view(out@);
        assert(ts.take(i + 1).drop_last() == ts.take(i as int));
        assert(ts.take(i + 1).last() == t@);
        let mut seen = false;
        let mut j: usize = 0;
        while j < out.len()
            invariant
                j <= out@.len(),
                pre == text::strings_view(out@),
                seen == exists|k: int| 0 <= k < j && text::eq_ignore_case(#[trigger] pre[k], t@),
            decreases out@.len() - j,
        {
            let existing = text::chars_of(out[j].as_str());
            if text::eq_ignore_ascii_case(existing.as_slice(), t.as_slice()) {
                assert(pre[j as int] == existing@);
                seen = true;
            }
            j = j + 1;
        }
        if t.len() > 0 && !seen {
            out.push(text::string_from(t.as_slice()));
            assert(text::strings_view(out@) =~= pre.push(t@));
        }
        i = i + 1;
    }
    assert(ts.take(ns@.len() as int) == ts);
    out
}

/// Every tag is non-empty, and no two tags are equal ignoring ASCII case.
pub proof fn lemma_tags_distinct(ts: Seq<Seq<char>>)
    ensures
        forall|i: int| 0 <= i < dedup_tags(ts).len() ==> #[trigger] dedup_tags(ts)[i].len() > 0,
        forall|i: int, j: int|
            0 <= i < j < dedup_tags(ts).len() ==> !text::eq_ignore_case(
                #[trigger] dedup_tags(ts)[i],
                #[trigger] dedup_tags(ts)[j],
            ),
    decreases ts.len(),
{
    if ts.len() > 0 {
        lemma_tags_distinct(ts.drop_last());
        let pre = dedup_tags(ts.drop_last());
        let t = ts.last();
        if !(t.len() == 0 || exists|j: int| 0 <= j < pre.len() && text::eq_ignore_case(#[trigger] pre[j], t)) {
            let d = pre.push(t);
            assert(dedup_tags(ts) == d);
            assert forall|i: int, j: int| 0 <= i < j < d.len() implies !text::eq_ignore_case(
                #[trigger] d[i],
                #[trigger] d[j],
            ) by {
                if j == d.len() - 1 {
                    assert(d[j] == t);
                    assert(d[i] == pre[i]);
                } else {
                    assert(d[i] == pre[i]);
                    assert(d[j] == pre[j]);
                }
            }
        }
    }
}


// ---------------------------------------------------------------------------
// Listing pages
// ---------------------------------------------------------------------------

pub open spec fn card_selector() -> Seq<char> {
    "div.tmb > a"@
}

pub open spec fn first_attr(ns: Seq<html::NodeView>, k: int) -> Option<Seq<char>> {
    if ns.len() > 0 {
        attr(ns[0], k)
    } else {
        None
    }
}

/// The wallpaper that one listing card shows, where its link names a public page and
/// it has an image: `card` with its `href` and `title`, `images` the card's `img`
/// elements with their `src`, `titles` its `.ttl` and `frames` its `.frm` elements.
pub open spec fn listing_card(
    card: html::NodeView,
    images: Seq<html::NodeView>,
    titles: Seq<html::NodeView>,
    frames: Seq<html::NodeView>,
) -> Option<WallpaperView> {
    match attr(card, 0) {
        None => None,
        Some(href) => match site_url(href) {
            None => None,
            Some(url) => if !is_page_url(url) {
                None
            } else {
                match page_slug(url) {
                    None => None,
                    Some(slug) => match (match first_attr(images, 0) {
                        Some(src) => site_url(src),
                        None => None,
                    }) {
                        None => None,
                        Some(raw_thumbnail) => {
                            let id = match media_id(raw_thumbnail) {
                                Some(i) => i,
                                None => slug,
                            };
                            let thumbnail = match high_resolution(raw_thumbnail) {
                                Some(h) => h,
                                None => raw_thumbnail,
                            };
                            let title_source = if titles.len() > 0 {
                                Some(joined_text(titles[0]))
                            } else {
                                attr(card, 1)
                            };
                            let title = match title_source {
                                Some(t) => if cleaned_title(t).len() > 0 {
                                    cleaned_title(t)
                                } else {
                                    slug_title(slug)
                                },
                                None => slug_title(slug),
                            };
                            let quality = if frames.len() > 0 && text::upper_seq(
                                text::trim_seq(joined_text(frames[0])),
                            ).len() > 0 {
                                text::upper_seq(text::trim_seq(joined_text(frames[0])))
                            } else {
                                "HD"@
                            };
                            Some(
                                WallpaperView {
                                    id,
                                    slug,
                                    title,
                                    url,
                                    thumbnail_url: thumbnail,
                                    preview_video_url: inferred_preview(id, slug),
                                    quality,
                                    width: quality_dimensions(quality).0,
                                    height: quality_dimensions(quality).1,
                                    file_size: 0,
                                    tags: Seq::empty(),
                                    downloads: inferred_downloads(id, quality),
                                },
                            )
                        },
                    },
                }
            },
        },
    }
}

pub open spec fn nth_list(ls: Seq<Seq<html::NodeView>>, i: int) -> Seq<html::NodeView> {
    if 0 <= i < ls.len() {
        ls[i]
    } else {
        Seq::empty()
    }
}

/// The wallpapers of a listing, card by card, from what was matched on the page.
pub open spec fn listing(
    cards: Seq<html::NodeView>,
    images: Seq<Seq<html::NodeView>>,
    titles: Seq<Seq<html::NodeView>>,
    frames: Seq<Seq<html::NodeView>>,
) -> Seq<WallpaperView> {
    somes(
        Seq::new(
            cards.len(),
            |i: int| listing_card(cards[i], nth_list(images, i), nth_list(titles, i), nth_list(frames, i)),
        ),
    )
}

/// The wallpapers listed on a search or feed page.
pub open spec fn page_listing(page: Seq<char>) -> Seq<WallpaperView> {
    listing(
        html::html_select(page, card_selector(), seq!["href"@, "title"@]),
        html::html_select_within(page, card_selector(), "img"@, seq!["src"@]),
        html::html_select_within(page, card_selector(), ".ttl"@, Seq::empty()),
        html::html_select_within(page, card_selector(), ".frm"@, Seq::empty()),
    )
}

pub open spec fn opt_wallpaper_view(o: Option<MotionBgsWallpaper>) -> Option<WallpaperView> {
    match o {
        Some(w) => Some(wallpaper_view(w)),
        None => None,
    }
}

fn first_attr_of(ns: &Vec<HtmlNode>, k: usize) -> (r: Option<String>)
    ensures
        text::opt_string_view(r) == first_attr(html::nodes_view(ns@), k as int),
{
    if ns.len() > 0 {
        attr_of(&ns[0], k)
    } else {
        None
    }
}

fn listing_card_exec(
    card: &HtmlNode,
    images: &Vec<HtmlNode>,
    titles: &Vec<HtmlNode>,
    frames: &Vec<HtmlNode>,
) -> (r: Option<MotionBgsWallpaper>)
    ensures
        opt_wallpaper_view(r) == listing_card(
            html::node_view(*card),
            html::nodes_view(images@),
            html::nodes_view(titles@),
            html::nodes_view(frames@),
        ),
{
    let href = match attr_of(card, 0) {
        Some(h) => h,
        None => return None,
    };
    let url = match absolute_url(href.as_str()) {
        Some(u) => u,
        None => return None,
    };
    if !is_motionbgs_page_url(url.as_str()) {
        return None;
    }
    let slug = match slug_from_page_url(url.as_str()) {
        Some(s) => s,
        None => return None,
    };
    let raw_thumbnail = match first_attr_of(images, 0) {
        Some(src) => match absolute_url(src.as_str()) {
            Some(u) => u,
            None => return None,
        },
        None => return None,
    };
    let id = match media_id_from_url(raw_thumbnail.as_str()) {
        Some(i) => i,
        None => text::owned(slug.as_str()),
    };
    let thumbnail_url = match high_resolution_image_url(raw_thumbnail.as_str()) {
        Some(h) => h,
        None => raw_thumbnail,
    };
    let title_source: Option<Vec<char>> = if titles.len() > 0 {
        assert(html::nodes_view(titles@)[0] == html::node_view(titles@[0]));
        Some(joined_text_of(&titles[0]))
    } else {
        match attr_of(card, 1) {
            Some(t) => Some(text::chars_of(t.as_str())),
            None => None,
        }
    };
    let title = match title_source {
        Some(t) => {
            let cleaned = clean_title(text::string_from(t.as_slice()).as_str());
            if text::chars_of(cleaned.as_str()).len() > 0 {
                cleaned
            } else {
                title_from_slug(slug.as_str())
            }
        },
        None => title_from_slug(slug.as_str()),
    };
    let mut quality_chars: Vec<char> = Vec::new();
    if frames.len() > 0 {
        assert(html::nodes_view(frames@)[0] == html::node_view(frames@[0]));
        let t = text::trim(joined_text_of(&frames[0]).as_slice());
        quality_chars = text::upper_vec(t.as_slice());
    }
    let quality = if quality_chars.len() > 0 {
        text::string_from(quality_chars.as_slice())
    } else {
        text::owned("HD")
    };
    let (width, height) = dimensions_for_quality(quality.as_str());
    let downloads = inferred_listing_downloads(id.as_str(), quality.as_str());
    let preview_video_url = inferred_preview_video_url(id.as_str(), slug.as_str());
    proof {
        let cv = html::node_view(*card);
        let tv = html::nodes_view(titles@);
        let fv = html::nodes_view(frames@);
        let ts = if tv.len() > 0 { Some(joined_text(tv[0])) } else { attr(cv, 1) };
        assert(ts == match title_source { Some(t) => Some(t@), None => None::<Seq<char>> });
        let q = if fv.len() > 0 && text::upper_seq(text::trim_seq(joined_text(fv[0]))).len() > 0 {
            text::upper_seq(text::trim_seq(joined_text(fv[0])))
        } else {
            "HD"@
        };
        assert(quality@ == q);
    }
    let tags: Vec<String> = Vec::new();
    assert(text::strings_view(tags@) =~= Seq::<Seq<char>>::empty());
    Some(
        MotionBgsWallpaper {
            id,
            slug,
            title,
            url,
            thumbnail_url,
            preview_video_url,
            quality,
            width,
            height,
            file_size: 0,
            tags,
            downloads,
        },
    )
}

/// Builds the wallpapers of a listing from the matched cards and, per card, its
/// images, title elements and frame elements.
pub fn listing_from_nodes(
    cards: &Vec<HtmlNode>,
    images: &Vec<Vec<HtmlNode>>,
    titles: &Vec<Vec<HtmlNode>>,
    frames: &Vec<Vec<HtmlNode>>,
) -> (r: Vec<MotionBgsWallpaper>)
    ensures
        wallpapers_view(r@) == listing(
            html::nodes_view(cards@),
            html::node_lists_view(images@),
            html::node_lists_view(titles@),
            html::node_lists_view(frames@),
        ),
{
    let ghost cv = html::nodes_view(cards@);
    let ghost iv = html::node_lists_view(images@);
    let ghost tv = html::node_lists_view(titles@);
    let ghost fv = html::node_lists_view(frames@);
    let ghost all = Seq::new(
        cv.len(),
        |i: int| listing_card(cv[i], nth_list(iv, i), nth_list(tv, i), nth_list(fv, i)),
    );
    let empty: Vec<HtmlNode> = Vec::new();
    assert(html::nodes_view(empty@) =~= Seq::<html::NodeView>::empty());
    let mut out: Vec<MotionBgsWallpaper> = Vec::new();
    let mut i: usize = 0;
    while i < cards.len()
        invariant
            i <= cards@.len(),
            cv == html::nodes_view(cards@),
            iv == html::node_lists_view(images@),
            tv == html::node_lists_view(titles@),
            fv == html::node_lists_view(frames@),
            all.len() == cv.len(),
            forall|k: int| 0 <= k < all.len() ==> #[trigger] all[k] == listing_card(cv[k], nth_list(iv, k), nth_list(tv, k), nth_list(fv, k)),
            html::nodes_view(empty@) == Seq::<html::NodeView>::empty(),
            wallpapers_view(out@) == somes(all.take(i as int)),
        decreases cards@.len() - i,
    {
        let im = if i < images.len() { &images[i] } else { &empty };
        let ti = if i < titles.len() { &titles[i] } else { &empty };
        let fr = if i < frames.len() { &frames[i] } else { &empty };
        assert(html::nodes_view(im@) == nth_list(iv, i as int));
        assert(html::nodes_view(ti@) == nth_list(tv, i as int));
        assert(html::nodes_view(fr@) == nth_list(fv, i as int));
        assert(cv[i as int] == html::node_view(cards@[i as int]));
        let w = listing_card_exec(&cards[i], im, ti, fr);
        assert(all.take(i + 1).drop_last() == all.take(i as int));
        assert(all.take(i + 1).last() == all[i as int]);
        let ghost before = wallpapers_view(out@);
        match w {
            Some(w) => {
                out.push(w);
                assert(wallpapers_view(out@) =~= before + opt_seq(all[i as int]));
            },
            None => {
                assert(before + opt_seq(all[i as int]) =~= before);
            },
        }
        i = i + 1;
    }
    assert(all.take(cards@.len() as int) == all);
    out
}

/// The wallpapers listed on a search or feed page.
pub fn parse_listing_wallpapers(page: &str) -> (r: Vec<MotionBgsWallpaper>)
    ensures
        wallpapers_view(r@) == page_listing(page@),
{
    let card_attrs = vec!["href", "title"];
    let src = vec!["src"];
    let none: Vec<&str> = Vec::new();
    assert(html::strs_view(card_attrs@) =~= seq!["href"@, "title"@]);
    assert(html::strs_view(src@) =~= seq!["src"@]);
    assert(html::strs_view(none@) =~= Seq::<Seq<char>>::empty());
    let cards = html::select(page, "div.tmb > a", &card_attrs);
    let images = html::select_within(page, "div.tmb > a", "img", &src);
    let titles = html::select_within(page, "div.tmb > a", ".ttl", &none);
    let frames = html::select_within(page, "div.tmb > a", ".frm", &none);
    listing_from_nodes(&cards, &images, &titles, &frames)
}


// ---------------------------------------------------------------------------
// Detail pages
// ---------------------------------------------------------------------------

/// The digits and dots that end `s`.
pub open spec fn trailing_number(s: Seq<char>) -> Seq<char>
    decreases s.len(),
{
    if s.len() > 0 && (text::is_digit(s.last()) || s.last() == '.') {
        trailing_number(s.drop_last()).push(s.last())
    } else {
        Seq::empty()
    }
}

/// The number written just before the first `mb` (in any ASCII case) of a download
/// label, as text: the run of digits and dots that ends there.
pub open spec fn size_text_of(label: Seq<char>) -> Option<Seq<char>> {
    let lower = text::lower_seq(label);
    match text::first_occurrence(lower, "mb"@) {
        Some(i) => if trailing_number(lower.take(i)).len() > 0 {
            Some(trailing_number(lower.take(i)))
        } else {
            None
        },
        None => None,
    }
}

/// The megabyte figure of a download label, as text (`14.0` in `4K Wallpaper (14.0Mb)`).
pub fn size_text(label: &str) -> (r: Option<String>)
    ensures
        text::opt_string_view(r) == size_text_of(label@),
{
    let lower = text::lower_vec(text::chars_of(label).as_slice());
    let mb = text::chars_of("mb");
    let i = match text::find(lower.as_slice(), mb.as_slice()) {
        Some(i) => i,
        None => return None,
    };
    proof {
        reveal_strlit("mb");
    }
    assert(i + 2 <= lower@.len());
    let ghost before = lower@.take(i as int);
    let mut start: usize = i;
    while start > 0 && (text::char_is_digit(lower[start - 1]) || lower[start - 1] == '.')
        invariant
            start <= i <= lower@.len(),
            before == lower@.take(i as int),
            trailing_number(before) == trailing_number(lower@.take(start as int)) + lower@.subrange(
                start as int,
                i as int,
            ),
        decreases start,
    {
        assert(lower@.take(start as int).drop_last() == lower@.take(start - 1));
        assert(lower@.take(start as int).last() == lower@[start - 1]);
        assert(lower@.subrange(start - 1, i as int) == seq![lower@[start - 1]] + lower@.subrange(
            start as int,
            i as int,
        ));
        start = start - 1;
    }
    assert(trailing_number(lower@.take(start as int)) == Seq::<char>::empty());
    let run = text::slice_to_vec(lower.as_slice(), start, i);
    assert(trailing_number(before) =~= run@);
    if run.len() > 0 {
        Some(text::string_from(run.as_slice()))
    } else {
        None
    }
}

pub open spec fn links_selector() -> Seq<char> {
    "section.dl a[href^=\"/dl/\"]"@
}

/// The download that one link of a detail page offers, its size in bytes being `size`
/// (0 when unknown).
pub open spec fn link_download(link: html::NodeView, size: Option<i64>) -> Option<DownloadView> {
    match attr(link, 0) {
        Some(href) => match site_url(href) {
            Some(url) => match download_quality(url) {
                Some(quality) => {
                    let dims = match text_dimensions(joined_text(link)) {
                        Some(d) => d,
                        None => quality_dimensions(quality),
                    };
                    Some(
                        DownloadView {
                            quality,
                            url,
                            width: dims.0,
                            height: dims.1,
                            file_size: match size {
                                Some(v) => v as int,
                                None => 0,
                            },
                        },
                    )
                },
                None => None,
            },
            None => None,
        },
        None => None,
    }
}

pub open spec fn size_at(sizes: Seq<Option<i64>>, i: int) -> Option<i64> {
    if 0 <= i < sizes.len() {
        sizes[i]
    } else {
        None
    }
}

pub open spec fn downloads_from(links: Seq<html::NodeView>, sizes: Seq<Option<i64>>) -> Seq<DownloadView> {
    somes(Seq::new(links.len(), |i: int| link_download(links[i], size_at(sizes, i))))
}

pub open spec fn download_links(page: Seq<char>) -> Seq<html::NodeView> {
    html::html_select(page, links_selector(), seq!["href"@])
}

/// The downloads of a detail page; `sizes[i]` is the size in bytes read from the
/// label of its `i`-th download link.
pub open spec fn page_downloads(page: Seq<char>, sizes: Seq<Option<i64>>) -> Seq<DownloadView> {
    downloads_from(download_links(page), sizes)
}

/// The labels of the download links of a detail page, in order.
pub open spec fn link_labels(page: Seq<char>) -> Seq<Seq<char>> {
    Seq::new(download_links(page).len(), |i: int| joined_text(download_links(page)[i]))
}

pub fn download_link_labels(page: &str) -> (r: Vec<String>)
    ensures
        text::strings_view(r@) == link_labels(page@),
{
    let names = vec!["href"];
    assert(html::strs_view(names@) =~= seq!["href"@]);
    let links = html::select(page, "section.dl a[href^=\"/dl/\"]", &names);
    let ghost lv = html::nodes_view(links@);
    let mut out: Vec<String> = Vec::new();
    let mut i: usize = 0;
    while i < links.len()
        invariant
            i <= links@.len(),
            lv == html::nodes_view(links@),
            lv == download_links(page@),
            out@.len() == i,
            forall|k: int| 0 <= k < i ==> #[trigger] out@[k]@ == joined_text(lv[k]),
        decreases links@.len() - i,
    {
        assert(lv[i as int] == html::node_view(links@[i as int]));
        let t = joined_text_of(&links[i]);
        out.push(text::string_from(t.as_slice()));
        i = i + 1;
    }
    assert(text::strings_view(out@) =~= link_labels(page@));
    out
}

fn link_download_exec(link: &HtmlNode, size: Option<i64>) -> (r: Option<MotionBgsDownloadOption>)
    ensures
        match r {
            Some(d) => link_download(html::node_view(*link), size) == Some(download_view(d)),
            None => link_download(html::node_view(*link), size) is None,
        },
{
    let href = match attr_of(link, 0) {
        Some(h) => h,
        None => return None,
    };
    let url = match absolute_url(href.as_str()) {
        Some(u) => u,
        None => return None,
    };
    let quality = match download_quality_from_url(url.as_str()) {
        Some(q) => q,
        None => return None,
    };
    let label = text::string_from(joined_text_of(link).as_slice());
    let (fw, fh) = dimensions_for_quality(quality.as_str());
    let (width, height) = match parse_dimensions(label.as_str()) {
        Some(d) => d,
        None => (fw, fh),
    };
    let file_size: i64 = match size {
        Some(v) => v,
        None => 0,
    };
    Some(MotionBgsDownloadOption { quality, url, width, height, file_size })
}

pub fn downloads_from_links(links: &Vec<HtmlNode>, sizes: &Vec<Option<i64>>) -> (r: Vec<MotionBgsDownloadOption>)
    ensures
        downloads_view(r@) == downloads_from(html::nodes_view(links@), sizes@),
{
    let ghost lv = html::nodes_view(links@);
    let ghost all = Seq::new(lv.len(), |i: int| link_download(lv[i], size_at(sizes@, i)));
    let mut out: Vec<MotionBgsDownloadOption> = Vec::new();
    let mut i: usize = 0;
    while i < links.len()
        invariant
            i <= links@.len(),
            lv == html::nodes_view(links@),
            all.len() == lv.len(),
            forall|k: int| 0 <= k < all.len() ==> #[trigger] all[k] == link_download(lv[k], size_at(sizes@, k)),
            downloads_view(out@) == somes(all.take(i as int)),
        decreases links@.len() - i,
    {
        let size = if i < sizes.len() { sizes[i] } else { None };
        assert(lv[i as int] == html::node_view(links@[i as int]));
        let d = link_download_exec(&links[i], size);
        assert(all.take(i + 1).drop_last() == all.take(i as int));
        let ghost before = downloads_view(out@);
        match d {
            Some(d) => {
                out.push(d);
                assert(downloads_view(out@) =~= before + opt_seq(all[i as int]));
            },
            None => {
                assert(before + opt_seq(all[i as int]) =~= before);
            },
        }
        i = i + 1;
    }
    assert(all.take(links@.len() as int) == all);
    out
}

/// The downloads of a detail page, `sizes` holding the byte sizes of its links' labels.
pub fn parse_downloads(page: &str, sizes: &Vec<Option<i64>>) -> (r: Vec<MotionBgsDownloadOption>)
    ensures
        downloads_view(r@) == page_downloads(page@, sizes@),
{
    let names = vec!["href"];
    assert(html::strs_view(names@) =~= seq!["href"@]);
    let links = html::select(page, "section.dl a[href^=\"/dl/\"]", &names);
    downloads_from_links(&links, sizes)
}

pub open spec fn or_else<A>(o: Option<A>, d: A) -> A {
    match o {
        Some(x) => x,
        None => d,
    }
}

pub open spec fn site_url_of(o: Option<Seq<char>>) -> Option<Seq<char>> {
    match o {
        Some(v) => site_url(v),
        None => None,
    }
}

/// The quality chosen on a detail page: the download whose quality matches the listed
/// one ignoring ASCII case, else the 4K one, else the first; the listed quality when
/// the page offers none.
pub open spec fn detail_quality_index(ds: Seq<DownloadView>, listed: Seq<char>) -> Option<int> {
    match quality_index_ci(ds, text::upper_seq(listed)) {
        Some(i) => Some(i),
        None => match quality_index(ds, "4K"@) {
            Some(i) => Some(i),
            None => if ds.len() > 0 {
                Some(0)
            } else {
                None
            },
        },
    }
}

/// A wallpaper as its detail page describes it, `fallback` (the listed wallpaper)
/// filling in what the page leaves out, and `sizes` the byte sizes of the download
/// link labels.
pub open spec fn detail_wallpaper(page: Seq<char>, fallback: WallpaperView, sizes: Seq<Option<i64>>) -> WallpaperView {
    let title = match meta_content_of(page, "meta[property=\"og:title\"]"@) {
        Some(t) => if cleaned_title(t).len() > 0 {
            cleaned_title(t)
        } else {
            fallback.title
        },
        None => fallback.title,
    };
    let url = or_else(site_url_of(meta_content_of(page, "meta[property=\"og:url\"]"@)), fallback.url);
    let slug = or_else(page_slug(url), fallback.slug);
    let thumbnail = or_else(
        site_url_of(meta_content_of(page, "meta[property=\"og:image\"]"@)),
        fallback.thumbnail_url,
    );
    let preview = match site_url_of(meta_content_of(page, "meta[property=\"og:video\"]"@)) {
        Some(u) => Some(u),
        None => match video_source(page) {
            Some(u) => Some(u),
            None => fallback.preview_video_url,
        },
    };
    let downloads = page_downloads(page, sizes);
    let quality = match detail_quality_index(downloads, fallback.quality) {
        Some(i) => downloads[i].quality,
        None => fallback.quality,
    };
    let chosen = quality_index(downloads, quality);
    let id = match (if downloads.len() > 0 {
        download_id(downloads[0].url)
    } else {
        None
    }) {
        Some(i) => i,
        None => or_else(media_id(thumbnail), fallback.id),
    };
    WallpaperView {
        id,
        slug,
        title,
        url,
        thumbnail_url: thumbnail,
        preview_video_url: preview,
        quality,
        width: match chosen {
            Some(i) => downloads[i].width,
            None => fallback.width,
        },
        height: match chosen {
            Some(i) => downloads[i].height,
            None => fallback.height,
        },
        file_size: match chosen {
            Some(i) => downloads[i].file_size,
            None => fallback.file_size,
        },
        tags: page_tags(page),
        downloads,
    }
}

/// Upper-casing a text does not change what it equals ignoring ASCII case.
proof fn lemma_upper_keeps_case_class(x: Seq<char>, q: Seq<char>)
    ensures
        text::eq_ignore_case(x, text::upper_seq(q)) == text::eq_ignore_case(x, q),
{
    assert forall|i: int| 0 <= i < q.len() implies text::ascii_lower(text::ascii_upper(q[i]))
        == text::ascii_lower(q[i]) by {
        let c = q[i];
        if 'a' <= c && c <= 'z' {
            assert(text::ascii_upper(c) as u32 == (c as u32) - 32);
        }
    }
    assert(text::lower_seq(text::upper_seq(q)) =~= text::lower_seq(q));
}

/// What a detail page chooses: when the page offers the listed quality (ignoring
/// ASCII case), the chosen quality is that one; a 4K download is chosen only when the
/// listed quality is not offered; without downloads the listed quality stays; and the
/// size is that of the first download of the chosen quality.
pub proof fn lemma_detail_prefers_listed_quality(page: Seq<char>, fallback: WallpaperView, sizes: Seq<Option<i64>>)
    ensures
        ({
            let w = detail_wallpaper(page, fallback, sizes);
            let ds = w.downloads;
            &&& (exists|k: int| 0 <= k < ds.len() && text::eq_ignore_case(ds[k].quality, fallback.quality))
                ==> (text::eq_ignore_case(w.quality, fallback.quality) && exists|k: int|
                0 <= k < ds.len() && ds[k].quality == w.quality)
            &&& ((forall|k: int| 0 <= k < ds.len() ==> !text::eq_ignore_case(ds[k].quality, fallback.quality))
                && (exists|k: int| 0 <= k < ds.len() && ds[k].quality == "4K"@)) ==> w.quality == "4K"@
            &&& (w.quality == "4K"@ && !text::eq_ignore_case("4K"@, fallback.quality)) ==> forall|k: int|
                0 <= k < ds.len() ==> !text::eq_ignore_case(ds[k].quality, fallback.quality)
            &&& ds.len() == 0 ==> w.quality == fallback.quality
            &&& forall|k: int|
                0 <= k < ds.len() && ds[k].quality == w.quality && (forall|j: int| 0 <= j < k ==> ds[j].quality
                    != w.quality) ==> w.width == ds[k].width && w.height == ds[k].height && w.file_size
                    == ds[k].file_size
        }),
{
    let w = detail_wallpaper(page, fallback, sizes);
    let ds = w.downloads;
    let up = text::upper_seq(fallback.quality);
    lemma_quality_index_ci(ds, up);
    lemma_quality_index(ds, "4K"@);
    lemma_quality_index(ds, w.quality);
    assert forall|k: int| 0 <= k < ds.len() implies text::eq_ignore_case(ds[k].quality, up)
        == text::eq_ignore_case(ds[k].quality, fallback.quality) by {
        lemma_upper_keeps_case_class(ds[k].quality, fallback.quality);
    }
    match quality_index_ci(ds, up) {
        Some(i) => {
            assert(w.quality == ds[i].quality);
            lemma_upper_keeps_case_class(ds[i].quality, fallback.quality);
        },
        None => {},
    }
    assert forall|k: int|
        0 <= k < ds.len() && ds[k].quality == w.quality && (forall|j: int| 0 <= j < k ==> ds[j].quality
            != w.quality) implies w.width == ds[k].width && w.height == ds[k].height && w.file_size
            == ds[k].file_size by {
        match quality_index(ds, w.quality) {
            Some(i) => {
                if i < k {
                    assert(ds[i].quality == w.quality);
                } else if k < i {
                    assert(ds[k].quality != w.quality);
                }
            },
            None => {
                assert(ds[k].quality != w.quality);
            },
        }
    }
}

fn copy_strings(v: &Vec<String>) -> (r: Vec<String>)
    ensures
        text::strings_view(r@) == text::strings_view(v@),
{
    let mut out: Vec<String> = Vec::new();
    let mut i: usize = 0;
    while i < v.len()
        invariant
            i <= v@.len(),
            out@.len() == i,
            forall|k: int| 0 <= k < i ==> #[trigger] out@[k]@ == v@[k]@,
        decreases v@.len() - i,
    {
        out.push(text::owned(v[i].as_str()));
        i = i + 1;
    }
    assert(text::strings_view(out@) =~= text::strings_view(v@));
    out
}

/// Reads a detail page over the listed wallpaper `fallback`.
pub fn parse_detail_wallpaper(page: &str, fallback: &MotionBgsWallpaper, sizes: &Vec<Option<i64>>) -> (r: Result<MotionBgsWallpaper, String>)
    ensures
        r is Ok,
        r matches Ok(w) ==> wallpaper_view(w) == detail_wallpaper(page@, wallpaper_view(*fallback), sizes@),
        r matches Ok(w) ==> ((exists|k: int| 0 <= k < w.downloads@.len() && text::eq_ignore_case(
            #[trigger] w.downloads@[k].quality@,
            fallback.quality@,
        )) ==> text::eq_ignore_case(w.quality@, fallback.quality@)),
{
    let ghost fb = wallpaper_view(*fallback);
    proof {
        lemma_detail_prefers_listed_quality(page@, fb, sizes@);
    }
    let title = match meta_content(page, "meta[property=\"og:title\"]") {
        Some(t) => {
            let c = clean_title(t.as_str());
            if text::chars_of(c.as_str()).len() > 0 {
                c
            } else {
                text::owned(fallback.title.as_str())
            }
        },
        None => text::owned(fallback.title.as_str()),
    };
    let url = match meta_content(page, "meta[property=\"og:url\"]") {
        Some(v) => match absolute_url(v.as_str()) {
            Some(u) => u,
            None => text::owned(fallback.url.as_str()),
        },
        None => text::owned(fallback.url.as_str()),
    };
    let slug = match slug_from_page_url(url.as_str()) {
        Some(s) => s,
        None => text::owned(fallback.slug.as_str()),
    };
    let thumbnail_url = match meta_content(page, "meta[property=\"og:image\"]") {
        Some(v) => match absolute_url(v.as_str()) {
            Some(u) => u,
            None => text::owned(fallback.thumbnail_url.as_str()),
        },
        None => text::owned(fallback.thumbnail_url.as_str()),
    };
    let og_video = match meta_content(page, "meta[property=\"og:video\"]") {
        Some(v) => absolute_url(v.as_str()),
        None => None,
    };
    let preview_video_url = match og_video {
        Some(u) => Some(u),
        None => match video_source_url(page) {
            Some(u) => Some(u),
            None => match &fallback.preview_video_url {
                Some(p) => Some(text::owned(p.as_str())),
                None => None,
            },
        },
    };
    let downloads = parse_downloads(page, sizes);
    let ghost dv = downloads_view(downloads@);
    let preferred = text::upper_vec(text::chars_of(fallback.quality.as_str()).as_slice());
    let four_k = text::chars_of("4K");
    let qi = match find_quality_ci(&downloads, preferred.as_slice()) {
        Some(i) => Some(i),
        None => match find_quality(&downloads, four_k.as_slice()) {
            Some(i) => Some(i),
            None => if downloads.len() > 0 {
                Some(0)
            } else {
                None
            },
        },
    };
    assert(qi matches Some(i) ==> detail_quality_index(dv, fb.quality) == Some(i as int));
    assert(qi is None ==> detail_quality_index(dv, fb.quality) is None);
    proof {
        lemma_quality_index_ci(dv, text::upper_seq(fb.quality));
        lemma_quality_index(dv, "4K"@);
    }
    let quality = match qi {
        Some(i) => {
            assert(dv[i as int] == download_view(downloads@[i as int]));
            text::owned(downloads[i].quality.as_str())
        },
        None => text::owned(fallback.quality.as_str()),
    };
    let chosen = find_quality(&downloads, text::chars_of(quality.as_str()).as_slice());
    proof {
        lemma_quality_index(dv, quality@);
    }
    let (width, height, file_size) = match chosen {
        Some(i) => {
            assert(dv[i as int] == download_view(downloads@[i as int]));
            (downloads[i].width, downloads[i].height, downloads[i].file_size)
        },
        None => (fallback.width, fallback.height, fallback.file_size),
    };
    let first_id = if downloads.len() > 0 {
        assert(dv[0] == download_view(downloads@[0]));
        id_from_download_url(downloads[0].url.as_str())
    } else {
        None
    };
    let id = match first_id {
        Some(i) => i,
        None => match media_id_from_url(thumbnail_url.as_str()) {
            Some(i) => i,
            None => text::owned(fallback.id.as_str()),
        },
    };
    let tags = parse_tags(page);
    let w = MotionBgsWallpaper {
        id,
        slug,
        title,
        url,
        thumbnail_url,
        preview_video_url,
        quality,
        width,
        height,
        file_size,
        tags,
        downloads,
    };
    proof {
        let wv = downloads_view(w.downloads@);
        assert forall|k: int| 0 <= k < w.downloads@.len() implies #[trigger] w.downloads@[k].quality@
            == wv[k].quality by {}
    }
    Ok(w)
}


// ---------------------------------------------------------------------------
// Searching
// ---------------------------------------------------------------------------

/// The page that a search asks for: 1 when absent, kept within 1 to 100.
pub open spec fn clamped_page(page: Option<u32>) -> u32 {
    match page {
        Some(p) => if p < 1 {
            1
        } else if p > 100 {
            100
        } else {
            p
        },
        None => 1,
    }
}

pub fn search_page(page: Option<u32>) -> (r: u32)
    ensures
        r == clamped_page(page),
{
    match page {
        Some(p) => if p < 1 {
            1
        } else if p > 100 {
            100
        } else {
            p
        },
        None => 1,
    }
}

/// A search without a query (absent or blank) browses a feed.
pub fn is_feed_request(query: Option<&str>) -> (r: bool)
    ensures
        r == (match query {
            Some(q) => text::trim_seq(q@).len() == 0,
            None => true,
        }),
{
    match query {
        Some(q) => text::trim_str(q).len() == 0,
        None => true,
    }
}

/// The URL fetched for a search: `/search?q=...` (with `&page=N` after the first
/// page) when a query is given, else the feed path of the category.
pub open spec fn search_url_of(query: Option<Seq<char>>, category: Option<Seq<char>>, page: nat) -> Result<
    weburl::UrlParts,
    Seq<char>,
> {
    match weburl::url_parse("https://motionbgs.com"@) {
        None => Err("Failed to build MotionBGS URL"@),
        Some(base) => match text::cleaned_value(query) {
            Some(q) => match weburl::url_join(base.3, "/search"@) {
                None => Err("Failed to build MotionBGS search URL"@),
                Some(u) => {
                    let with_query = weburl::url_with_pair(u.3, "q"@, q);
                    Ok(
                        if page > 1 {
                            weburl::url_with_pair(with_query.3, "page"@, text::decimal(page))
                        } else {
                            with_query
                        },
                    )
                },
            },
            None => match weburl::url_join(base.3, feed_path(category, page)) {
                None => Err("Failed to build MotionBGS category URL"@),
                Some(u) => Ok(u),
            },
        },
    }
}

pub fn search_url(query: Option<String>, category: Option<String>, page: u32) -> (r: Result<WebUrl, String>)
    ensures
        search_url_of(text::opt_string_view(query), text::opt_string_view(category), page as nat)
            == match r {
            Ok(u) => Ok::<weburl::UrlParts, Seq<char>>(u@),
            Err(e) => Err(e@),
        },
{
    let base = match weburl::parse_url("https://motionbgs.com") {
        Some(b) => b,
        None => return Err(text::owned("Failed to build MotionBGS URL")),
    };
    match text::clean_query_value(query) {
        Some(q) => {
            let url = match weburl::join_url(&base, "/search") {
                Some(u) => u,
                None => return Err(text::owned("Failed to build MotionBGS search URL")),
            };
            let url = weburl::append_query_pair(url, "q", q.as_str());
            if page > 1 {
                let digits = text::string_from(text::u64_text(page as u64).as_slice());
                Ok(weburl::append_query_pair(url, "page", digits.as_str()))
            } else {
                Ok(url)
            }
        },
        None => {
            let category_ref: Option<&str> = match &category {
                Some(c) => Some(c.as_str()),
                None => None,
            };
            let path = motionbgs_feed_path(category_ref, page);
            match weburl::join_url(&base, path.as_str()) {
                Some(u) => Ok(u),
                None => Err(text::owned("Failed to build MotionBGS category URL")),
            }
        },
    }
}

/// The answer to a search, from the fetched page: its wallpapers, and whether a next
/// page exists (linked from the page, or always after the first page of a feed) for a
/// page that listed anything.
pub fn search_response_from_page(page_html: &str, page: u32, is_feed: bool) -> (r: MotionBgsSearchResponse)
    ensures
        wallpapers_view(r.data@) == page_listing(page_html@),
        r.meta.current_page == page,
        r.meta.has_next_page == ((next_page_linked(page_html@) || (page == 1 && is_feed))
            && page_listing(page_html@).len() > 0),
{
    let data = parse_listing_wallpapers(page_html);
    let linked = has_next_page(page_html);
    let has_next = (linked || (page == 1 && is_feed)) && data.len() > 0;
    MotionBgsSearchResponse { meta: MotionBgsMeta { current_page: page, has_next_page: has_next }, data }
}

/// The rendition to download for a detailed wallpaper, or the error the download
/// fails with when the page offers none.
pub fn select_download(detail: &MotionBgsWallpaper) -> (r: Result<MotionBgsDownloadOption, String>)
    ensures
        match preferred_index(downloads_view(detail.downloads@), detail.quality@) {
            Some(i) => r is Ok && download_view(r->Ok_0) == downloads_view(detail.downloads@)[i],
            None => r is Err && r->Err_0@ == "MotionBGS detail did not expose a downloadable MP4"@,
        },
{
    match preferred_download(detail) {
        Some(d) => Ok(d),
        None => Err(text::owned("MotionBGS detail did not expose a downloadable MP4")),
    }
}

/// A downloaded body is accepted as a video when its content type names MP4.
pub fn is_mp4_content_type(content_type: &str) -> (r: bool)
    ensures
        r == text::contains_seq(text::lower_seq(content_type@), "video/mp4"@),
{
    let lower = text::lower_vec(text::chars_of(content_type).as_slice());
    text::contains_str(lower.as_slice(), "video/mp4")
}

/// The arguments of a search from the user interface.
#[derive(Debug, Clone)]
pub struct MotionBgsSearchArgs {
    pub query: Option<String>,
    pub category: Option<String>,
    pub page: Option<u32>,
}

/// A wallpaper in the library after a download, with the source id it is filed under.
#[derive(Debug, Clone)]
pub struct DownloadMotionBgsResult {
    pub wallpaper: crate::db::Wallpaper,
    pub source_id: String,
}

/// The search request that a search from the user interface makes.
pub fn search_request_from_args(args: MotionBgsSearchArgs) -> (r: MotionBgsSearchRequest)
    ensures
        r.query == args.query,
        r.category == args.category,
        r.page == args.page,
{
    MotionBgsSearchRequest { query: args.query, category: args.category, page: args.page }
}

/// The library metadata of a downloaded video: the wallpaper's title and
/// thumbnail, the tags `motionbgs`, the rendition's quality and the
/// wallpaper's own tags, the rendition's size, 60 fps, the measured duration,
/// and the source it was filed under.
pub fn motionbgs_metadata(video: &DownloadedMotionBgsVideo, download_source_id: &str, duration_ms: i64) -> (r: crate::db::WallpaperMetadata)
    ensures
        r.title@ == video.wallpaper.title@,
        r.thumbnail_path matches Some(t) && t@ == video.wallpaper.thumbnail_url@,
        text::strings_view(r.tags@) == seq![MOTIONBGS_SOURCE_NAME@, video.download.quality@] + text::strings_view(video.wallpaper.tags@),
        r.width == video.download.width,
        r.height == video.download.height,
        r.fps == 60,
        r.duration_ms == duration_ms,
        r.media_type@ == "video"@,
        r.source matches Some(s) && s@ == MOTIONBGS_SOURCE_NAME@,
        r.source_id matches Some(s) && s@ == download_source_id@,
{
    let mut tags: Vec<String> = Vec::new();
    tags.push(text::owned(MOTIONBGS_SOURCE_NAME));
    tags.push(text::owned(video.download.quality.as_str()));
    let rest = copy_strings(&video.wallpaper.tags);
    let ghost head = text::strings_view(tags@);
    let mut i: usize = 0;
    while i < rest.len()
        invariant
            i <= rest@.len(),
            head.len() == 2,
            text::strings_view(tags@) == head + text::strings_view(rest@).take(i as int),
        decreases rest@.len() - i,
    {
        let ghost before = text::strings_view(tags@);
        tags.push(text::owned(rest[i].as_str()));
        assert(text::strings_view(tags@) == before.push(rest@[i as int]@));
        assert(text::strings_view(rest@).take(i + 1) == text::strings_view(rest@).take(i as int).push(rest@[i as int]@));
        i = i + 1;
    }
    assert(text::strings_view(rest@).take(rest@.len() as int) == text::strings_view(rest@));
    crate::db::WallpaperMetadata {
        title: text::owned(video.wallpaper.title.as_str()),
        thumbnail_path: Some(text::owned(video.wallpaper.thumbnail_url.as_str())),
        tags,
        width: video.download.width,
        height: video.download.height,
        fps: 60,
        duration_ms,
        media_type: text::owned("video"),
        source: Some(text::owned(MOTIONBGS_SOURCE_NAME)),
        source_id: Some(text::owned(download_source_id)),
    }
}

} // verus!
