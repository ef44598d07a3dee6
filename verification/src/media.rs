//! Which files can be wallpapers, and the metadata read from their names.
use crate::paths;
use crate::text;
use vstd::prelude::*;

verus! {

/// Whether a file exists and whether it is a regular file, as read from disk.
#[derive(Clone, Copy, Debug)]
pub struct FileStatus {
    pub exists: bool,
    pub is_file: bool,
}

/// Extensions of the still images that can be set as the desktop wallpaper.
pub open spec fn static_image_extensions() -> Seq<Seq<char>> {
    seq!["jpg"@, "jpeg"@, "png"@, "bmp"@, "webp"@]
}

/// Extensions of the videos that can be played as a live wallpaper.
pub open spec fn video_extensions() -> Seq<Seq<char>> {
    seq!["mp4"@, "mov"@, "m4v"@, "webm"@, "mkv"@, "avi"@, "wmv"@]
}

/// `ext` equals one of `list`, ignoring ASCII case.
pub open spec fn ext_in(ext: Seq<char>, list: Seq<Seq<char>>) -> bool {
    exists|i: int| 0 <= i < list.len() && text::eq_ignore_case(#[trigger] list[i], ext)
}

/// The path's extension is one of `list`, ignoring ASCII case.
pub open spec fn path_ext_in(path: Seq<char>, list: Seq<Seq<char>>) -> bool {
    match paths::extension(path) {
        Some(ext) => ext_in(ext, list),
        None => false,
    }
}

pub open spec fn is_static_image(path: Seq<char>) -> bool {
    path_ext_in(path, static_image_extensions())
}

pub open spec fn is_video(path: Seq<char>) -> bool {
    path_ext_in(path, video_extensions())
}

pub open spec fn is_wallpaper(path: Seq<char>) -> bool {
    is_static_image(path) || is_video(path)
}

fn ext_in_exec(ext: &[char], list: &Vec<&'static str>, Ghost(spec_list): Ghost<Seq<Seq<char>>>) -> (r: bool)
    requires
        list@.len() == spec_list.len(),
        forall|i: int| 0 <= i < list@.len() ==> #[trigger] list@[i]@ == spec_list[i],
    ensures
        r == ext_in(ext@, spec_list),
{
    let mut i: usize = 0;
    while i < list.len()
        invariant
            i <= list@.len(),
            list@.len() == spec_list.len(),
            forall|k: int| 0 <= k < list@.len() ==> #[trigger] list@[k]@ == spec_list[k],
            forall|k: int| 0 <= k < i ==> !text::eq_ignore_case(#[trigger] spec_list[k], ext@),
        decreases list@.len() - i,
    {
        let candidate = text::chars_of(list[i]);
        if text::eq_ignore_ascii_case(candidate.as_slice(), ext) {
            assert(text::eq_ignore_case(spec_list[i as int], ext@));
            return true;
        }
        i = i + 1;
    }
    false
}

/// The extensions of still images that can be the desktop wallpaper.
pub fn static_image_extension_list() -> (r: Vec<&'static str>)
    ensures
        r@.len() == static_image_extensions().len(),
        forall|i: int| 0 <= i < r@.len() ==> #[trigger] r@[i]@ == static_image_extensions()[i],
{
    let r = vec!["jpg", "jpeg", "png", "bmp", "webp"];
    assert(r@[0]@ == "jpg"@);
    r
}

/// The extensions of videos that can be live wallpapers.
pub fn supported_video_extensions() -> (r: Vec<&'static str>)
    ensures
        r@.len() == video_extensions().len(),
        forall|i: int| 0 <= i < r@.len() ==> #[trigger] r@[i]@ == video_extensions()[i],
{
    vec!["mp4", "mov", "m4v", "webm", "mkv", "avi", "wmv"]
}

fn path_ext_in_exec(path: &str, list: &Vec<&'static str>, Ghost(spec_list): Ghost<Seq<Seq<char>>>) -> (r: bool)
    requires
        list@.len() == spec_list.len(),
        forall|i: int| 0 <= i < list@.len() ==> #[trigger] list@[i]@ == spec_list[i],
    ensures
        r == path_ext_in(path@, spec_list),
{
    let p = text::chars_of(path);
    match paths::extension_exec(p.as_slice()) {
        Some(ext) => ext_in_exec(ext.as_slice(), list, Ghost(spec_list)),
        None => false,
    }
}

/// A still image that can be set as the desktop wallpaper (case-insensitive extension).
pub fn is_supported_static_image_path(path: &str) -> (r: bool)
    ensures
        r == is_static_image(path@),
{
    let list = static_image_extension_list();
    path_ext_in_exec(path, &list, Ghost(static_image_extensions()))
}

/// The images the library accepts are exactly the still images.
pub fn is_supported_image_path(path: &str) -> (r: bool)
    ensures
        r == is_static_image(path@),
{
    is_supported_static_image_path(path)
}

/// A video that can be played as a live wallpaper (case-insensitive extension).
pub fn is_supported_video_path(path: &str) -> (r: bool)
    ensures
        r == is_video(path@),
{
    let list = supported_video_extensions();
    path_ext_in_exec(path, &list, Ghost(video_extensions()))
}

/// A still image or a video.
pub fn is_supported_wallpaper_path(path: &str) -> (r: bool)
    ensures
        r == is_wallpaper(path@),
{
    is_supported_static_image_path(path) || is_supported_video_path(path)
}

/// An entry recorded as an image whose file is a still image goes to the
/// desktop wallpaper rather than to the video player.
pub fn should_apply_as_static_wallpaper(media_type: &str, wallpaper_path: &str) -> (r: bool)
    ensures
        r == (media_type@ == "image"@ && is_static_image(wallpaper_path@)),
{
    let m = text::chars_of(media_type);
    text::chars_eq_str(m.as_slice(), "image") && is_supported_static_image_path(wallpaper_path)
}

/// Underscores and hyphens read as spaces.
pub open spec fn dashes_to_spaces(s: Seq<char>) -> Seq<char> {
    s.map_values(|c: char| if c == '_' || c == '-' { ' ' } else { c })
}

/// The title given to an imported file: its stem with `_` and `-` read as spaces
/// and whitespace collapsed; `Imported Video` when the path has no stem.
pub open spec fn title_for_path(path: Seq<char>) -> Seq<char> {
    let raw = match paths::file_stem(path) {
        Some(stem) => stem,
        None => "Imported Video"@,
    };
    text::collapse_ws(dashes_to_spaces(raw))
}

fn dashes_to_spaces_exec(s: &[char]) -> (out: Vec<char>)
    ensures
        out@ == dashes_to_spaces(s@),
{
    let mut out: Vec<char> = Vec::new();
    let mut i: usize = 0;
    while i < s.len()
        invariant
            i <= s@.len(),
            out@ == dashes_to_spaces(s@.take(i as int)),
        decreases s@.len() - i,
    {
        let c = s[i];
        out.push(
            if c == '_' || c == '-' {
                ' '
            } else {
                c
            },
        );
        i = i + 1;
        assert(dashes_to_spaces(s@.take(i as int)) =~= dashes_to_spaces(s@.take(i - 1)).push(
            if c == '_' || c == '-' {
                ' '
            } else {
                c
            },
        ));
    }
    assert(s@.take(s@.len() as int) == s@);
    out
}

pub fn title_from_path(path: &str) -> (r: String)
    ensures
        r@ == title_for_path(path@),
{
    let p = text::chars_of(path);
    let raw = match paths::file_stem_exec(p.as_slice()) {
        Some(stem) => stem,
        None => text::chars_of("Imported Video"),
    };
    let spaced = dashes_to_spaces_exec(raw.as_slice());
    let collapsed = text::collapse_whitespace(spaced.as_slice());
    text::string_from(collapsed.as_slice())
}

/// The tags given to an imported file: `local`, `imported`, then its lowercase
/// extension when it has one.
pub open spec fn tags_for_path(path: Seq<char>) -> Seq<Seq<char>> {
    match paths::extension(path) {
        Some(ext) => seq!["local"@, "imported"@, text::lower_seq(ext)],
        None => seq!["local"@, "imported"@],
    }
}

pub fn tags_from_path(path: &str) -> (r: Vec<String>)
    ensures
        r@.len() == tags_for_path(path@).len(),
        forall|i: int| 0 <= i < r@.len() ==> #[trigger] r@[i]@ == tags_for_path(path@)[i],
{
    let mut tags: Vec<String> = Vec::new();
    tags.push(text::owned("local"));
    tags.push(text::owned("imported"));
    let p = text::chars_of(path);
    if let Some(ext) = paths::extension_exec(p.as_slice()) {
        let lower = text::lower_vec(ext.as_slice());
        tags.push(text::string_from(lower.as_slice()));
    }
    tags
}

/// The message for a video path that does not exist.
pub open spec fn missing_video_message(path: Seq<char>) -> Seq<char> {
    "Selected video file does not exist: "@ + path
}

pub open spec fn not_a_file_message(path: Seq<char>) -> Seq<char> {
    "Selected path is not a file: "@ + path
}

pub open spec fn unsupported_video_message(ext: Seq<char>) -> Seq<char> {
    "Unsupported video format '"@ + ext + "'. Choose MP4, MOV, WebM, MKV, AVI, or WMV."@
}

/// The lowercase extension of a path, empty when it has none.
pub open spec fn lower_extension_or_empty(path: Seq<char>) -> Seq<char> {
    match paths::extension(path) {
        Some(ext) => text::lower_seq(ext),
        None => seq![],
    }
}

/// What `validate_video_file` decides for a path with the given file status.
pub open spec fn video_file_check(path: Seq<char>, status: FileStatus) -> Result<(), Seq<char>> {
    if !status.exists {
        Err(missing_video_message(path))
    } else if !status.is_file {
        Err(not_a_file_message(path))
    } else if !video_extensions().contains(lower_extension_or_empty(path)) {
        Err(unsupported_video_message(lower_extension_or_empty(path)))
    } else {
        Ok(())
    }
}

fn concat3(a: &str, b: &[char], c: &str) -> (r: String)
    ensures
        r@ == a@ + b@ + c@,
{
    let mut v: Vec<char> = Vec::new();
    text::push_str(&mut v, a);
    text::push_all(&mut v, b);
    text::push_str(&mut v, c);
    text::string_from(v.as_slice())
}

/// `prefix` followed by `rest`.
pub fn concat2(prefix: &str, rest: &str) -> (r: String)
    ensures
        r@ == prefix@ + rest@,
{
    let mut v: Vec<char> = Vec::new();
    text::push_str(&mut v, prefix);
    text::push_str(&mut v, rest);
    text::string_from(v.as_slice())
}

/// Checks that a selected video file exists, is a file and has a supported
/// extension. `status` is what the file system reported for `path`.
pub fn validate_video_file(path: &str, status: FileStatus) -> (r: Result<(), String>)
    ensures
        match (r, video_file_check(path@, status)) {
            (Ok(()), Ok(())) => true,
            (Err(m), Err(n)) => m@ == n,
            _ => false,
        },
{
    if !status.exists {
        return Err(concat2("Selected video file does not exist: ", path));
    }
    if !status.is_file {
        return Err(concat2("Selected path is not a file: ", path));
    }
    let p = text::chars_of(path);
    let ext: Vec<char> = match paths::extension_exec(p.as_slice()) {
        Some(e) => text::lower_vec(e.as_slice()),
        None => Vec::new(),
    };
    assert(ext@ == lower_extension_or_empty(path@));
    let list = supported_video_extensions();
    let mut i: usize = 0;
    while i < list.len()
        invariant
            i <= list@.len(),
            list@.len() == video_extensions().len(),
            forall|k: int| 0 <= k < list@.len() ==> #[trigger] list@[k]@ == video_extensions()[k],
            forall|k: int| 0 <= k < i ==> video_extensions()[k] != ext@,
            status.exists,
            status.is_file,
            ext@ == lower_extension_or_empty(path@),
        decreases list@.len() - i,
    {
        if text::chars_eq_str(ext.as_slice(), list[i]) {
            assert(video_extensions()[i as int] == ext@);
            assert(video_extensions().contains(ext@));
            return Ok(());
        }
        i = i + 1;
    }
    assert(!video_extensions().contains(ext@)) by {
        if video_extensions().contains(ext@) {
            let k = choose|k: int| 0 <= k < video_extensions().len() && video_extensions()[k] == ext@;
            assert(video_extensions()[k] != ext@);
        }
    }
    Err(concat3("Unsupported video format '", ext.as_slice(), "'. Choose MP4, MOV, WebM, MKV, AVI, or WMV."))
}

/// What `validate_wallpaper_file` decides for a selected import path.
pub open spec fn wallpaper_file_check(path: Seq<char>, status: FileStatus) -> Result<(), Seq<char>> {
    if is_video(path) {
        video_file_check(path, status)
    } else if !status.exists {
        Err("Selected file does not exist: "@ + path)
    } else if !status.is_file {
        Err(not_a_file_message(path))
    } else if is_static_image(path) {
        Ok(())
    } else {
        Err("Unsupported wallpaper format. Choose a supported image or video file."@)
    }
}

/// Checks a file chosen for import: videos as `validate_video_file` does, other
/// files must exist, be files and be supported still images.
pub fn validate_wallpaper_file(path: &str, status: FileStatus) -> (r: Result<(), String>)
    ensures
        match (r, wallpaper_file_check(path@, status)) {
            (Ok(()), Ok(())) => true,
            (Err(m), Err(n)) => m@ == n,
            _ => false,
        },
{
    if is_supported_video_path(path) {
        return validate_video_file(path, status);
    }
    if !status.exists {
        return Err(concat2("Selected file does not exist: ", path));
    }
    if !status.is_file {
        return Err(concat2("Selected path is not a file: ", path));
    }
    if is_supported_image_path(path) {
        return Ok(());
    }
    Err(text::owned("Unsupported wallpaper format. Choose a supported image or video file."))
}

} // verus!
