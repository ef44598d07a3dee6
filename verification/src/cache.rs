//! Names of the files in which downloaded wallpapers are kept.
use crate::text;
use vstd::prelude::*;

verus! {

/// Every character of `s` satisfies `ok`.
pub open spec fn all_chars(s: Seq<char>, ok: spec_fn(char) -> bool) -> bool {
    forall|i: int| 0 <= i < s.len() ==> ok(#[trigger] s[i])
}

pub open spec fn motionbgs_id_char(c: char) -> bool {
    text::is_alnum(c) || c == '-'
}

/// A MotionBGS source id is safe as a file name when, trimmed, it is non-empty and made
/// of ASCII letters, digits and dashes only.
pub open spec fn motionbgs_id_ok(id: Seq<char>) -> bool {
    text::trim_seq(id).len() > 0 && all_chars(text::trim_seq(id), |c: char| motionbgs_id_char(c))
}

pub fn motionbgs_source_id(source_id: &str) -> (r: Result<String, String>)
    ensures
        match r {
            Ok(id) => motionbgs_id_ok(source_id@) && id@ == text::trim_seq(source_id@),
            Err(e) => !motionbgs_id_ok(source_id@) && e@ == "Invalid MotionBGS source id"@,
        },
{
    let t = text::trim_str(source_id);
    let mut ok = t.len() > 0;
    let mut i: usize = 0;
    while i < t.len()
        invariant
            i <= t@.len(),
            ok == (t@.len() > 0 && forall|k: int| 0 <= k < i ==> motionbgs_id_char(#[trigger] t@[k])),
        decreases t@.len() - i,
    {
        if !(text::char_is_alnum(t[i]) || t[i] == '-') {
            ok = false;
        }
        i = i + 1;
    }
    if ok {
        Ok(text::string_from(t.as_slice()))
    } else {
        Err(text::owned("Invalid MotionBGS source id"))
    }
}

/// A Wallhaven source id is safe as a file name when, trimmed, it is non-empty and made
/// of ASCII letters and digits only.
pub open spec fn wallhaven_id_ok(id: Seq<char>) -> bool {
    text::trim_seq(id).len() > 0 && all_chars(text::trim_seq(id), |c: char| text::is_alnum(c))
}

pub fn wallhaven_source_id(source_id: &str) -> (r: Result<String, String>)
    ensures
        match r {
            Ok(id) => wallhaven_id_ok(source_id@) && id@ == text::trim_seq(source_id@),
            Err(e) => !wallhaven_id_ok(source_id@) && e@ == "Invalid Wallhaven source id"@,
        },
{
    let t = text::trim_str(source_id);
    let mut ok = t.len() > 0;
    let mut i: usize = 0;
    while i < t.len()
        invariant
            i <= t@.len(),
            ok == (t@.len() > 0 && forall|k: int| 0 <= k < i ==> text::is_alnum(#[trigger] t@[k])),
        decreases t@.len() - i,
    {
        if !text::char_is_alnum(t[i]) {
            ok = false;
        }
        i = i + 1;
    }
    if ok {
        Ok(text::string_from(t.as_slice()))
    } else {
        Err(text::owned("Invalid Wallhaven source id"))
    }
}

/// The only video format kept from MotionBGS is MP4 (named in any ASCII case).
pub fn motionbgs_video_extension(extension: &str) -> (r: Result<&'static str, String>)
    ensures
        match r {
            Ok(e) => text::lower_seq(extension@) == "mp4"@ && e@ == "mp4"@,
            Err(e) => text::lower_seq(extension@) != "mp4"@ && e@ == "Unsupported MotionBGS video format"@,
        },
{
    let lower = text::lower_vec(text::chars_of(extension).as_slice());
    if text::chars_eq_str(lower.as_slice(), "mp4") {
        Ok("mp4")
    } else {
        Err(text::owned("Unsupported MotionBGS video format"))
    }
}

/// Wallhaven images are kept as `jpg` (for `jpg` or `jpeg`) or `png`, named in any ASCII case.
pub fn wallhaven_image_extension(extension: &str) -> (r: Result<&'static str, String>)
    ensures
        match r {
            Ok(e) => (e@ == "jpg"@ && (text::lower_seq(extension@) == "jpg"@ || text::lower_seq(
                extension@,
            ) == "jpeg"@)) || (e@ == "png"@ && text::lower_seq(extension@) == "png"@),
            Err(e) => text::lower_seq(extension@) != "jpg"@ && text::lower_seq(extension@) != "jpeg"@
                && text::lower_seq(extension@) != "png"@ && e@ == "Unsupported Wallhaven image format"@,
        },
{
    let lower = text::lower_vec(text::chars_of(extension).as_slice());
    if text::chars_eq_str(lower.as_slice(), "jpg") || text::chars_eq_str(lower.as_slice(), "jpeg") {
        Ok("jpg")
    } else if text::chars_eq_str(lower.as_slice(), "png") {
        Ok("png")
    } else {
        Err(text::owned("Unsupported Wallhaven image format"))
    }
}

/// The file name under which a cached download is kept: `{source_id}.{extension}`.
pub fn cache_file_name(source_id: &str, extension: &str) -> (r: String)
    ensures
        r@ == source_id@ + seq!['.'] + extension@,
{
    let mut out = text::chars_of(source_id);
    out.push('.');
    text::push_str(&mut out, extension);
    text::string_from(out.as_slice())
}

} // verus!
