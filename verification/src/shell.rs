//! What is handed to the Windows shell: wide strings, Explorer's arguments and
//! how the shell's answer is read.
use crate::text;
use vstd::prelude::*;

verus! {

/// The UTF-16 code units of one character: one unit below U+10000, a
/// surrogate pair above.
pub open spec fn utf16_units(c: char) -> Seq<u16> {
    let u = c as u32;
    if u < 0x10000 {
        seq![u as u16]
    } else {
        seq![
            (0xD800 + (u - 0x10000) / 0x400) as u16,
            (0xDC00 + (u - 0x10000) % 0x400) as u16,
        ]
    }
}

/// The UTF-16 encoding of a character sequence, as `str::encode_utf16` gives it.
pub open spec fn utf16(s: Seq<char>) -> Seq<u16>
    decreases s.len(),
{
    if s.len() == 0 {
        seq![]
    } else {
        utf16(s.drop_last()) + utf16_units(s.last())
    }
}

/// A string as the wide API takes it: its UTF-16 code units and a final NUL.
pub fn encode_wide(s: &str) -> (r: Vec<u16>)
    ensures
        r@ == utf16(s@).push(0u16),
{
    let chars = text::chars_of(s);
    let mut out: Vec<u16> = Vec::new();
    let mut i: usize = 0;
    while i < chars.len()
        invariant
            i <= chars@.len(),
            chars@ == s@,
            out@ == utf16(chars@.take(i as int)),
        decreases chars@.len() - i,
    {
        let c = chars[i];
        let u = c as u32;
        assert(chars@.take(i + 1).drop_last() == chars@.take(i as int));
        if u < 0x10000 {
            out.push(u as u16);
        } else {
            proof {
                vstd::utf8::char_is_scalar(c);
            }
            assert(u <= 0x10FFFF);
            let v = u - 0x10000;
            out.push((0xD800 + v / 0x400) as u16);
            out.push((0xDC00 + v % 0x400) as u16);
        }
        i = i + 1;
    }
    assert(chars@.take(chars@.len() as int) == chars@);
    out.push(0u16);
    out
}

/// Explorer's arguments to open a folder with `path` selected: `/select,"path"`.
pub fn explorer_select_parameters(path: &str) -> (r: String)
    ensures
        r@ == "/select,\""@ + path@ + seq!['"'],
{
    let mut v = text::chars_of("/select,\"");
    text::push_str(&mut v, path);
    v.push('"');
    text::string_from(v.as_slice())
}

/// The shell reports failure with a value of 32 or less.
pub fn shell_execute_outcome(code: isize, failure_message: &str) -> (r: Result<(), String>)
    ensures
        match r {
            Ok(()) => code > 32,
            Err(e) => code <= 32 && e@ == failure_message@,
        },
{
    if code <= 32 {
        Err(text::owned(failure_message))
    } else {
        Ok(())
    }
}

} // verus!
