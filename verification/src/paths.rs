//! Windows path names: file name, stem, extension, components and the
//! separator-insensitive comparison the wallpaper library uses.
//!
//! Paths are read the way Windows reads them: `/` and `\` both separate
//! components, a leading drive such as `C:` is a prefix and never a file name,
//! and empty and `.` components are skipped.
use crate::text;
use vstd::prelude::*;

verus! {

pub open spec fn is_sep(c: char) -> bool {
    c == '/' || c == '\\'
}

pub open spec fn is_alpha(c: char) -> bool {
    ('a' <= c && c <= 'z') || ('A' <= c && c <= 'Z')
}

/// The path without a leading drive prefix such as `C:`.
pub open spec fn strip_drive(p: Seq<char>) -> Seq<char> {
    if p.len() >= 2 && is_alpha(p[0]) && p[1] == ':' {
        p.skip(2)
    } else {
        p
    }
}

/// Every separator written as `/`.
pub open spec fn slash_seps(p: Seq<char>) -> Seq<char> {
    p.map_values(|c: char| if is_sep(c) { '/' } else { c })
}

/// Every `/` written as `\`, as Windows prints paths.
pub open spec fn backslash_seps(p: Seq<char>) -> Seq<char> {
    p.map_values(|c: char| if c == '/' { '\\' } else { c })
}

/// The raw pieces between separators, after the drive prefix.
pub open spec fn raw_parts(p: Seq<char>) -> Seq<Seq<char>> {
    text::split_seq(slash_seps(strip_drive(p)), '/')
}

/// Empty pieces and `.` are not components.
pub open spec fn is_trivial_part(s: Seq<char>) -> bool {
    s.len() == 0 || s == seq!['.']
}

pub open spec fn last_component(parts: Seq<Seq<char>>) -> Option<Seq<char>>
    decreases parts.len(),
{
    if parts.len() == 0 {
        None
    } else if is_trivial_part(parts.last()) {
        last_component(parts.drop_last())
    } else {
        Some(parts.last())
    }
}

/// The components of a path: its pieces without empty ones and `.`.
pub open spec fn components(p: Seq<char>) -> Seq<Seq<char>> {
    raw_parts(p).filter(|s: Seq<char>| !is_trivial_part(s))
}

/// `Path::file_name`: the last component, unless it is `..`.
pub open spec fn file_name(p: Seq<char>) -> Option<Seq<char>> {
    match last_component(raw_parts(p)) {
        Some(name) => if name == seq!['.', '.'] {
            None
        } else {
            Some(name)
        },
        None => None,
    }
}

/// The last index of `c` in `s`.
pub open spec fn last_index_of(s: Seq<char>, c: char) -> Option<int>
    decreases s.len(),
{
    if s.len() == 0 {
        None
    } else if s.last() == c {
        Some(s.len() - 1)
    } else {
        last_index_of(s.drop_last(), c)
    }
}

/// The extension of a file name: the text after its last dot, when the dot
/// does not start the name.
pub open spec fn name_extension(name: Seq<char>) -> Option<Seq<char>> {
    match last_index_of(name, '.') {
        Some(i) => if i == 0 {
            None
        } else {
            Some(name.skip(i + 1))
        },
        None => None,
    }
}

/// The stem of a file name: the text before its last dot, or the whole name.
pub open spec fn name_stem(name: Seq<char>) -> Seq<char> {
    match last_index_of(name, '.') {
        Some(i) => if i == 0 {
            name
        } else {
            name.take(i)
        },
        None => name,
    }
}

/// `Path::extension`.
pub open spec fn extension(p: Seq<char>) -> Option<Seq<char>> {
    match file_name(p) {
        Some(name) => name_extension(name),
        None => None,
    }
}

/// `Path::file_stem`.
pub open spec fn file_stem(p: Seq<char>) -> Option<Seq<char>> {
    match file_name(p) {
        Some(name) => Some(name_stem(name)),
        None => None,
    }
}

pub fn strip_drive_exec(p: &[char]) -> (out: Vec<char>)
    ensures
        out@ == strip_drive(p@),
{
    if p.len() >= 2 && (('a' <= p[0] && p[0] <= 'z') || ('A' <= p[0] && p[0] <= 'Z')) && p[1]
        == ':' {
        text::slice_to_vec(p, 2, p.len())
    } else {
        let out = text::slice_to_vec(p, 0, p.len());
        assert(p@.subrange(0, p@.len() as int) == p@);
        out
    }
}

pub fn slash_seps_exec(p: &[char]) -> (out: Vec<char>)
    ensures
        out@ == slash_seps(p@),
{
    let mut out: Vec<char> = Vec::new();
    let mut i: usize = 0;
    while i < p.len()
        invariant
            i <= p@.len(),
            out@ == slash_seps(p@.take(i as int)),
        decreases p@.len() - i,
    {
        let c = p[i];
        out.push(
            if c == '/' || c == '\\' {
                '/'
            } else {
                c
            },
        );
        i = i + 1;
        assert(slash_seps(p@.take(i as int)) =~= slash_seps(p@.take(i - 1)).push(
            if is_sep(c) {
                '/'
            } else {
                c
            },
        ));
    }
    assert(p@.take(p@.len() as int) == p@);
    out
}

pub fn backslash_seps_exec(p: &[char]) -> (out: Vec<char>)
    ensures
        out@ == backslash_seps(p@),
{
    let mut out: Vec<char> = Vec::new();
    let mut i: usize = 0;
    while i < p.len()
        invariant
            i <= p@.len(),
            out@ == backslash_seps(p@.take(i as int)),
        decreases p@.len() - i,
    {
        let c = p[i];
        out.push(
            if c == '/' {
                '\\'
            } else {
                c
            },
        );
        i = i + 1;
        assert(backslash_seps(p@.take(i as int)) =~= backslash_seps(p@.take(i - 1)).push(
            if c == '/' {
                '\\'
            } else {
                c
            },
        ));
    }
    assert(p@.take(p@.len() as int) == p@);
    out
}

fn is_trivial_part_exec(s: &[char]) -> (r: bool)
    ensures
        r == is_trivial_part(s@),
{
    if s.len() == 0 {
        return true;
    }
    if s.len() == 1 && s[0] == '.' {
        assert(s@ =~= seq!['.']);
        return true;
    }
    assert(s@ != seq!['.']) by {
        if s@.len() == 1 {
            assert(s@[0] != '.');
        }
    }
    false
}

fn raw_parts_exec(p: &[char]) -> (out: Vec<Vec<char>>)
    ensures
        text::views(out@) == raw_parts(p@),
{
    let stripped = strip_drive_exec(p);
    let slashed = slash_seps_exec(stripped.as_slice());
    text::split_char(slashed.as_slice(), '/')
}

pub fn file_name_exec(p: &[char]) -> (out: Option<Vec<char>>)
    ensures
        match out {
            Some(v) => file_name(p@) == Some(v@),
            None => file_name(p@) is None,
        },
{
    let parts = raw_parts_exec(p);
    let ghost all = text::views(parts@);
    let mut n = parts.len();
    assert(all.take(n as int) == all);
    while n > 0 && is_trivial_part_exec(parts[n - 1].as_slice())
        invariant
            n <= parts@.len(),
            all == text::views(parts@),
            last_component(all) == last_component(all.take(n as int)),
        decreases n,
    {
        assert(all.take(n as int).drop_last() == all.take(n - 1));
        n = n - 1;
    }
    if n == 0 {
        return None;
    }
    assert(all.take(n as int).last() == parts@[n - 1]@);
    let name = text::slice_to_vec(parts[n - 1].as_slice(), 0, parts[n - 1].len());
    assert(parts@[n - 1]@.subrange(0, parts@[n - 1]@.len() as int) == parts@[n - 1]@);
    if name.len() == 2 && name[0] == '.' && name[1] == '.' {
        assert(name@ =~= seq!['.', '.']);
        return None;
    }
    assert(name@ != seq!['.', '.']) by {
        if name@.len() == 2 {
            assert(name@[0] != '.' || name@[1] != '.');
        }
    }
    Some(name)
}

pub fn last_index_exec(s: &[char], c: char) -> (r: Option<usize>)
    ensures
        match r {
            Some(i) => last_index_of(s@, c) == Some(i as int),
            None => last_index_of(s@, c) is None,
        },
{
    let mut n = s.len();
    assert(s@.take(n as int) == s@);
    while n > 0 && s[n - 1] != c
        invariant
            n <= s@.len(),
            last_index_of(s@, c) == last_index_of(s@.take(n as int), c),
        decreases n,
    {
        assert(s@.take(n as int).drop_last() == s@.take(n - 1));
        n = n - 1;
    }
    if n == 0 {
        assert(s@.take(0) =~= Seq::<char>::empty());
        return None;
    }
    assert(s@.take(n as int).last() == s@[n - 1]);
    Some(n - 1)
}

pub fn name_extension_exec(name: &[char]) -> (out: Option<Vec<char>>)
    ensures
        match out {
            Some(v) => name_extension(name@) == Some(v@),
            None => name_extension(name@) is None,
        },
{
    match last_index_exec(name, '.') {
        Some(i) => {
            if i == 0 {
                None
            } else {
                proof {
                    lemma_last_index_bound(name@, '.');
                }
                assert(i < name.len());
                let ext = text::slice_to_vec(name, i + 1, name.len());
                assert(ext@ == name@.skip(i + 1));
                Some(ext)
            }
        },
        None => None,
    }
}

pub fn name_stem_exec(name: &[char]) -> (out: Vec<char>)
    ensures
        out@ == name_stem(name@),
{
    match last_index_exec(name, '.') {
        Some(i) => {
            proof {
                lemma_last_index_bound(name@, '.');
            }
            if i == 0 {
                let out = text::slice_to_vec(name, 0, name.len());
                assert(name@.subrange(0, name@.len() as int) == name@);
                out
            } else {
                text::slice_to_vec(name, 0, i)
            }
        },
        None => {
            let out = text::slice_to_vec(name, 0, name.len());
            assert(name@.subrange(0, name@.len() as int) == name@);
            out
        },
    }
}

pub proof fn lemma_last_index_bound(s: Seq<char>, c: char)
    ensures
        match last_index_of(s, c) {
            Some(i) => 0 <= i < s.len() && s[i] == c,
            None => true,
        },
    decreases s.len(),
{
    if s.len() > 0 && s.last() != c {
        lemma_last_index_bound(s.drop_last(), c);
    }
}

pub fn extension_exec(p: &[char]) -> (out: Option<Vec<char>>)
    ensures
        match out {
            Some(v) => extension(p@) == Some(v@),
            None => extension(p@) is None,
        },
{
    match file_name_exec(p) {
        Some(name) => name_extension_exec(name.as_slice()),
        None => None,
    }
}

pub fn file_stem_exec(p: &[char]) -> (out: Option<Vec<char>>)
    ensures
        match out {
            Some(v) => file_stem(p@) == Some(v@),
            None => file_stem(p@) is None,
        },
{
    match file_name_exec(p) {
        Some(name) => Some(name_stem_exec(name.as_slice())),
        None => None,
    }
}

/// The components of a path, as character vectors.
pub fn components_exec(p: &[char]) -> (out: Vec<Vec<char>>)
    ensures
        text::views(out@) == components(p@),
{
    let parts = raw_parts_exec(p);
    let ghost all = text::views(parts@);
    let mut out: Vec<Vec<char>> = Vec::new();
    let mut i: usize = 0;
    while i < parts.len()
        invariant
            i <= parts@.len(),
            all == text::views(parts@),
            text::views(out@) == all.take(i as int).filter(|s: Seq<char>| !is_trivial_part(s)),
        decreases parts@.len() - i,
    {
        assert(all.take(i + 1).drop_last() == all.take(i as int));
        assert(all.take(i + 1).last() == parts@[i as int]@);
        reveal_with_fuel(Seq::<_>::filter, 1);
        if !is_trivial_part_exec(parts[i].as_slice()) {
            let ghost before = text::views(out@);
            let piece = text::slice_to_vec(parts[i].as_slice(), 0, parts[i].len());
            assert(parts@[i as int]@.subrange(0, parts@[i as int]@.len() as int)
                == parts@[i as int]@);
            out.push(piece);
            assert(text::views(out@) =~= before.push(parts@[i as int]@));
        }
        i = i + 1;
    }
    assert(all.take(parts@.len() as int) == all);
    out
}

/// Two component lists are equal.
pub fn components_eq(a: &Vec<Vec<char>>, b: &Vec<Vec<char>>) -> (r: bool)
    ensures
        r == (text::views(a@) == text::views(b@)),
{
    if a.len() != b.len() {
        assert(text::views(a@).len() != text::views(b@).len());
        return false;
    }
    let mut i: usize = 0;
    while i < a.len()
        invariant
            a@.len() == b@.len(),
            i <= a@.len(),
            forall|k: int| 0 <= k < i ==> a@[k]@ == b@[k]@,
        decreases a@.len() - i,
    {
        if !text::chars_eq(a[i].as_slice(), b[i].as_slice()) {
            assert(text::views(a@)[i as int] != text::views(b@)[i as int]);
            return false;
        }
        i = i + 1;
    }
    assert(text::views(a@) =~= text::views(b@));
    true
}

/// The first component list begins with the second, as `Path::starts_with` reads it.
pub fn components_start_with(a: &Vec<Vec<char>>, b: &Vec<Vec<char>>) -> (r: bool)
    ensures
        r == (text::views(b@).len() <= text::views(a@).len() && text::views(a@).take(text::views(b@).len() as int)
            == text::views(b@)),
{
    if b.len() > a.len() {
        return false;
    }
    let mut i: usize = 0;
    while i < b.len()
        invariant
            b@.len() <= a@.len(),
            i <= b@.len(),
            forall|k: int| 0 <= k < i ==> a@[k]@ == b@[k]@,
        decreases b@.len() - i,
    {
        if !text::chars_eq(a[i].as_slice(), b[i].as_slice()) {
            assert(text::views(a@).take(b@.len() as int)[i as int] != text::views(b@)[i as int]);
            return false;
        }
        i = i + 1;
    }
    assert(text::views(a@).take(b@.len() as int) =~= text::views(b@));
    true
}

/// Whether two wallpaper paths name the same file, as Windows compares them:
/// `/` and `\` are the same separator and ASCII letters match in either case.
pub open spec fn same_path(left: Seq<char>, right: Seq<char>) -> bool {
    text::eq_ignore_case(backslash_seps(left), backslash_seps(right))
}

pub fn same_path_exec(left: &[char], right: &[char]) -> (r: bool)
    ensures
        r == same_path(left@, right@),
{
    let l = backslash_seps_exec(left);
    let r = backslash_seps_exec(right);
    text::eq_ignore_ascii_case(l.as_slice(), r.as_slice())
}

/// Path equality is an equivalence relation.
pub proof fn lemma_same_path_equivalence(a: Seq<char>, b: Seq<char>, c: Seq<char>)
    ensures
        same_path(a, a),
        same_path(a, b) == same_path(b, a),
        same_path(a, b) && same_path(b, c) ==> same_path(a, c),
{
}

} // verus!
