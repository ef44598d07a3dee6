//! Disk usage of the app's caches, and what their cleanups remove.
use crate::db::Wallpaper;
use crate::text;
use vstd::prelude::*;

verus! {

/// Space used by the caches and the library's state.
#[derive(Debug, Clone)]
pub struct StorageStats {
    pub total_cache_bytes: i64,
    pub wallhaven_cache_bytes: i64,
    pub wallhaven_cache_files: i64,
    pub unused_wallhaven_cache_bytes: i64,
    pub unused_wallhaven_cache_files: i64,
    pub wallhaven_library_entries: i64,
    pub thumbnail_cache_bytes: i64,
    pub thumbnail_cache_files: i64,
    pub unused_thumbnail_bytes: i64,
    pub unused_thumbnail_files: i64,
    pub missing_library_entries: i64,
}

/// What a cleanup removed, and what it could not.
#[derive(Debug, Clone)]
pub struct StorageCleanupResult {
    pub removed_files: i64,
    pub removed_bytes: i64,
    pub removed_entries: i64,
    pub warnings: Vec<String>,
}

/// One file found in a cache directory: its path, its size, and its canonical path
/// (`None` where the system could not resolve it).
#[derive(Debug, Clone)]
pub struct CacheFile {
    pub path: String,
    pub bytes: i64,
    pub canonical: Option<String>,
}

/// Whether `std::path::Path::new(path).starts_with(base)` holds: `base`'s components
/// are the first components of `path`.
pub uninterp spec fn path_starts_with(path: Seq<char>, base: Seq<char>) -> bool;

/// Whether `std::path::Path::new(a) == std::path::Path::new(b)`: the same components.
pub uninterp spec fn path_equal(a: Seq<char>, b: Seq<char>) -> bool;

/// `Path::starts_with`; the result is `path_starts_with`.
#[verifier::external_body]
fn os_path_starts_with(path: &str, base: &str) -> (r: bool)
    ensures
        r == path_starts_with(path@, base@),
{
    std::path::Path::new(path).starts_with(base)
}

/// `Path` equality; the result is `path_equal`.
#[verifier::external_body]
fn os_path_equal(a: &str, b: &str) -> (r: bool)
    ensures
        r == path_equal(a@, b@),
{
    std::path::Path::new(a) == std::path::Path::new(b)
}

pub open spec fn opt_view(o: Option<String>) -> Option<Seq<char>> {
    match o {
        Some(s) => Some(s@),
        None => None,
    }
}

/// The canonical paths in use that lie inside the cache directory.
pub open spec fn used_in_cache(root: Seq<char>, used: Seq<Option<String>>) -> Seq<Seq<char>>
    decreases used.len(),
{
    if used.len() == 0 {
        Seq::empty()
    } else {
        let pre = used_in_cache(root, used.drop_last());
        match used.last() {
            Some(p) => if path_starts_with(p@, root) {
                pre.push(p@)
            } else {
                pre
            },
            None => pre,
        }
    }
}

/// A cache file is unused when its canonical path is unknown or is none of the used ones.
pub open spec fn file_unused(f: CacheFile, used: Seq<Seq<char>>) -> bool {
    match f.canonical {
        Some(c) => forall|i: int| 0 <= i < used.len() ==> !path_equal(c@, #[trigger] used[i]),
        None => true,
    }
}

pub open spec fn unused_list(files: Seq<CacheFile>, used: Seq<Seq<char>>) -> Seq<CacheFile>
    decreases files.len(),
{
    if files.len() == 0 {
        Seq::empty()
    } else if file_unused(files.last(), used) {
        unused_list(files.drop_last(), used).push(files.last())
    } else {
        unused_list(files.drop_last(), used)
    }
}

/// The files of a cache that nothing in the library uses, in order: none when the
/// cache directory itself cannot be resolved. `cache_root` is the directory's canonical
/// path and `used` the canonical paths of the files that library entries name.
pub open spec fn unused_cache_files(
    cache_root: Option<Seq<char>>,
    used: Seq<Option<String>>,
    files: Seq<CacheFile>,
) -> Seq<CacheFile> {
    match cache_root {
        Some(root) => unused_list(files, used_in_cache(root, used)),
        None => Seq::empty(),
    }
}

fn used_paths_in_cache(root: &str, used: &Vec<Option<String>>) -> (r: Vec<String>)
    ensures
        crate::text::strings_view(r@) == used_in_cache(root@, used@),
{
    let mut out: Vec<String> = Vec::new();
    let mut i: usize = 0;
    while i < used.len()
        invariant
            i <= used@.len(),
            crate::text::strings_view(out@) == used_in_cache(root@, used@.take(i as int)),
        decreases used@.len() - i,
    {
        assert(used@.take(i + 1).drop_last() == used@.take(i as int));
        assert(used@.take(i + 1).last() == used@[i as int]);
        let ghost before = crate::text::strings_view(out@);
        match &used[i] {
            Some(p) => {
                if os_path_starts_with(p.as_str(), root) {
                    out.push(text::owned(p.as_str()));
                    assert(crate::text::strings_view(out@) =~= before.push(p@));
                }
            },
            None => {},
        }
        i = i + 1;
    }
    assert(used@.take(used@.len() as int) == used@);
    out
}

pub open spec fn cache_file_view(f: CacheFile) -> (Seq<char>, i64, Option<Seq<char>>) {
    (f.path@, f.bytes, opt_view(f.canonical))
}

pub open spec fn cache_files_view(v: Seq<CacheFile>) -> Seq<(Seq<char>, i64, Option<Seq<char>>)> {
    Seq::new(v.len(), |i: int| cache_file_view(v[i]))
}

fn copy_cache_file(f: &CacheFile) -> (r: CacheFile)
    ensures
        cache_file_view(r) == cache_file_view(*f),
{
    CacheFile {
        path: text::owned(f.path.as_str()),
        bytes: f.bytes,
        canonical: match &f.canonical {
            Some(c) => Some(text::owned(c.as_str())),
            None => None,
        },
    }
}

pub fn unused_app_cache_files(cache_root: Option<&str>, used: &Vec<Option<String>>, files: &Vec<CacheFile>) -> (r: Vec<CacheFile>)
    ensures
        cache_files_view(r@) == cache_files_view(unused_cache_files(
            match cache_root {
                Some(c) => Some(c@),
                None => None,
            },
            used@,
            files@,
        )),
{
    let root = match cache_root {
        Some(r) => r,
        None => {
            let v: Vec<CacheFile> = Vec::new();
            assert(cache_files_view(v@) =~= cache_files_view(Seq::<CacheFile>::empty()));
            return v;
        },
    };
    let in_cache = used_paths_in_cache(root, used);
    let ghost uv = crate::text::strings_view(in_cache@);
    let mut out: Vec<CacheFile> = Vec::new();
    let mut i: usize = 0;
    while i < files.len()
        invariant
            i <= files@.len(),
            uv == crate::text::strings_view(in_cache@),
            cache_files_view(out@) == cache_files_view(unused_list(files@.take(i as int), uv)),
        decreases files@.len() - i,
    {
        assert(files@.take(i + 1).drop_last() == files@.take(i as int));
        assert(files@.take(i + 1).last() == files@[i as int]);
        let f = &files[i];
        let unused = match &f.canonical {
            Some(c) => {
                let mut found = false;
                let mut j: usize = 0;
                while j < in_cache.len()
                    invariant
                        j <= in_cache@.len(),
                        uv == crate::text::strings_view(in_cache@),
                        found == exists|k: int| 0 <= k < j && path_equal(c@, #[trigger] uv[k]),
                    decreases in_cache@.len() - j,
                {
                    if os_path_equal(c.as_str(), in_cache[j].as_str()) {
                        assert(uv[j as int] == in_cache@[j as int]@);
                        found = true;
                    }
                    j = j + 1;
                }
                !found
            },
            None => true,
        };
        assert(unused == file_unused(*f, uv));
        let ghost before = cache_files_view(out@);
        if unused {
            out.push(copy_cache_file(f));
            assert(cache_files_view(out@) =~= before.push(cache_file_view(files@[i as int])));
            assert(cache_files_view(unused_list(files@.take(i + 1), uv)) =~= cache_files_view(
                unused_list(files@.take(i as int), uv),
            ).push(cache_file_view(files@[i as int])));
        }
        i = i + 1;
    }
    assert(files@.take(files@.len() as int) == files@);
    out
}


/// The total size of the files.
pub open spec fn bytes_total(files: Seq<CacheFile>) -> int
    decreases files.len(),
{
    if files.len() == 0 {
        0
    } else {
        bytes_total(files.drop_last()) + files.last().bytes
    }
}

/// File sizes are not negative and add up within 64 bits.
pub open spec fn sizes_fit(files: Seq<CacheFile>) -> bool {
    (forall|i: int| 0 <= i < files.len() ==> #[trigger] files[i].bytes >= 0) && bytes_total(files) <= i64::MAX
}

proof fn lemma_prefix_total(files: Seq<CacheFile>, i: int)
    requires
        0 <= i <= files.len(),
        forall|k: int| 0 <= k < files.len() ==> #[trigger] files[k].bytes >= 0,
    ensures
        0 <= bytes_total(files.take(i)) <= bytes_total(files),
    decreases files.len() - i,
{
    if i < files.len() {
        lemma_prefix_total(files, i + 1);
        assert(files.take(i + 1).drop_last() == files.take(i));
        assert(files.take(i + 1).last() == files[i]);
    } else {
        assert(files.take(i) == files);
    }
    if i == 0 {
        assert(files.take(0).len() == 0);
    } else {
        lemma_total_nonneg(files.take(i));
    }
}

proof fn lemma_total_nonneg(files: Seq<CacheFile>)
    requires
        forall|k: int| 0 <= k < files.len() ==> #[trigger] files[k].bytes >= 0,
    ensures
        bytes_total(files) >= 0,
    decreases files.len(),
{
    if files.len() > 0 {
        assert forall|k: int| 0 <= k < files.drop_last().len() implies #[trigger] files.drop_last()[k].bytes >= 0 by {
            assert(files.drop_last()[k] == files[k]);
        }
        lemma_total_nonneg(files.drop_last());
        assert(files.last() == files[files.len() - 1]);
    }
}

pub fn sum_bytes(files: &Vec<CacheFile>) -> (r: i64)
    requires
        sizes_fit(files@),
    ensures
        r == bytes_total(files@),
{
    let mut total: i64 = 0;
    let mut i: usize = 0;
    while i < files.len()
        invariant
            i <= files@.len(),
            sizes_fit(files@),
            total == bytes_total(files@.take(i as int)),
        decreases files@.len() - i,
    {
        proof {
            lemma_prefix_total(files@, i + 1);
        }
        assert(files@.take(i + 1).drop_last() == files@.take(i as int));
        assert(files@.take(i + 1).last() == files@[i as int]);
        total = total + files[i].bytes;
        i = i + 1;
    }
    assert(files@.take(files@.len() as int) == files@);
    total
}

/// The unused files are some of the files, in order, so their sizes fit too.
proof fn lemma_unused_fit(files: Seq<CacheFile>, used: Seq<Seq<char>>)
    requires
        sizes_fit(files),
    ensures
        sizes_fit(unused_list(files, used)),
        bytes_total(unused_list(files, used)) <= bytes_total(files),
        unused_list(files, used).len() <= files.len(),
    decreases files.len(),
{
    if files.len() > 0 {
        let pre = files.drop_last();
        let last = files.last();
        assert forall|k: int| 0 <= k < pre.len() implies #[trigger] pre[k].bytes >= 0 by {
            assert(pre[k] == files[k]);
        }
        lemma_total_nonneg(pre);
        assert(last == files[files.len() - 1]);
        assert(last.bytes >= 0);
        assert(bytes_total(files) == bytes_total(pre) + last.bytes);
        assert(sizes_fit(pre));
        lemma_unused_fit(pre, used);
        let up = unused_list(pre, used);
        let u = unused_list(files, used);
        if file_unused(last, used) {
            assert(u == up.push(last));
            assert(u.drop_last() == up);
            assert(u.last() == last);
            assert(bytes_total(u) == bytes_total(up) + last.bytes);
            assert forall|k: int| 0 <= k < u.len() implies #[trigger] u[k].bytes >= 0 by {
                if k < up.len() {
                    assert(u[k] == up[k]);
                }
            }
        } else {
            assert(u == up);
        }
    }
}

/// The library entries downloaded from Wallhaven.
pub open spec fn wallhaven_entries(ws: Seq<Wallpaper>) -> nat
    decreases ws.len(),
{
    if ws.len() == 0 {
        0
    } else {
        wallhaven_entries(ws.drop_last()) + (if opt_view(ws.last().source) == Some("wallhaven"@) { 1nat } else { 0nat })
    }
}

pub open spec fn count_true(v: Seq<bool>) -> nat
    decreases v.len(),
{
    if v.len() == 0 {
        0
    } else {
        count_true(v.drop_last()) + (if v.last() { 1nat } else { 0nat })
    }
}

fn count_wallhaven(ws: &Vec<Wallpaper>) -> (r: i64)
    requires
        ws@.len() <= i64::MAX,
    ensures
        r == wallhaven_entries(ws@),
{
    let mut n: i64 = 0;
    let mut i: usize = 0;
    while i < ws.len()
        invariant
            i <= ws@.len(),
            n == wallhaven_entries(ws@.take(i as int)),
            n <= i,
            ws@.len() <= i64::MAX,
        decreases ws@.len() - i,
    {
        assert(ws@.take(i + 1).drop_last() == ws@.take(i as int));
        assert(ws@.take(i + 1).last() == ws@[i as int]);
        let is_wallhaven = match &ws[i].source {
            Some(src) => text::chars_eq_str(text::chars_of(src.as_str()).as_slice(), "wallhaven"),
            None => false,
        };
        if is_wallhaven {
            n = n + 1;
        }
        i = i + 1;
    }
    assert(ws@.take(ws@.len() as int) == ws@);
    n
}

fn count_flags(v: &Vec<bool>) -> (r: i64)
    requires
        v@.len() <= i64::MAX,
    ensures
        r == count_true(v@),
{
    let mut n: i64 = 0;
    let mut i: usize = 0;
    while i < v.len()
        invariant
            i <= v@.len(),
            n == count_true(v@.take(i as int)),
            n <= i,
            v@.len() <= i64::MAX,
        decreases v@.len() - i,
    {
        assert(v@.take(i + 1).drop_last() == v@.take(i as int));
        if v[i] {
            n = n + 1;
        }
        i = i + 1;
    }
    assert(v@.take(v@.len() as int) == v@);
    n
}

/// The files that library entries downloaded from Wallhaven keep, in library order.
pub open spec fn wallhaven_files_used(ws: Seq<Wallpaper>) -> Seq<Seq<char>>
    decreases ws.len(),
{
    if ws.len() == 0 {
        Seq::empty()
    } else if opt_view(ws.last().source) == Some("wallhaven"@) {
        wallhaven_files_used(ws.drop_last()).push(ws.last().file_path@)
    } else {
        wallhaven_files_used(ws.drop_last())
    }
}

/// The thumbnails that library entries name, in library order.
pub open spec fn thumbnails_used(ws: Seq<Wallpaper>) -> Seq<Seq<char>>
    decreases ws.len(),
{
    if ws.len() == 0 {
        Seq::empty()
    } else {
        match ws.last().thumbnail_path {
            Some(t) => thumbnails_used(ws.drop_last()).push(t@),
            None => thumbnails_used(ws.drop_last()),
        }
    }
}

pub fn wallhaven_used_paths(ws: &Vec<Wallpaper>) -> (r: Vec<String>)
    ensures
        crate::text::strings_view(r@) == wallhaven_files_used(ws@),
{
    let mut out: Vec<String> = Vec::new();
    let mut i: usize = 0;
    while i < ws.len()
        invariant
            i <= ws@.len(),
            crate::text::strings_view(out@) == wallhaven_files_used(ws@.take(i as int)),
        decreases ws@.len() - i,
    {
        assert(ws@.take(i + 1).drop_last() == ws@.take(i as int));
        assert(ws@.take(i + 1).last() == ws@[i as int]);
        let is_wallhaven = match &ws[i].source {
            Some(src) => text::chars_eq_str(text::chars_of(src.as_str()).as_slice(), "wallhaven"),
            None => false,
        };
        let ghost before = crate::text::strings_view(out@);
        if is_wallhaven {
            out.push(text::owned(ws[i].file_path.as_str()));
            assert(crate::text::strings_view(out@) =~= before.push(ws@[i as int].file_path@));
        }
        i = i + 1;
    }
    assert(ws@.take(ws@.len() as int) == ws@);
    out
}

pub fn thumbnail_used_paths(ws: &Vec<Wallpaper>) -> (r: Vec<String>)
    ensures
        crate::text::strings_view(r@) == thumbnails_used(ws@),
{
    let mut out: Vec<String> = Vec::new();
    let mut i: usize = 0;
    while i < ws.len()
        invariant
            i <= ws@.len(),
            crate::text::strings_view(out@) == thumbnails_used(ws@.take(i as int)),
        decreases ws@.len() - i,
    {
        assert(ws@.take(i + 1).drop_last() == ws@.take(i as int));
        assert(ws@.take(i + 1).last() == ws@[i as int]);
        let ghost before = crate::text::strings_view(out@);
        match &ws[i].thumbnail_path {
            Some(t) => {
                out.push(text::owned(t.as_str()));
                assert(crate::text::strings_view(out@) =~= before.push(t@));
            },
            None => {},
        }
        i = i + 1;
    }
    assert(ws@.take(ws@.len() as int) == ws@);
    out
}

/// What is known of one cache: its canonical directory, its files, and the canonical
/// paths of the files that library entries use there.
pub struct CacheScan {
    pub root: Option<String>,
    pub files: Vec<CacheFile>,
    pub used: Vec<Option<String>>,
}

pub open spec fn scan_unused(c: CacheScan) -> Seq<CacheFile> {
    unused_cache_files(opt_view(c.root), c.used@, c.files@)
}

/// The storage report: sizes and counts of both caches and of their unused files, the
/// Wallhaven entries, and the entries whose file is missing (`missing[i]` for entry `i`).
pub fn storage_stats(
    wallhaven: &CacheScan,
    thumbnails: &CacheScan,
    wallpapers: &Vec<Wallpaper>,
    missing: &Vec<bool>,
) -> (r: StorageStats)
    requires
        sizes_fit(wallhaven.files@),
        sizes_fit(thumbnails.files@),
        bytes_total(wallhaven.files@) + bytes_total(thumbnails.files@) <= i64::MAX,
        wallpapers@.len() <= i64::MAX,
        missing@.len() <= i64::MAX,
        wallhaven.files@.len() <= i64::MAX,
        thumbnails.files@.len() <= i64::MAX,
    ensures
        r.wallhaven_cache_bytes == bytes_total(wallhaven.files@),
        r.thumbnail_cache_bytes == bytes_total(thumbnails.files@),
        r.total_cache_bytes == bytes_total(wallhaven.files@) + bytes_total(thumbnails.files@),
        r.wallhaven_cache_files == wallhaven.files@.len(),
        r.thumbnail_cache_files == thumbnails.files@.len(),
        r.unused_wallhaven_cache_bytes == bytes_total(scan_unused(*wallhaven)),
        r.unused_wallhaven_cache_files == scan_unused(*wallhaven).len(),
        r.unused_thumbnail_bytes == bytes_total(scan_unused(*thumbnails)),
        r.unused_thumbnail_files == scan_unused(*thumbnails).len(),
        r.wallhaven_library_entries == wallhaven_entries(wallpapers@),
        r.missing_library_entries == count_true(missing@),
{
    let root_w = match &wallhaven.root {
        Some(r) => Some(r.as_str()),
        None => None,
    };
    let root_t = match &thumbnails.root {
        Some(r) => Some(r.as_str()),
        None => None,
    };
    let unused_w = unused_app_cache_files(root_w, &wallhaven.used, &wallhaven.files);
    let unused_t = unused_app_cache_files(root_t, &thumbnails.used, &thumbnails.files);
    proof {
        lemma_unused_fit(wallhaven.files@, used_in_cache(wallhaven.root->0@, wallhaven.used@));
        lemma_unused_fit(thumbnails.files@, used_in_cache(thumbnails.root->0@, thumbnails.used@));
        lemma_views_fit(unused_w@, scan_unused(*wallhaven));
        lemma_views_fit(unused_t@, scan_unused(*thumbnails));
    }
    proof {
        lemma_total_nonneg(wallhaven.files@);
        lemma_total_nonneg(thumbnails.files@);
    }
    let wallhaven_bytes = sum_bytes(&wallhaven.files);
    let thumbnail_bytes = sum_bytes(&thumbnails.files);
    let unused_w_bytes = sum_bytes(&unused_w);
    let unused_t_bytes = sum_bytes(&unused_t);
    StorageStats {
        total_cache_bytes: wallhaven_bytes + thumbnail_bytes,
        wallhaven_cache_bytes: wallhaven_bytes,
        wallhaven_cache_files: wallhaven.files.len() as i64,
        unused_wallhaven_cache_bytes: unused_w_bytes,
        unused_wallhaven_cache_files: unused_w.len() as i64,
        wallhaven_library_entries: count_wallhaven(wallpapers),
        thumbnail_cache_bytes: thumbnail_bytes,
        thumbnail_cache_files: thumbnails.files.len() as i64,
        unused_thumbnail_bytes: unused_t_bytes,
        unused_thumbnail_files: unused_t.len() as i64,
        missing_library_entries: count_flags(missing),
    }
}

/// Two file lists with the same contents have the same sizes.
proof fn lemma_views_fit(a: Seq<CacheFile>, b: Seq<CacheFile>)
    requires
        cache_files_view(a) == cache_files_view(b),
        sizes_fit(b),
    ensures
        sizes_fit(a),
        bytes_total(a) == bytes_total(b),
        a.len() == b.len(),
    decreases a.len(),
{
    assert(a.len() == cache_files_view(a).len());
    assert forall|k: int| 0 <= k < a.len() implies #[trigger] a[k].bytes == b[k].bytes by {
        assert(cache_files_view(a)[k] == cache_files_view(b)[k]);
    }
    lemma_totals_equal(a, b);
}

proof fn lemma_totals_equal(a: Seq<CacheFile>, b: Seq<CacheFile>)
    requires
        a.len() == b.len(),
        forall|k: int| 0 <= k < a.len() ==> #[trigger] a[k].bytes == b[k].bytes,
    ensures
        bytes_total(a) == bytes_total(b),
    decreases a.len(),
{
    if a.len() > 0 {
        assert forall|k: int| 0 <= k < a.drop_last().len() implies #[trigger] a.drop_last()[k].bytes
            == b.drop_last()[k].bytes by {
            assert(a.drop_last()[k] == a[k]);
            assert(b.drop_last()[k] == b[k]);
        }
        lemma_totals_equal(a.drop_last(), b.drop_last());
        assert(a.last() == a[a.len() - 1]);
        assert(b.last() == b[b.len() - 1]);
    }
}

/// How removing one file went.
#[derive(Debug, Clone)]
pub enum RemoveOutcome {
    Removed,
    /// Already gone: not counted and not reported.
    NotFound,
    /// The error the system gave.
    Failed(String),
}

pub open spec fn removed_count(outcomes: Seq<RemoveOutcome>) -> nat
    decreases outcomes.len(),
{
    if outcomes.len() == 0 {
        0
    } else {
        removed_count(outcomes.drop_last()) + (if outcomes.last() is Removed { 1nat } else { 0nat })
    }
}

pub open spec fn removed_bytes(files: Seq<CacheFile>, outcomes: Seq<RemoveOutcome>) -> int
    decreases outcomes.len(),
{
    if outcomes.len() == 0 {
        0
    } else {
        removed_bytes(files, outcomes.drop_last()) + (if outcomes.last() is Removed {
            files[outcomes.len() - 1].bytes as int
        } else {
            0
        })
    }
}

pub open spec fn removal_warnings(files: Seq<CacheFile>, outcomes: Seq<RemoveOutcome>) -> Seq<Seq<char>>
    decreases outcomes.len(),
{
    if outcomes.len() == 0 {
        Seq::empty()
    } else {
        let pre = removal_warnings(files, outcomes.drop_last());
        match outcomes.last() {
            RemoveOutcome::Failed(e) => pre.push(
                "Failed to remove '"@ + files[outcomes.len() - 1].path@ + "': "@ + e@,
            ),
            _ => pre,
        }
    }
}

proof fn lemma_removed_bytes_bounded(files: Seq<CacheFile>, outcomes: Seq<RemoveOutcome>, n: int)
    requires
        sizes_fit(files),
        0 <= n <= outcomes.len(),
        outcomes.len() == files.len(),
    ensures
        0 <= removed_bytes(files, outcomes.take(n)) <= bytes_total(files.take(n)),
        removed_count(outcomes.take(n)) <= n,
    decreases n,
{
    if n > 0 {
        lemma_removed_bytes_bounded(files, outcomes, n - 1);
        assert(outcomes.take(n).drop_last() == outcomes.take(n - 1));
        assert(files.take(n).drop_last() == files.take(n - 1));
        assert(files.take(n).last() == files[n - 1]);
        assert(outcomes.take(n).last() == outcomes[n - 1]);
        assert(files[n - 1].bytes >= 0);
    }
}

/// The result of removing files, one outcome per file in order.
pub fn cleanup_result(files: &Vec<CacheFile>, outcomes: &Vec<RemoveOutcome>) -> (r: StorageCleanupResult)
    requires
        outcomes@.len() == files@.len(),
        files@.len() <= i64::MAX,
        sizes_fit(files@),
    ensures
        r.removed_files == removed_count(outcomes@),
        r.removed_bytes == removed_bytes(files@, outcomes@),
        r.removed_entries == 0,
        crate::text::strings_view(r.warnings@) == removal_warnings(files@, outcomes@),
{
    let mut removed: i64 = 0;
    let mut bytes: i64 = 0;
    let mut warnings: Vec<String> = Vec::new();
    let mut i: usize = 0;
    while i < files.len()
        invariant
            i <= files@.len(),
            outcomes@.len() == files@.len(),
            files@.len() <= i64::MAX,
            sizes_fit(files@),
            removed == removed_count(outcomes@.take(i as int)),
            bytes == removed_bytes(files@, outcomes@.take(i as int)),
            crate::text::strings_view(warnings@) == removal_warnings(files@, outcomes@.take(i as int)),
        decreases files@.len() - i,
    {
        proof {
            lemma_removed_bytes_bounded(files@, outcomes@, i + 1);
            lemma_prefix_total(files@, i + 1);
        }
        assert(outcomes@.take(i + 1).drop_last() == outcomes@.take(i as int));
        assert(outcomes@.take(i + 1).last() == outcomes@[i as int]);
        assert(outcomes@.take(i + 1).len() == i + 1);
        let ghost before = crate::text::strings_view(warnings@);
        match &outcomes[i] {
            RemoveOutcome::Removed => {
                removed = removed + 1;
                bytes = bytes + files[i].bytes;
            },
            RemoveOutcome::NotFound => {},
            RemoveOutcome::Failed(e) => {
                let mut msg = text::chars_of("Failed to remove '");
                text::push_str(&mut msg, files[i].path.as_str());
                text::push_str(&mut msg, "': ");
                text::push_str(&mut msg, e.as_str());
                warnings.push(text::string_from(msg.as_slice()));
                assert(crate::text::strings_view(warnings@) =~= before.push(msg@));
            },
        }
        i = i + 1;
    }
    assert(outcomes@.take(outcomes@.len() as int) == outcomes@);
    StorageCleanupResult { removed_files: removed, removed_bytes: bytes, removed_entries: 0, warnings }
}

/// An entry is missing when its file is gone, is not a file, or cannot be opened.
pub fn is_missing_library_entry(file_exists: bool, is_file: bool, opens: bool) -> (r: bool)
    ensures
        r == (!file_exists || !is_file || !opens),
{
    !file_exists || !is_file || !opens
}

/// The result of removing `removed` missing entries from the library.
pub fn missing_entries_result(removed: i64) -> (r: StorageCleanupResult)
    ensures
        r.removed_files == 0 && r.removed_bytes == 0 && r.removed_entries == removed && r.warnings@.len() == 0,
{
    StorageCleanupResult { removed_files: 0, removed_bytes: 0, removed_entries: removed, warnings: Vec::new() }
}


proof fn lemma_unused_members(files: Seq<CacheFile>, used: Seq<Seq<char>>)
    ensures
        forall|i: int| 0 <= i < unused_list(files, used).len() ==> file_unused(
            #[trigger] unused_list(files, used)[i],
            used,
        ),
    decreases files.len(),
{
    if files.len() > 0 {
        lemma_unused_members(files.drop_last(), used);
        let up = unused_list(files.drop_last(), used);
        let u = unused_list(files, used);
        assert forall|i: int| 0 <= i < u.len() implies file_unused(#[trigger] u[i], used) by {
            if i < up.len() {
                assert(u[i] == up[i]);
            }
        }
    }
}

proof fn lemma_used_in_cache_members(root: Seq<char>, used: Seq<Option<String>>, j: int)
    requires
        0 <= j < used.len(),
        used[j] is Some,
        path_starts_with(used[j]->0@, root),
    ensures
        used_in_cache(root, used).contains(used[j]->0@),
    decreases used.len(),
{
    if j < used.len() - 1 {
        assert(used.drop_last()[j] == used[j]);
        lemma_used_in_cache_members(root, used.drop_last(), j);
        let pre = used_in_cache(root, used.drop_last());
        let k = choose|k: int| 0 <= k < pre.len() && pre[k] == used[j]->0@;
        assert(used_in_cache(root, used)[k] == pre[k]);
    } else {
        let u = used_in_cache(root, used);
        assert(u[u.len() - 1] == used[j]->0@);
    }
}

/// A cleanup never removes a file that a library entry uses: a cache file whose
/// canonical path equals that of a file some entry names inside the cache is not among
/// the unused files.
pub proof fn lemma_cleanup_keeps_used_files(root: Seq<char>, used: Seq<Option<String>>, files: Seq<CacheFile>, f: CacheFile, j: int)
    requires
        0 <= j < used.len(),
        used[j] is Some,
        path_starts_with(used[j]->0@, root),
        f.canonical is Some,
        path_equal(f.canonical->0@, used[j]->0@),
    ensures
        !unused_cache_files(Some(root), used, files).contains(f),
{
    let ul = used_in_cache(root, used);
    lemma_used_in_cache_members(root, used, j);
    lemma_unused_members(files, ul);
    let u = unused_cache_files(Some(root), used, files);
    if u.contains(f) {
        let i = choose|i: int| 0 <= i < u.len() && u[i] == f;
        assert(file_unused(u[i], ul));
        let k = choose|k: int| 0 <= k < ul.len() && ul[k] == used[j]->0@;
        assert(!path_equal(f.canonical->0@, ul[k]));
    }
}

/// Every path in use inside the cache is the path of some library entry that lies
/// inside the cache.
proof fn lemma_used_in_cache_origin(root: Seq<char>, used: Seq<Option<String>>)
    ensures
        forall|k: int| 0 <= k < used_in_cache(root, used).len() ==> exists|j: int|
            0 <= j < used.len() && used[j] is Some && path_starts_with(used[j]->0@, root)
                && #[trigger] used_in_cache(root, used)[k] == used[j]->0@,
    decreases used.len(),
{
    if used.len() > 0 {
        let pre_used = used.drop_last();
        lemma_used_in_cache_origin(root, pre_used);
        let pre = used_in_cache(root, pre_used);
        let u = used_in_cache(root, used);
        assert forall|k: int| 0 <= k < u.len() implies exists|j: int|
            0 <= j < used.len() && used[j] is Some && path_starts_with(used[j]->0@, root)
                && #[trigger] u[k] == used[j]->0@ by {
            if k < pre.len() {
                assert(u[k] == pre[k]);
                let j = choose|j: int|
                    0 <= j < pre_used.len() && pre_used[j] is Some && path_starts_with(pre_used[j]->0@, root)
                        && pre[k] == pre_used[j]->0@;
                assert(pre_used[j] == used[j]);
            } else {
                assert(u[k] == used.last()->0@);
                assert(used[used.len() - 1] == used.last());
            }
        }
    }
}

proof fn lemma_unused_list_keeps(files: Seq<CacheFile>, used: Seq<Seq<char>>, i: int)
    requires
        0 <= i < files.len(),
        file_unused(files[i], used),
    ensures
        unused_list(files, used).contains(files[i]),
    decreases files.len(),
{
    let u = unused_list(files, used);
    if i == files.len() - 1 {
        assert(u[u.len() - 1] == files[i]);
    } else {
        let pre = files.drop_last();
        assert(pre[i] == files[i]);
        lemma_unused_list_keeps(pre, used, i);
        let pu = unused_list(pre, used);
        let k = choose|k: int| 0 <= k < pu.len() && pu[k] == files[i];
        assert(u[k] == pu[k]);
    }
}

/// A cleanup offers every file that nothing uses: when the cache directory resolves,
/// a cache file whose canonical path is unknown, or equals no path that a library
/// entry names inside the cache, is among the unused files.
pub proof fn lemma_cleanup_finds_every_unused_file(root: Seq<char>, used: Seq<Option<String>>, files: Seq<CacheFile>, i: int)
    requires
        0 <= i < files.len(),
        match files[i].canonical {
            Some(c) => forall|j: int|
                0 <= j < used.len() && #[trigger] used[j] is Some && path_starts_with(used[j]->0@, root)
                    ==> !path_equal(c@, used[j]->0@),
            None => true,
        },
    ensures
        unused_cache_files(Some(root), used, files).contains(files[i]),
{
    let ul = used_in_cache(root, used);
    lemma_used_in_cache_origin(root, used);
    match files[i].canonical {
        Some(c) => {
            assert forall|k: int| 0 <= k < ul.len() implies !path_equal(c@, #[trigger] ul[k]) by {
                let j = choose|j: int|
                    0 <= j < used.len() && used[j] is Some && path_starts_with(used[j]->0@, root)
                        && ul[k] == used[j]->0@;
            }
        },
        None => {},
    }
    lemma_unused_list_keeps(files, ul, i);
}

} // verus!
