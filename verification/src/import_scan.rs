//! Scanning a selection of files and folders for wallpapers to import.
use crate::media;
use crate::text;
use vstd::prelude::*;

verus! {

/// A selected path that cannot be imported, and why.
#[derive(Debug, Clone)]
pub struct ImportRejectedPath {
    pub path: String,
    pub reason: String,
}

/// The importable files found (sorted, each once) and the paths rejected on the way.
#[derive(Debug)]
pub struct ImportScanResult {
    pub files: Vec<String>,
    pub rejected: Vec<ImportRejectedPath>,
}


/// Each text comes before the next in `text_lt` order, so none repeats.
pub open spec fn strictly_sorted(s: Seq<Seq<char>>) -> bool {
    forall|i: int, j: int| 0 <= i < j < s.len() ==> text::text_lt(#[trigger] s[i], #[trigger] s[j])
}

pub open spec fn rejected_view(v: Seq<ImportRejectedPath>) -> Seq<(Seq<char>, Seq<char>)> {
    Seq::new(v.len(), |i: int| (v[i].path@, v[i].reason@))
}

/// A scan in progress: the files accepted so far, kept sorted, and the rejections in
/// the order they happened.
#[derive(Debug)]
pub struct ImportScan {
    files: Vec<String>,
    rejected: Vec<ImportRejectedPath>,
}

impl ImportScan {
    pub closed spec fn files_view(&self) -> Seq<Seq<char>> {
        text::strings_view(self.files@)
    }

    pub closed spec fn rejected_list(&self) -> Seq<(Seq<char>, Seq<char>)> {
        rejected_view(self.rejected@)
    }

    pub closed spec fn wf(&self) -> bool {
        strictly_sorted(text::strings_view(self.files@))
    }

    /// Starts a scan of a selection; an error when nothing was selected.
    pub fn start(selection_len: usize) -> (r: Result<ImportScan, String>)
        ensures
            selection_len == 0 ==> (r matches Err(e) && e@ == "No files or folders were selected"@),
            selection_len > 0 ==> (r matches Ok(s) && s.wf() && s.files_view().len() == 0
                && s.rejected_list().len() == 0),
    {
        if selection_len == 0 {
            return Err(text::owned("No files or folders were selected"));
        }
        let s = ImportScan { files: Vec::new(), rejected: Vec::new() };
        assert(text::strings_view(s.files@) =~= Seq::<Seq<char>>::empty());
        assert(rejected_view(s.rejected@) =~= Seq::<(Seq<char>, Seq<char>)>::empty());
        Ok(s)
    }

    fn reject(&mut self, path: String, reason: String)
        ensures
            final(self).files@ == old(self).files@,
            final(self).rejected_list() == old(self).rejected_list().push((path@, reason@)),
    {
        let ghost before = rejected_view(self.rejected@);
        self.rejected.push(ImportRejectedPath { path, reason });
        assert(rejected_view(self.rejected@) =~= before.push((path@, reason@)));
    }

    /// A selection that could not be turned into a path.
    pub fn reject_selection(&mut self, selected: String, reason: String)
        ensures
            final(self).files_view() == old(self).files_view(),
            final(self).wf() == old(self).wf(),
            final(self).rejected_list() == old(self).rejected_list().push((selected@, reason@)),
    {
        self.reject(selected, reason);
    }

    /// A folder whose entries could not be listed.
    pub fn folder_unreadable(&mut self, folder: String, error: &str)
        ensures
            final(self).files_view() == old(self).files_view(),
            final(self).wf() == old(self).wf(),
            final(self).rejected_list() == old(self).rejected_list().push(
                (folder@, "Failed to read folder: "@ + error@),
            ),
    {
        let mut msg = text::chars_of("Failed to read folder: ");
        text::push_str(&mut msg, error);
        self.reject(folder, text::string_from(msg.as_slice()));
    }

    /// An entry of a folder that could not be read.
    pub fn entry_unreadable(&mut self, folder: String, error: &str)
        ensures
            final(self).files_view() == old(self).files_view(),
            final(self).wf() == old(self).wf(),
            final(self).rejected_list() == old(self).rejected_list().push(
                (folder@, "Failed to read folder entry: "@ + error@),
            ),
    {
        let mut msg = text::chars_of("Failed to read folder entry: ");
        text::push_str(&mut msg, error);
        self.reject(folder, text::string_from(msg.as_slice()));
    }

    /// Adds a file unless it was already found, keeping the files sorted.
    fn add_file(&mut self, path: String)
        requires
            old(self).wf(),
        ensures
            final(self).wf(),
            final(self).files_view().to_set() == old(self).files_view().to_set().insert(path@),
            final(self).rejected@ == old(self).rejected@,
    {
        let ghost old_files = text::strings_view(self.files@);
        let p = text::chars_of(path.as_str());
        let mut i: usize = 0;
        while i < self.files.len() && text::text_less(text::chars_of(self.files[i].as_str()).as_slice(), p.as_slice())
            invariant
                i <= self.files@.len(),
                old_files == text::strings_view(self.files@),
                strictly_sorted(old_files),
                p@ == path@,
                forall|k: int| 0 <= k < i ==> text::text_lt(#[trigger] old_files[k], path@),
            decreases self.files@.len() - i,
        {
            i = i + 1;
        }
        if i < self.files.len() && text::chars_eq(text::chars_of(self.files[i].as_str()).as_slice(), p.as_slice()) {
            assert(old_files[i as int] == path@);
            assert(old_files.to_set().insert(path@) =~= old_files.to_set());
            return;
        }
        proof {
            if i < old_files.len() {
                text::lemma_text_lt_total(old_files[i as int], path@);
                assert(text::text_lt(path@, old_files[i as int]));
                assert forall|k: int| i <= k < old_files.len() implies text::text_lt(path@, #[trigger] old_files[k]) by {
                    if k > i {
                        text::lemma_text_lt_transitive(path@, old_files[i as int], old_files[k]);
                    }
                }
            }
        }
        let ghost pv = path@;
        self.files.insert(i, path);
        let ghost nf = text::strings_view(self.files@);
        assert(nf =~= old_files.insert(i as int, pv));
        assert forall|a: int, b: int| 0 <= a < b < nf.len() implies text::text_lt(#[trigger] nf[a], #[trigger] nf[b]) by {
            if b < i {
                assert(nf[a] == old_files[a] && nf[b] == old_files[b]);
            } else if b == i {
                assert(nf[a] == old_files[a] && nf[b] == pv);
            } else if a < i {
                assert(nf[a] == old_files[a] && nf[b] == old_files[b - 1]);
                if b - 1 >= i {
                    text::lemma_text_lt_transitive(old_files[a], pv, old_files[b - 1]);
                }
            } else if a == i {
                assert(nf[a] == pv && nf[b] == old_files[b - 1]);
            } else {
                assert(nf[a] == old_files[a - 1] && nf[b] == old_files[b - 1]);
            }
        }
        assert(nf.to_set() =~= old_files.to_set().insert(pv)) by {
            assert forall|x: Seq<char>| nf.to_set().contains(x) <==> old_files.to_set().insert(pv).contains(x) by {
                if nf.to_set().contains(x) {
                    let k = choose|k: int| 0 <= k < nf.len() && nf[k] == x;
                    if k < i {
                        assert(old_files[k] == x);
                    } else if k > i {
                        assert(old_files[k - 1] == x);
                    }
                }
                if old_files.to_set().contains(x) {
                    let k = choose|k: int| 0 <= k < old_files.len() && old_files[k] == x;
                    if k < i {
                        assert(nf[k] == x);
                    } else {
                        assert(nf[k + 1] == x);
                    }
                }
                if x == pv {
                    assert(nf[i as int] == pv);
                }
            }
        }
    }

    /// A path met by the scan that is not a folder: it is taken when it exists, is a
    /// file and is a supported wallpaper; an unsupported file is only reported when it
    /// was selected directly, not found in a folder.
    pub fn visit(&mut self, path: String, file_exists: bool, is_file: bool, from_folder: bool)
        requires
            old(self).wf(),
        ensures
            final(self).wf(),
            !file_exists ==> final(self).files_view() == old(self).files_view()
                && final(self).rejected_list() == old(self).rejected_list().push((path@, "Path does not exist"@)),
            file_exists && !is_file ==> final(self).files_view() == old(self).files_view()
                && final(self).rejected_list() == old(self).rejected_list().push((path@, "Path is not a file"@)),
            file_exists && is_file && !media::is_wallpaper(path@) ==> final(self).files_view() == old(self).files_view()
                && final(self).rejected_list() == (if from_folder {
                old(self).rejected_list()
            } else {
                old(self).rejected_list().push((path@, "Unsupported wallpaper format"@))
            }),
            file_exists && is_file && media::is_wallpaper(path@) ==> final(self).files_view().to_set()
                == old(self).files_view().to_set().insert(path@) && final(self).rejected_list()
                == old(self).rejected_list(),
    {
        if !file_exists {
            self.reject(path, text::owned("Path does not exist"));
            return;
        }
        if !is_file {
            self.reject(path, text::owned("Path is not a file"));
            return;
        }
        if !media::is_supported_wallpaper_path(path.as_str()) {
            if !from_folder {
                self.reject(path, text::owned("Unsupported wallpaper format"));
            }
            return;
        }
        self.add_file(path);
    }

    /// The scan's result.
    pub fn finish(self) -> (r: ImportScanResult)
        ensures
            text::strings_view(r.files@) == self.files_view(),
            rejected_view(r.rejected@) == self.rejected_list(),
    {
        ImportScanResult { files: self.files, rejected: self.rejected }
    }
}

/// The files of a finished scan are sorted and none appears twice.
pub proof fn lemma_scan_files_sorted_unique(s: Seq<Seq<char>>)
    requires
        strictly_sorted(s),
    ensures
        forall|i: int, j: int| 0 <= i < s.len() && 0 <= j < s.len() && i != j ==> s[i] != s[j],
{
    assert forall|i: int, j: int| 0 <= i < s.len() && 0 <= j < s.len() && i != j implies s[i] != s[j] by {
        if i < j {
            text::lemma_text_lt_irreflexive(s[i]);
        } else {
            text::lemma_text_lt_irreflexive(s[j]);
        }
    }
}

} // verus!
