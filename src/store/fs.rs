//! Where a store over the local file system looks for an asset.
use std::path::Path;
use vstd::prelude::*;

verus! {

/// The path that `Path::join` makes of `root` and `path`.
pub uninterp spec fn joined_path(root: Seq<char>, path: Seq<char>) -> Seq<char>;

/// The file stem that `Path::file_stem` finds in `path`, if any.
pub uninterp spec fn file_stem_of(path: Seq<char>) -> Option<Seq<char>>;

/// The path that `Path::with_file_name` makes of `path` and `name`.
pub uninterp spec fn with_file_name_of(path: Seq<char>, name: Seq<char>) -> Seq<char>;

/// Relies on `Path::join`: the result depends on the two paths alone.
#[verifier::external_body]
fn join_path(root: &str, path: &str) -> (r: String)
    ensures
        r@ == joined_path(root@, path@),
{
    Path::new(root).join(path).to_string_lossy().into_owned()
}

/// Relies on `Path::file_stem`: the result depends on the path alone.
#[verifier::external_body]
fn file_stem(path: &str) -> (r: Option<String>)
    ensures
        r matches Some(s) ==> file_stem_of(path@) == Some(s@),
        r is None ==> file_stem_of(path@) is None,
{
    match Path::new(path).file_stem() {
        Some(stem) => Some(stem.to_string_lossy().into_owned()),
        None => None,
    }
}

/// Relies on `Path::with_file_name`: the result depends on its arguments
/// alone.
#[verifier::external_body]
fn with_file_name(path: &str, name: &str) -> (r: String)
    ensures
        r@ == with_file_name_of(path@, name@),
{
    Path::new(path).with_file_name(name).to_string_lossy().into_owned()
}

/// Fetches assets from files under a list of directories.
pub struct FsStore {
    roots: Vec<String>,
    ignore_ext: bool,
}

/// Where `path` is looked for under `root`: the two joined, and with
/// `ignore_ext` the file name replaced by the stem of `path`.
pub open spec fn candidate_path(root: Seq<char>, path: Seq<char>, ignore_ext: bool, stem: Seq<char>) -> Seq<char> {
    if ignore_ext {
        with_file_name_of(joined_path(root, path), stem)
    } else {
        joined_path(root, path)
    }
}

/// What happened when a candidate file was opened.
pub enum OpenStatus {
    Opened,
    NotFound,
    Failed,
}

/// What a search does after opening one candidate.
pub enum FindStep {
    /// Use the file just opened.
    Found,
    /// Report the error of the file just opened.
    Fail,
    /// Try the candidate at this position.
    Next(usize),
    /// No candidate exists.
    Missing,
}

impl FsStore {
    /// The directories searched, in order.
    pub closed spec fn roots(&self) -> Seq<Seq<char>> {
        self.roots@.map_values(|r: String| r@)
    }

    /// Whether file extensions are ignored.
    pub closed spec fn ignores_ext(&self) -> bool {
        self.ignore_ext
    }

    /// A store with no directory, matching extensions.
    pub fn new() -> (r: Self)
        ensures
            r.roots() == Seq::<Seq<char>>::empty(),
            !r.ignores_ext(),
    {
        FsStore { roots: Vec::new(), ignore_ext: false }
    }

    /// Adds a directory to the end of the search list.
    pub fn add_path(&mut self, path: String)
        ensures
            final(self).roots() == old(self).roots().push(path@),
            final(self).ignores_ext() == old(self).ignores_ext(),
    {
        self.roots.push(path);
        assert(self.roots@.map_values(|r: String| r@) =~= old(self).roots@.map_values(|r: String| r@).push(path@));
    }

    /// Adds a directory to the end of the search list.
    pub fn with_path(self, path: String) -> (r: Self)
        ensures
            r.roots() == self.roots().push(path@),
            r.ignores_ext() == self.ignores_ext(),
    {
        let mut r = self;
        r.add_path(path);
        r
    }

    /// Sets whether file extensions are ignored: with `true` a file is
    /// found by its stem alone.
    pub fn set_ignore_ext(&mut self, ignore: bool)
        ensures
            final(self).roots() == old(self).roots(),
            final(self).ignores_ext() == ignore,
    {
        self.ignore_ext = ignore;
    }

    /// Sets whether file extensions are ignored.
    pub fn with_ignore_ext(self, ignore: bool) -> (r: Self)
        ensures
            r.roots() == self.roots(),
            r.ignores_ext() == ignore,
    {
        let mut r = self;
        r.set_ignore_ext(ignore);
        r
    }

    /// The files to try for `path`, one per directory, in order; `None`
    /// when `path` names no file.
    pub fn candidates(&self, path: &str) -> (r: Option<Vec<String>>)
        ensures
            match file_stem_of(path@) {
                None => r is None,
                Some(stem) => r matches Some(c) && c@.len() == self.roots().len() && forall|i: int|
                    0 <= i < c@.len() ==> #[trigger] c@[i]@ == candidate_path(
                        self.roots()[i],
                        path@,
                        self.ignores_ext(),
                        stem,
                    ),
            },
    {
        let stem = match file_stem(path) {
            Some(stem) => stem,
            None => {
                return None;
            },
        };
        let mut out: Vec<String> = Vec::new();
        let mut i: usize = 0;
        while i < self.roots.len()
            invariant
                i <= self.roots@.len(),
                out@.len() == i,
                file_stem_of(path@) == Some(stem@),
                forall|j: int|
                    0 <= j < i ==> #[trigger] out@[j]@ == candidate_path(
                        self.roots()[j],
                        path@,
                        self.ignores_ext(),
                        stem@,
                    ),
            decreases self.roots@.len() - i,
        {
            let joined = join_path(self.roots[i].as_str(), path);
            let candidate = if self.ignore_ext {
                with_file_name(joined.as_str(), stem.as_str())
            } else {
                joined
            };
            out.push(candidate);
            i = i + 1;
        }
        Some(out)
    }

    /// The next move of a search over `n` candidates after candidate `i`
    /// was opened with `status`: a file opened is used, an error other than
    /// a missing file ends the search, and a missing file moves on to the
    /// next candidate until none is left.
    pub fn find_step(i: usize, n: usize, status: OpenStatus) -> (r: FindStep)
        requires
            i < n,
        ensures
            r == match status {
                OpenStatus::Opened => FindStep::Found,
                OpenStatus::Failed => FindStep::Fail,
                OpenStatus::NotFound => if i + 1 < n {
                    FindStep::Next((i + 1) as usize)
                } else {
                    FindStep::Missing
                },
            },
    {
        match status {
            OpenStatus::Opened => FindStep::Found,
            OpenStatus::Failed => FindStep::Fail,
            OpenStatus::NotFound => if i + 1 < n {
                FindStep::Next(i + 1)
            } else {
                FindStep::Missing
            },
        }
    }
}

} // verus!
