//! The lister: turns what the browser's directory iterator yields into the
//! entries of a listing.

use vstd::prelude::*;

use crate::entry::{names_dir, EntryMode};
use crate::path::{
    last_slash, lemma_last_slash, lemma_last_slash_concat, lemma_trim_end_after,
    lemma_trim_start_concat, lemma_trim_start_keeps_last, slash_free, split_path_spec,
    trim_end_slashes, trim_slashes, trim_start_slashes,
};
use crate::text::same_text;

verus! {

/// Lists the entries of one directory.
pub struct OpfsLister {
    /// The directory path being listed (e.g. `"test-list/"`).
    path: String,
}

/// One entry of a listing: its path and whether it is a file or a directory.
#[derive(Debug)]
pub struct ListEntry {
    pub path: String,
    pub mode: EntryMode,
}

/// The `kind` that the browser gives a directory handle.
pub open spec fn is_directory_kind(kind: Option<String>) -> bool {
    match kind {
        Some(k) => k@ == "directory"@,
        None => false,
    }
}

/// The characters of an optional string, an absent one holding none.
pub open spec fn text_or_empty(s: Option<String>) -> Seq<char> {
    match s {
        Some(t) => t@,
        None => Seq::empty(),
    }
}

/// The entry listed in directory `dir` for a child called `name` whose
/// handle is of kind `kind`: a directory's path ends with `/`.
pub open spec fn list_entry_spec(dir: Seq<char>, name: Option<String>, kind: Option<String>) -> (
    Seq<char>,
    EntryMode,
) {
    if is_directory_kind(kind) {
        (dir + text_or_empty(name) + seq!['/'], EntryMode::Dir)
    } else {
        (dir + text_or_empty(name), EntryMode::File)
    }
}

impl OpfsLister {
    /// A lister of the directory at `path`.
    pub fn new(path: &str) -> (l: Self)
        ensures
            l.dir()@ == path@,
    {
        OpfsLister { path: path.to_owned() }
    }

    /// The directory path being listed.
    pub closed spec fn dir(&self) -> String {
        self.path
    }

    /// The directory path being listed.
    pub fn path(&self) -> (p: &str)
        ensures
            p@ == self.dir()@,
    {
        self.path.as_str()
    }

    /// Whether the iterator is exhausted, given its `done` flag: a flag that
    /// is missing or not a boolean counts as done.
    pub fn is_exhausted(done: Option<bool>) -> (r: bool)
        ensures
            r == match done {
                Some(d) => d,
                None => true,
            },
    {
        match done {
            Some(d) => d,
            None => true,
        }
    }

    /// The entry for a child called `name` (none counts as empty) whose
    /// handle is of kind `kind`.
    pub fn entry(&self, name: Option<String>, kind: Option<String>) -> (e: ListEntry)
        ensures
            (e.path@, e.mode) == list_entry_spec(self.dir()@, name, kind),
            e.mode == EntryMode::Dir <==> is_directory_kind(kind),
            e.mode == EntryMode::File ==> e.path@ == self.dir()@ + text_or_empty(name),
            e.mode == EntryMode::Dir ==> e.path@ == self.dir()@ + text_or_empty(name) + seq!['/'],
    {
        let is_dir = match &kind {
            Some(k) => same_text(k.as_str(), "directory"),
            None => false,
        };
        let mut path = self.path.clone();
        match &name {
            Some(n) => path.append(n.as_str()),
            None => {},
        }
        assert(path@ == self.dir()@ + text_or_empty(name));
        if is_dir {
            let slash = "/";
            proof {
                reveal_strlit("/");
            }
            path.append(slash);
            ListEntry { path, mode: EntryMode::Dir }
        } else {
            ListEntry { path, mode: EntryMode::File }
        }
    }
}

/// An entry's path is the listed directory path, followed by the child's
/// name, followed by one `/` exactly for a directory; the entry is a
/// directory exactly when its handle is of kind `directory`.
pub proof fn lemma_entry_extends_listed_dir(dir: Seq<char>, name: Option<String>, kind: Option<String>)
    ensures
        ({
            let (path, mode) = list_entry_spec(dir, name, kind);
            let n = text_or_empty(name);
            &&& path.subrange(0, dir.len() as int) == dir
            &&& path.subrange(dir.len() as int, (dir.len() + n.len()) as int) == n
            &&& mode == EntryMode::Dir <==> (kind matches Some(k) && k@ == "directory"@)
            &&& mode == EntryMode::File ==> path.len() == dir.len() + n.len()
            &&& mode == EntryMode::Dir ==> path.len() == dir.len() + n.len() + 1 && path.last()
                == '/'
        }),
{
    let (path, mode) = list_entry_spec(dir, name, kind);
    let n = text_or_empty(name);
    assert(path.subrange(0, dir.len() as int) =~= dir);
    assert(path.subrange(dir.len() as int, (dir.len() + n.len()) as int) =~= n);
}

/// In a listing of a directory path that is empty or ends with `/`, the
/// last component of an entry's path is the listed name, and an entry's path
/// names a directory exactly when the entry is one.
pub proof fn lemma_entry_path_parts(dir: Seq<char>, name: String, kind: Option<String>)
    requires
        name@.len() > 0,
        slash_free(name@),
        dir.len() == 0 || dir.last() == '/',
    ensures
        ({
            let (path, mode) = list_entry_spec(dir, Some(name), kind);
            &&& split_path_spec(path).1 == name@
            &&& names_dir(path) <==> mode == EntryMode::Dir
        }),
{
    let n = name@;
    let (path, mode) = list_entry_spec(dir, Some(name), kind);
    let x = trim_start_slashes(dir);
    lemma_trim_start_concat(dir, n);
    let xn = x + n;
    assert(xn.len() > 0 && xn.last() == n.last());
    lemma_trim_end_after(xn);
    if is_directory_kind(kind) {
        assert(path =~= (dir + n).push('/'));
        assert(path.drop_last() =~= dir + n);
        assert(trim_start_slashes(path) == trim_start_slashes(dir + n).push('/')) by {
            lemma_trim_start_concat(dir, n.push('/'));
            assert(dir + n.push('/') =~= path);
            assert(x + n.push('/') =~= xn.push('/'));
        }
    } else {
        assert(path =~= dir + n);
    }
    assert(trim_slashes(path) == xn);
    lemma_last_slash_concat(x, n);
    lemma_last_slash(x);
    if dir.len() > 0 {
        lemma_trim_start_keeps_last(dir);
    } else {
        assert(x.len() == 0);
    }
    if x.len() > 0 {
        assert(last_slash(x) == x.len() - 1);
        assert(xn.skip(x.len() as int) =~= n);
    } else {
        assert(xn =~= n);
        assert(last_slash(n) == -1) by {
            lemma_last_slash(n);
        }
    }
    if !is_directory_kind(kind) {
        assert(path.last() == n.last());
    }
}

} // verus!
