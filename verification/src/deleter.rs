//! The deleter: which entry a delete removes, and which outcomes count as
//! success.

use vstd::prelude::*;

use crate::entry::{file_location, file_location_spec, FileLocation};
use crate::error::{is_not_found, OpfsError, OpfsErrorKind};
use crate::path::{dir_segments_spec, lemma_trim_slashes_leading_slash, slash_free, split_path_spec};

verus! {

/// A root as the service writes it: it starts and ends with `/`.
pub open spec fn valid_root(root: Seq<char>) -> bool {
    root.len() > 0 && root[0] == '/' && root.last() == '/'
}

/// A path relative to the root: `/` itself, or one that does not start with
/// `/`.
pub open spec fn valid_relative_path(path: Seq<char>) -> bool {
    path == seq!['/'] || path.len() == 0 || path[0] != '/'
}

/// The absolute path of `path` under `root`: the root itself for `/`, else
/// the root followed by the path.
pub open spec fn rooted_abs_path_spec(root: Seq<char>, path: Seq<char>) -> Seq<char> {
    if path == seq!['/'] {
        root
    } else {
        root + path
    }
}

/// `build_rooted_abs_path` of opendal-core: returns `root` when `path` is
/// `"/"`, else `root` followed by `path`. Its debug assertions demand a root
/// that starts and ends with `/` and a path other than `"/"` that does not
/// start with `/`, which `requires` asks for.
#[verifier::external_body]
fn build_rooted_abs_path(root: &str, path: &str) -> (p: String)
    requires
        valid_root(root@),
        valid_relative_path(path@),
    ensures
        p@ == rooted_abs_path_spec(root@, path@),
{
    opendal_core::raw::build_rooted_abs_path(root, path)
}

/// Removes entries, files and directories alike (directories with all they
/// hold), below a root.
pub struct OpfsDeleter {
    root: String,
}

impl OpfsDeleter {
    #[verifier::type_invariant]
    spec fn root_is_valid(self) -> bool {
        valid_root(self.root@)
    }

    /// The root that paths are resolved against.
    pub closed spec fn root_spec(self) -> Seq<char> {
        self.root@
    }

    /// A deleter below `root`.
    pub fn new(root: &str) -> (d: Self)
        requires
            valid_root(root@),
        ensures
            d.root_spec() == root@,
    {
        OpfsDeleter { root: root.to_owned() }
    }

    /// The root that paths are resolved against.
    pub fn root(&self) -> (r: &str)
        ensures
            r@ == self.root_spec(),
            valid_root(r@),
    {
        proof {
            use_type_invariant(self);
        }
        self.root.as_str()
    }

    /// The absolute path of the entry that deleting `path` removes.
    pub fn rooted_path(&self, path: &str) -> (p: String)
        requires
            valid_relative_path(path@),
        ensures
            p@ == rooted_abs_path_spec(self.root_spec(), path@),
    {
        proof {
            use_type_invariant(self);
        }
        build_rooted_abs_path(self.root.as_str(), path)
    }

    /// Where the entry that deleting `path` removes lives: the directories
    /// walked to its parent, and its name there.
    pub fn delete_target(&self, path: &str) -> (loc: FileLocation)
        requires
            valid_relative_path(path@),
        ensures
            (loc.dirs.deep_view(), loc.name@) == file_location_spec(
                rooted_abs_path_spec(self.root_spec(), path@),
            ),
            loc.dirs.deep_view() == dir_segments_spec(
                split_path_spec(rooted_abs_path_spec(self.root_spec(), path@)).0,
            ),
            forall|i: int| 0 <= i < loc.dirs.len() ==> slash_free(#[trigger] loc.dirs@[i]@),
            slash_free(loc.name@),
    {
        let rooted = self.rooted_path(path);
        file_location(rooted.as_str())
    }

    /// The outcome of a delete, given what finding the parent directory or
    /// removing the entry gave: an entry that does not exist counts as
    /// deleted, so deleting is idempotent; any other failure stands.
    pub fn settle(outcome: Result<(), OpfsError>) -> (r: Result<(), OpfsError>)
        ensures
            match outcome {
                Ok(()) => r is Ok,
                Err(e) => if e.kind == OpfsErrorKind::NotFound {
                    r is Ok
                } else {
                    r == outcome
                },
            },
    {
        match outcome {
            Ok(()) => Ok(()),
            Err(e) => {
                if is_not_found(&e) {
                    Ok(())
                } else {
                    Err(e)
                }
            },
        }
    }
}

/// Below the root `/`, a delete removes the very entry that the other
/// operations address at the same path: it walks the same directories and
/// names the same entry as a stat, read or write of that path.
pub proof fn lemma_delete_targets_addressed_entry(path: Seq<char>)
    requires
        valid_relative_path(path),
    ensures
        file_location_spec(rooted_abs_path_spec(seq!['/'], path)) == file_location_spec(path),
{
    if path != seq!['/'] {
        lemma_trim_slashes_leading_slash(path);
    }
}

} // verus!
