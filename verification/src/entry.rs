//! What `stat`, `read` and `list` resolve a path to before the browser is
//! asked, and the metadata that is reported for what it answers.

use vstd::prelude::*;

use crate::path::{
    dir_segments_spec, directory_segments, join_with_slash, lemma_dir_segments_join,
    lemma_split_path_parts, lemma_trim_end_prefix, lemma_trim_slashes_shape, slash_free, split_path, split_path_spec, trim_slashes,
    trim_slashes_str, trim_start_slashes,
};
use crate::text::chars_of;

verus! {

/// The earliest instant, in milliseconds since the Unix epoch, that a
/// timestamp of the service can hold.
pub const EARLIEST_TIMESTAMP_MS: i64 = -377705023201000i64;

/// The latest instant, in milliseconds since the Unix epoch, that a
/// timestamp of the service can hold.
pub const LATEST_TIMESTAMP_MS: i64 = 253402207200000i64;

/// Whether an entry is a file or a directory.
#[derive(Debug, Clone, Copy, PartialEq, Eq, Structural)]
pub enum EntryMode {
    File,
    Dir,
}

/// The metadata reported for an entry.
#[derive(Debug, Clone, Copy, PartialEq, Eq, Structural)]
pub struct EntryMetadata {
    pub mode: EntryMode,
    /// The size of a file in bytes.
    pub content_length: Option<u64>,
    /// When a file was last modified, in milliseconds since the Unix epoch.
    pub last_modified_ms: Option<i64>,
}

/// `Timestamp::from_millisecond` of opendal-core, which hands the value to
/// `jiff::Timestamp::from_millisecond`: it succeeds exactly when the
/// millisecond count lies between `EARLIEST_TIMESTAMP_MS` and
/// `LATEST_TIMESTAMP_MS`, both included (jiff's documented range, whose
/// bounds jiff-core's source fixes at these values).
#[verifier::external_body]
fn timestamp_accepts(millis: i64) -> (ok: bool)
    ensures
        ok == (EARLIEST_TIMESTAMP_MS <= millis <= LATEST_TIMESTAMP_MS),
{
    opendal_core::raw::Timestamp::from_millisecond(millis).is_ok()
}

/// The metadata of a directory.
pub fn dir_metadata() -> (m: EntryMetadata)
    ensures
        m == (EntryMetadata { mode: EntryMode::Dir, content_length: None, last_modified_ms: None }),
{
    EntryMetadata { mode: EntryMode::Dir, content_length: None, last_modified_ms: None }
}

/// The metadata of a file of `size` bytes last modified at
/// `last_modified_ms`: the modification time is kept only where it is a
/// valid timestamp.
pub fn file_metadata(size: u64, last_modified_ms: i64) -> (m: EntryMetadata)
    ensures
        m.mode == EntryMode::File,
        m.content_length == Some(size),
        m.last_modified_ms == (if EARLIEST_TIMESTAMP_MS <= last_modified_ms <= LATEST_TIMESTAMP_MS {
            Some(last_modified_ms)
        } else {
            None::<i64>
        }),
{
    let last_modified = if timestamp_accepts(last_modified_ms) {
        Some(last_modified_ms)
    } else {
        None
    };
    EntryMetadata { mode: EntryMode::File, content_length: Some(size), last_modified_ms: last_modified }
}

/// Where a file lives: the directories walked from the root, and its name in
/// the last of them.
#[derive(Debug)]
pub struct FileLocation {
    pub dirs: Vec<String>,
    pub name: String,
}

/// The directories walked to reach the file at `path`, and its name.
pub open spec fn file_location_spec(path: Seq<char>) -> (Seq<Seq<char>>, Seq<char>) {
    let (parent, name) = split_path_spec(path);
    (dir_segments_spec(parent), name)
}

/// Resolves the path of a file to the directories to walk and the name to
/// open in the last of them.
pub fn file_location(path: &str) -> (loc: FileLocation)
    ensures
        (loc.dirs.deep_view(), loc.name@) == file_location_spec(path@),
        loc.dirs.deep_view() == dir_segments_spec(split_path_spec(path@).0),
        forall|i: int| 0 <= i < loc.dirs.len() ==> slash_free(#[trigger] loc.dirs@[i]@),
        slash_free(loc.name@),
{
    proof {
        lemma_file_location_parts(path@);
    }
    let (parent, name) = split_path(path);
    let dirs = directory_segments(parent);
    assert forall|i: int| 0 <= i < dirs.len() implies slash_free(#[trigger] dirs@[i]@) by {
        assert(dirs.deep_view()[i] == dirs@[i]@);
    }
    FileLocation { dirs, name: name.to_owned() }
}

/// The directories walked to reach a file are its parent path cut at every
/// `/`: none holds a `/`, and joined with `/` they give the trimmed parent.
/// The name holds no `/` and is empty only for the root; no directory is
/// walked exactly when the trimmed path holds no `/`, and otherwise the
/// trimmed path is the parent, a `/` and the name.
pub proof fn lemma_file_location_parts(path: Seq<char>)
    ensures
        ({
            let (dirs, name) = file_location_spec(path);
            let parent = split_path_spec(path).0;
            let t = trim_slashes(path);
            &&& dirs == dir_segments_spec(parent)
            &&& forall|i: int| 0 <= i < dirs.len() ==> slash_free(#[trigger] dirs[i])
            &&& join_with_slash(dirs) == trim_slashes(parent)
            &&& slash_free(name)
            &&& name.len() == 0 <==> t.len() == 0
            &&& dirs.len() == 0 <==> slash_free(t)
            &&& dirs.len() == 0 ==> name == t
            &&& dirs.len() > 0 ==> t == parent + seq!['/'] + name
        }),
{
    let (parent, name) = split_path_spec(path);
    let t = trim_slashes(path);
    lemma_split_path_parts(path);
    lemma_dir_segments_join(parent);
    lemma_trim_slashes_shape(parent);
    lemma_trim_slashes_shape(path);
    if !slash_free(t) && parent.len() == 0 {
        assert(t[0] == '/');
    }
    if parent.len() > 0 {
        assert(trim_start_slashes(parent) == parent);
        assert(trim_slashes(parent).len() > 0) by {
            lemma_trim_end_prefix(parent);
            if trim_slashes(parent).len() == 0 {
                assert(parent[0] == '/');
            }
        }
    }
}

/// Where the directories walked to reach a file hold no empty segment, they
/// and the file's name, joined with `/`, give back the trimmed path.
pub proof fn lemma_file_location_join(path: Seq<char>)
    requires
        trim_slashes(split_path_spec(path).0) == split_path_spec(path).0,
    ensures
        ({
            let (dirs, name) = file_location_spec(path);
            join_with_slash(dirs.push(name)) == trim_slashes(path)
        }),
{
    let (parent, name) = split_path_spec(path);
    let dirs = dir_segments_spec(parent);
    lemma_split_path_parts(path);
    lemma_dir_segments_join(parent);
    lemma_trim_slashes_shape(path);
    if parent.len() == 0 {
        assert(dirs.push(name) =~= seq![name]);
        if !slash_free(trim_slashes(path)) {
            assert(trim_slashes(path)[0] == '/');
        }
    } else {
        assert(dirs.push(name).drop_last() =~= dirs);
        assert(dirs.len() > 0);
        assert(join_with_slash(dirs.push(name)) == join_with_slash(dirs) + seq!['/'] + name);
    }
}

/// What `stat` looks at for a path.
#[derive(Debug)]
pub enum StatTarget {
    /// The root, which always exists.
    Root,
    /// The directory reached by walking these directories from the root.
    Dir(Vec<String>),
    /// The file at this location.
    File(FileLocation),
}

/// Whether `path` names a directory: it ends with `/`.
pub open spec fn names_dir(path: Seq<char>) -> bool {
    path.len() > 0 && path.last() == '/'
}

/// Resolves the path given to `stat`: a path that ends with `/` is a
/// directory (the root where it holds nothing but slashes), any other a file.
pub fn stat_target(path: &str) -> (t: StatTarget)
    ensures
        names_dir(path@) && trim_slashes(path@).len() == 0 ==> t is Root,
        names_dir(path@) && trim_slashes(path@).len() > 0 ==> (t matches StatTarget::Dir(dirs)
            && dirs.deep_view() == dir_segments_spec(path@)),
        !names_dir(path@) ==> (t matches StatTarget::File(loc) && (loc.dirs.deep_view(), loc.name@)
            == file_location_spec(path@)),
        t matches StatTarget::Dir(dirs) ==> forall|i: int|
            0 <= i < dirs.len() ==> slash_free(#[trigger] dirs@[i]@),
        t matches StatTarget::File(loc) ==> (forall|i: int|
            0 <= i < loc.dirs.len() ==> slash_free(#[trigger] loc.dirs@[i]@)) && slash_free(
            loc.name@,
        ),
{
    let cs = chars_of(path);
    let n = cs.len();
    if n > 0 && cs[n - 1] == '/' {
        let trimmed = trim_slashes_str(path);
        if trimmed.unicode_len() == 0 {
            StatTarget::Root
        } else {
            StatTarget::Dir(directory_segments(path))
        }
    } else {
        StatTarget::File(file_location(path))
    }
}

} // verus!
