//! The service itself: what it offers, and how the outcomes of its
//! operations are settled.

use vstd::prelude::*;

use crate::deleter::OpfsDeleter;
use crate::error::{is_not_found, OpfsError, OpfsErrorKind};

verus! {

/// The configuration of the service.
#[derive(Debug, Default)]
pub struct OpfsConfig {
    /// The root below which the service works.
    pub root: Option<String>,
}

/// Builds the service from its configuration.
#[derive(Debug, Default)]
pub struct OpfsBuilder {
    pub config: OpfsConfig,
}

/// The operations the service supports natively.
#[derive(Debug, Clone, Copy, PartialEq, Eq, Structural)]
pub struct OpfsCapability {
    pub stat: bool,
    pub read: bool,
    pub write: bool,
    pub write_can_empty: bool,
    pub create_dir: bool,
    pub delete: bool,
    pub list: bool,
}

/// What the service reports about itself.
#[derive(Debug)]
pub struct OpfsInfo {
    pub scheme: String,
    pub name: String,
    pub root: String,
    pub native_capability: OpfsCapability,
}

/// The OPFS service.
#[derive(Debug, Clone, Copy, Default)]
pub struct OpfsBackend {}

impl OpfsBuilder {
    /// The service; it keeps nothing of the configuration.
    pub fn build(self) -> (b: OpfsBackend)
        ensures
            b == (OpfsBackend {}),
    {
        OpfsBackend {}
    }
}

impl OpfsBackend {
    /// What the service reports about itself: its scheme is `opfs`, it is
    /// called `opfs`, works
    /// from the root `/`, and supports stat, read, write (empty files too),
    /// creating directories, delete and list.
    pub fn info(&self) -> (i: OpfsInfo)
        ensures
            i.scheme@ == "opfs"@,
            i.name@ == "opfs"@,
            i.root@ == "/"@,
            i.native_capability == (OpfsCapability {
                stat: true,
                read: true,
                write: true,
                write_can_empty: true,
                create_dir: true,
                delete: true,
                list: true,
            }),
    {
        OpfsInfo {
            scheme: "opfs".to_owned(),
            name: "opfs".to_owned(),
            root: "/".to_owned(),
            native_capability: OpfsCapability {
                stat: true,
                read: true,
                write: true,
                write_can_empty: true,
                create_dir: true,
                delete: true,
                list: true,
            },
        }
    }

    /// The deleter of the service, working from its root `/`.
    pub fn deleter(&self) -> (d: OpfsDeleter)
        ensures
            d.root_spec() == seq!['/'],
    {
        let root = "/";
        proof {
            reveal_strlit("/");
        }
        OpfsDeleter::new(root)
    }

    /// The outcome of `list`, given what opening the directory gave: a
    /// directory that does not exist lists as empty (`None`); any other
    /// failure stands.
    pub fn list_outcome<T>(opened: Result<T, OpfsError>) -> (r: Result<Option<T>, OpfsError>)
        ensures
            match opened {
                Ok(it) => r == Ok::<Option<T>, OpfsError>(Some(it)),
                Err(e) => if e.kind == OpfsErrorKind::NotFound {
                    r == Ok::<Option<T>, OpfsError>(None)
                } else {
                    r == Err::<Option<T>, OpfsError>(e)
                },
            },
    {
        match opened {
            Ok(it) => Ok(Some(it)),
            Err(e) => {
                if is_not_found(&e) {
                    Ok(None)
                } else {
                    Err(e)
                }
            },
        }
    }
}

} // verus!
