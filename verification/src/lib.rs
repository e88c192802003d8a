//! Path handling, error mapping and operation planning for a storage
//! service backed by the browser's Origin Private File System (OPFS).

pub mod backend;
pub mod deleter;
pub mod entry;
pub mod error;
pub mod lister;
pub mod path;
mod text;
pub mod writer;
