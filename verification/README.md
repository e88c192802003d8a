# opfs

A storage service on the browser's Origin Private File System (OPFS), for
OpenDAL. The library in `src/` holds its logic, verified with Verus:

- `path`: trimming slashes, splitting a path into parent and name, and the
  directories walked from the root to reach a directory;
- `entry`: what `stat`, `read` and `write` resolve a path to, and the metadata
  reported for files and directories;
- `error`: how a value thrown by the browser becomes an error of the service;
- `writer`, `lister`, `deleter`: the state and decisions of writing, listing
  and deleting;
- `backend`: what the service offers, and how a listing of a missing
  directory is answered.

`app/` performs the browser calls (through `web-sys`) and implements the
opendal-core traits on top of the library; those trait impls exist on wasm32
only, where OPFS lives.
