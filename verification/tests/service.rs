use opfs::backend::{OpfsBackend, OpfsBuilder, OpfsCapability};
use opfs::deleter::OpfsDeleter;
use opfs::entry::{dir_metadata, file_metadata, EntryMode, EARLIEST_TIMESTAMP_MS, LATEST_TIMESTAMP_MS};
use opfs::error::{error_kind_from_name, parse_js_error, JsErrorFields, OpfsError, OpfsErrorKind};
use opfs::lister::OpfsLister;
use opfs::path::split_path;
use opfs::writer::OpfsWriter;

fn fields() -> JsErrorFields {
    JsErrorFields {
        error: None,
        name_property: None,
        string_value: None,
        message_property: None,
        debug_text: "JsValue(Object)".to_string(),
    }
}

fn err(kind: OpfsErrorKind) -> OpfsError {
    OpfsError { kind, message: "m".to_string() }
}

#[test]
fn dom_exception_names_map_to_kinds() {
    assert_eq!(error_kind_from_name("NotFoundError"), OpfsErrorKind::NotFound);
    assert_eq!(error_kind_from_name("NotAllowedError"), OpfsErrorKind::PermissionDenied);
    assert_eq!(error_kind_from_name("TypeMismatchError"), OpfsErrorKind::IsADirectory);
    assert_eq!(error_kind_from_name("SecurityError"), OpfsErrorKind::PermissionDenied);
    assert_eq!(error_kind_from_name("QuotaExceededError"), OpfsErrorKind::RateLimited);
    assert_eq!(error_kind_from_name("NoModificationAllowedError"), OpfsErrorKind::Unexpected);
    assert_eq!(error_kind_from_name(""), OpfsErrorKind::Unexpected);
    assert_eq!(error_kind_from_name("notfounderror"), OpfsErrorKind::Unexpected);
}

#[test]
fn js_error_object_gives_name_and_message() {
    let mut f = fields();
    f.error = Some(("NotFoundError".to_string(), "no such file".to_string()));
    f.name_property = Some("SecurityError".to_string());
    f.string_value = Some("ignored".to_string());
    let e = parse_js_error(f);
    assert_eq!(e.kind, OpfsErrorKind::NotFound);
    assert_eq!(e.message, "no such file");
}

#[test]
fn js_value_without_name_is_unknown_and_unexpected() {
    let e = parse_js_error(fields());
    assert_eq!(e.kind, OpfsErrorKind::Unexpected);
    assert_eq!(e.message, "JsValue(Object)");
}

#[test]
fn js_value_name_property_decides_kind() {
    let mut f = fields();
    f.name_property = Some("QuotaExceededError".to_string());
    f.message_property = Some("quota".to_string());
    let e = parse_js_error(f);
    assert_eq!(e.kind, OpfsErrorKind::RateLimited);
    assert_eq!(e.message, "quota");
}

#[test]
fn js_string_value_is_preferred_message() {
    let mut f = fields();
    f.name_property = Some("TypeMismatchError".to_string());
    f.string_value = Some("plain string".to_string());
    f.message_property = Some("property".to_string());
    let e = parse_js_error(f);
    assert_eq!(e.kind, OpfsErrorKind::IsADirectory);
    assert_eq!(e.message, "plain string");
}

#[test]
fn js_value_permission_names() {
    let mut f = fields();
    f.name_property = Some("NotAllowedError".to_string());
    assert_eq!(parse_js_error(f).kind, OpfsErrorKind::PermissionDenied);
}

#[test]
fn file_metadata_keeps_size_and_valid_time() {
    let m = file_metadata(12, 1_700_000_000_000);
    assert_eq!(m.mode, EntryMode::File);
    assert_eq!(m.content_length, Some(12));
    assert_eq!(m.last_modified_ms, Some(1_700_000_000_000));
}

#[test]
fn file_metadata_drops_out_of_range_time() {
    assert_eq!(file_metadata(0, i64::MAX).last_modified_ms, None);
    assert_eq!(file_metadata(0, i64::MIN).last_modified_ms, None);
    assert_eq!(file_metadata(0, LATEST_TIMESTAMP_MS).last_modified_ms, Some(LATEST_TIMESTAMP_MS));
    assert_eq!(file_metadata(0, LATEST_TIMESTAMP_MS + 1).last_modified_ms, None);
    assert_eq!(file_metadata(0, EARLIEST_TIMESTAMP_MS).last_modified_ms, Some(EARLIEST_TIMESTAMP_MS));
    assert_eq!(file_metadata(0, EARLIEST_TIMESTAMP_MS - 1).last_modified_ms, None);
}

#[test]
fn dir_metadata_is_a_bare_directory() {
    let m = dir_metadata();
    assert_eq!(m.mode, EntryMode::Dir);
    assert_eq!(m.content_length, None);
    assert_eq!(m.last_modified_ms, None);
}

#[test]
fn writer_concatenates_writes() {
    let mut w = OpfsWriter::new("test-write-read.txt");
    assert_eq!(w.path(), "test-write-read.txt");
    w.write(b"hello");
    w.write(b" ");
    w.write(b"world");
    assert_eq!(w.take_content(), b"hello world".to_vec());
}

#[test]
fn writer_with_no_writes_writes_empty_file() {
    let mut w = OpfsWriter::new("empty.txt");
    assert_eq!(w.take_content(), Vec::<u8>::new());
}

#[test]
fn writer_hands_over_once() {
    let mut w = OpfsWriter::new("a.txt");
    w.write(b"abc");
    assert_eq!(w.take_content(), b"abc".to_vec());
    assert_eq!(w.take_content(), Vec::<u8>::new());
}

#[test]
fn writer_abort_discards() {
    let mut w = OpfsWriter::new("a.txt");
    w.write(b"abc");
    w.abort();
    assert_eq!(w.take_content(), Vec::<u8>::new());
    w.write(b"xy");
    assert_eq!(w.take_content(), b"xy".to_vec());
}

#[test]
fn lister_entries() {
    let l = OpfsLister::new("test-list/");
    assert_eq!(l.path(), "test-list/");
    let f = l.entry(Some("a.txt".to_string()), Some("file".to_string()));
    assert_eq!(f.path, "test-list/a.txt");
    assert_eq!(f.mode, EntryMode::File);
    let d = l.entry(Some("sub".to_string()), Some("directory".to_string()));
    assert_eq!(d.path, "test-list/sub/");
    assert_eq!(d.mode, EntryMode::Dir);
    let unknown = l.entry(None, None);
    assert_eq!(unknown.path, "test-list/");
    assert_eq!(unknown.mode, EntryMode::File);
}

#[test]
fn lister_entry_name_is_last_component() {
    let l = OpfsLister::new("/x/y/");
    for kind in ["file", "directory"] {
        let e = l.entry(Some("n.bin".to_string()), Some(kind.to_string()));
        assert_eq!(split_path(&e.path).1, "n.bin");
        assert_eq!(e.path.ends_with('/'), e.mode == EntryMode::Dir);
    }
}

#[test]
fn lister_done_flag() {
    assert!(OpfsLister::is_exhausted(None));
    assert!(OpfsLister::is_exhausted(Some(true)));
    assert!(!OpfsLister::is_exhausted(Some(false)));
}

#[test]
fn deleter_roots_paths() {
    let d = OpfsDeleter::new("/some/root/");
    assert_eq!(d.root(), "/some/root/");
    assert_eq!(d.rooted_path("test-write-read.txt"), "/some/root/test-write-read.txt");
    assert_eq!(d.rooted_path("/"), "/some/root/");
    let plain = OpfsDeleter::new("/");
    assert_eq!(plain.rooted_path("a/b.txt"), "/a/b.txt");
}

#[test]
fn deleter_targets_parent_and_name() {
    let d = OpfsDeleter::new("/some/root/");
    let loc = d.delete_target("test-list/a.txt");
    assert_eq!(loc.dirs, vec!["some", "root", "test-list"]);
    assert_eq!(loc.name, "a.txt");
    let dir = d.delete_target("test-list/");
    assert_eq!(dir.dirs, vec!["some", "root"]);
    assert_eq!(dir.name, "test-list");
}

#[test]
fn delete_is_idempotent() {
    assert!(OpfsDeleter::settle(Ok(())).is_ok());
    assert!(OpfsDeleter::settle(Err(err(OpfsErrorKind::NotFound))).is_ok());
    let denied = OpfsDeleter::settle(Err(err(OpfsErrorKind::PermissionDenied)));
    assert_eq!(denied.unwrap_err().kind, OpfsErrorKind::PermissionDenied);
    let other = OpfsDeleter::settle(Err(err(OpfsErrorKind::Unexpected)));
    assert_eq!(other.unwrap_err().message, "m");
}

#[test]
fn list_of_missing_dir_is_empty() {
    assert_eq!(OpfsBackend::list_outcome(Ok(7u8)).unwrap(), Some(7));
    assert_eq!(OpfsBackend::list_outcome::<u8>(Err(err(OpfsErrorKind::NotFound))).unwrap(), None);
    let e = OpfsBackend::list_outcome::<u8>(Err(err(OpfsErrorKind::IsADirectory)));
    assert_eq!(e.unwrap_err().kind, OpfsErrorKind::IsADirectory);
    let r = OpfsBackend::list_outcome::<u8>(Err(err(OpfsErrorKind::RateLimited)));
    assert_eq!(r.unwrap_err().kind, OpfsErrorKind::RateLimited);
}

#[test]
fn backend_info() {
    let b = OpfsBuilder::default().build();
    let info = b.info();
    assert_eq!(info.scheme, "opfs");
    assert_eq!(info.name, "opfs");
    assert_eq!(info.root, "/");
    assert_eq!(
        info.native_capability,
        OpfsCapability {
            stat: true,
            read: true,
            write: true,
            write_can_empty: true,
            create_dir: true,
            delete: true,
            list: true,
        }
    );
    assert_eq!(b.deleter().root(), "/");
}

#[test]
fn delete_below_slash_targets_addressed_entry() {
    let d = OpfsBackend::default().deleter();
    for p in ["a/b.txt", "top.txt", "dir/", "x/y/z"] {
        let del = d.delete_target(p);
        let loc = opfs::entry::file_location(p);
        assert_eq!(del.dirs, loc.dirs);
        assert_eq!(del.name, loc.name);
    }
}
