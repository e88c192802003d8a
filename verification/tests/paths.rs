use opfs::entry::{file_location, stat_target, StatTarget};
use opfs::path::{directory_segments, split_path, trim_slashes_str};

#[test]
fn trim_removes_slashes_at_both_ends_only() {
    assert_eq!(trim_slashes_str("//a/b//"), "a/b");
    assert_eq!(trim_slashes_str("a//b"), "a//b");
    assert_eq!(trim_slashes_str("////"), "");
    assert_eq!(trim_slashes_str(""), "");
    assert_eq!(trim_slashes_str("/ä/ö/"), "ä/ö");
}

#[test]
fn trim_is_idempotent() {
    for p in ["//a/b//", "x", "/", "", "a//b/"] {
        let once = trim_slashes_str(p);
        assert_eq!(trim_slashes_str(once), once);
    }
}

#[test]
fn split_path_nested_file() {
    assert_eq!(split_path("a/b/c.txt"), ("a/b", "c.txt"));
}

#[test]
fn split_path_top_level_file() {
    assert_eq!(split_path("file.txt"), ("", "file.txt"));
}

#[test]
fn split_path_ignores_outer_slashes() {
    assert_eq!(split_path("/a/b/"), ("a", "b"));
    assert_eq!(split_path("///x///"), ("", "x"));
}

#[test]
fn split_path_cuts_at_last_slash() {
    assert_eq!(split_path("a//b"), ("a/", "b"));
}

#[test]
fn split_path_root_and_empty() {
    assert_eq!(split_path("/"), ("", ""));
    assert_eq!(split_path(""), ("", ""));
}

#[test]
fn split_path_unicode_names() {
    assert_eq!(split_path("dossier/été/ファイル.txt"), ("dossier/été", "ファイル.txt"));
}

#[test]
fn split_path_parts_rejoin_to_trimmed_path() {
    for p in ["a/b/c.txt", "/x/y/", "z", "a//b"] {
        let (parent, name) = split_path(p);
        assert!(!name.contains('/'));
        let rejoined = if parent.is_empty() { name.to_string() } else { format!("{parent}/{name}") };
        assert_eq!(rejoined, trim_slashes_str(p));
    }
}

#[test]
fn directory_segments_of_nested_dir() {
    assert_eq!(directory_segments("a/b/c"), vec!["a", "b", "c"]);
    assert_eq!(directory_segments("/a/b/c/"), vec!["a", "b", "c"]);
}

#[test]
fn directory_segments_of_root_is_empty() {
    assert!(directory_segments("/").is_empty());
    assert!(directory_segments("").is_empty());
    assert!(directory_segments("///").is_empty());
}

#[test]
fn directory_segments_keep_empty_segments() {
    assert_eq!(directory_segments("a//b/"), vec!["a", "", "b"]);
}

#[test]
fn directory_segments_join_to_trimmed_path() {
    for d in ["a/b/c", "/x//y/", "single", "/"] {
        assert_eq!(directory_segments(d).join("/"), trim_slashes_str(d));
    }
}

#[test]
fn file_location_of_nested_file() {
    let loc = file_location("a/b/c.txt");
    assert_eq!(loc.dirs, vec!["a", "b"]);
    assert_eq!(loc.name, "c.txt");
}

#[test]
fn file_location_of_top_level_file() {
    let loc = file_location("test-write-read.txt");
    assert!(loc.dirs.is_empty());
    assert_eq!(loc.name, "test-write-read.txt");
}

#[test]
fn file_location_rejoins_to_path() {
    let loc = file_location("some/root/test.txt");
    let mut parts = loc.dirs.clone();
    parts.push(loc.name.clone());
    assert_eq!(parts.join("/"), "some/root/test.txt");
}

#[test]
fn stat_of_root_is_root() {
    assert!(matches!(stat_target("/"), StatTarget::Root));
    assert!(matches!(stat_target("////"), StatTarget::Root));
}

#[test]
fn stat_of_dir_path_walks_its_segments() {
    match stat_target("test-list/") {
        StatTarget::Dir(dirs) => assert_eq!(dirs, vec!["test-list"]),
        other => panic!("expected a directory, got {:?}", other),
    }
    match stat_target("/a/b/") {
        StatTarget::Dir(dirs) => assert_eq!(dirs, vec!["a", "b"]),
        other => panic!("expected a directory, got {:?}", other),
    }
}

#[test]
fn stat_of_file_path_locates_the_file() {
    match stat_target("a/test-stat.txt") {
        StatTarget::File(loc) => {
            assert_eq!(loc.dirs, vec!["a"]);
            assert_eq!(loc.name, "test-stat.txt");
        }
        other => panic!("expected a file, got {:?}", other),
    }
    match stat_target("test-stat.txt") {
        StatTarget::File(loc) => {
            assert!(loc.dirs.is_empty());
            assert_eq!(loc.name, "test-stat.txt");
        }
        other => panic!("expected a file, got {:?}", other),
    }
}

#[test]
fn directory_segments_ignore_prior_trim() {
    for d in ["/a/b/", "a//b", "///", "x"] {
        assert_eq!(directory_segments(trim_slashes_str(d)), directory_segments(d));
    }
}
