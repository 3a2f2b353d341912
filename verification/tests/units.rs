use which::{split_search_path, Error, FileCheck, FsTable};

fn bytes(s: &str) -> Vec<u8> {
    s.as_bytes().to_vec()
}

#[test]
fn split_two_entries() {
    let r = split_search_path(b"/usr/bin:/bin");
    assert_eq!(r, vec![bytes("/usr/bin"), bytes("/bin")]);
}

#[test]
fn split_single_entry() {
    let r = split_search_path(b"/usr/local/bin");
    assert_eq!(r, vec![bytes("/usr/local/bin")]);
}

#[test]
fn split_empty_value_is_one_empty_entry() {
    let r = split_search_path(b"");
    assert_eq!(r, vec![Vec::<u8>::new()]);
}

#[test]
fn split_keeps_empty_segments() {
    let r = split_search_path(b"/a::/b:");
    assert_eq!(r, vec![bytes("/a"), Vec::new(), bytes("/b"), Vec::new()]);
}

#[test]
fn messages_name_each_failure() {
    assert_eq!(Error::BadAbsolutePath.message(), "bad absolute path");
    assert_eq!(Error::BadRelativePath.message(), "bad relative path");
    assert_eq!(Error::SearchPathUnavailable.message(), "search path unavailable");
    assert_eq!(Error::CannotFindBinaryPath.message(), "cannot find binary path");
    assert_eq!(Error::CannotGetCurrentDir.message(), "cannot get current directory");
}

#[test]
fn empty_table_answers_no() {
    let t = FsTable::new();
    assert!(!t.is_exist(b"/anything"));
    assert!(!t.is_executable(b"/anything"));
}

#[test]
fn added_file_is_found() {
    let mut t = FsTable::new();
    t.add_file(bytes("/d/tool"), true);
    assert!(t.is_exist(b"/d/tool"));
    assert!(t.is_executable(b"/d/tool"));
    assert!(!t.is_exist(b"/d/other"));
}

#[test]
fn non_executable_file_exists_but_fails_access() {
    let mut t = FsTable::new();
    t.add_file(bytes("/d/notes"), false);
    assert!(t.is_exist(b"/d/notes"));
    assert!(!t.is_executable(b"/d/notes"));
}

#[test]
fn directory_is_searchable_but_no_file() {
    let mut t = FsTable::new();
    t.add_dir(bytes("/d"));
    assert!(!t.is_exist(b"/d"));
    assert!(t.is_executable(b"/d"));
}
