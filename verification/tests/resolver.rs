use which::{which_in, Error, FileCheck, FsTable};

const BASE: &str = "/tmp/which_tests";
const SUBDIRS: &[&str] = &["a", "b", "c"];
const BIN_NAME: &str = "bin";

fn bytes(s: &str) -> Vec<u8> {
    s.as_bytes().to_vec()
}

/// A known filesystem: directories `a`, `b`, `c` under a base
/// directory, each holding an executable regular file named `bin`.
/// The search path lists the three directories in order and the
/// working directory is the base.
struct TestFixture {
    fs: FsTable,
    paths: Vec<Vec<u8>>,
    cwd: Vec<u8>,
    bins: Vec<Vec<u8>>,
}

impl TestFixture {
    fn new() -> TestFixture {
        let mut fs = FsTable::new();
        fs.add_dir(bytes(BASE));
        let mut paths = Vec::new();
        let mut bins = Vec::new();
        for d in SUBDIRS {
            let dir = format!("{}/{}", BASE, d);
            fs.add_dir(bytes(&dir));
            let bin = format!("{}/{}", dir, BIN_NAME);
            fs.add_file(bytes(&bin), true);
            bins.push(bytes(&bin));
            paths.push(bytes(&dir));
        }
        TestFixture { fs, paths, cwd: bytes(BASE), bins }
    }

    /// Lists an executable regular file under the base directory.
    fn mk_bin(&mut self, path: &str) -> Vec<u8> {
        let full = format!("{}/{}", BASE, path);
        self.fs.add_file(bytes(&full), true);
        bytes(&full)
    }

    /// Lists a non-executable regular file under the base directory.
    fn touch(&mut self, path: &str) -> Vec<u8> {
        let full = format!("{}/{}", BASE, path);
        self.fs.add_file(bytes(&full), false);
        bytes(&full)
    }
}

fn _which(f: &TestFixture, name: &[u8]) -> Result<Vec<u8>, Error> {
    which_in(name, Some(&f.paths), &f.cwd, &f.fs)
}

#[test]
fn test_which() {
    let f = TestFixture::new();
    assert_eq!(_which(&f, BIN_NAME.as_bytes()).unwrap(), f.bins[0]);
}

#[test]
fn test_which_not_found() {
    let f = TestFixture::new();
    assert!(_which(&f, b"a").is_err());
}

#[test]
fn test_which_second() {
    let mut f = TestFixture::new();
    let b = f.mk_bin("b/another");
    assert_eq!(_which(&f, b"another").unwrap(), b);
}

#[test]
fn test_which_non_executable() {
    let mut f = TestFixture::new();
    f.touch("b/another");
    assert!(_which(&f, b"another").is_err());
}

#[test]
fn test_which_absolute() {
    let f = TestFixture::new();
    assert_eq!(_which(&f, &f.bins[1]).unwrap(), f.bins[1]);
}

#[test]
fn test_which_relative() {
    let f = TestFixture::new();
    assert_eq!(_which(&f, b"b/bin").unwrap(), f.bins[1]);
}

#[test]
fn test_with_relative_leading_dot() {
    let f = TestFixture::new();
    assert_eq!(_which(&f, b"./b/bin").unwrap(), f.bins[1]);
}

#[test]
fn test_which_absolute_non_executable() {
    // A non-executable file is not returned, even via an absolute path.
    let mut f = TestFixture::new();
    let b = f.touch("b/another");
    assert!(_which(&f, &b).is_err());
}

#[test]
fn test_which_relative_non_executable() {
    // A non-executable file is not returned via a relative path either.
    let mut f = TestFixture::new();
    f.touch("b/another");
    assert!(_which(&f, b"b/another").is_err());
}

#[test]
fn absolute_hit_returns_exact_path() {
    let f = TestFixture::new();
    let r = _which(&f, &f.bins[0]).unwrap();
    assert_eq!(r, bytes("/tmp/which_tests/a/bin"));
}

#[test]
fn absolute_non_executable_is_bad_absolute_path() {
    let mut f = TestFixture::new();
    let b = f.touch("b/plain");
    assert_eq!(_which(&f, &b), Err(Error::BadAbsolutePath));
}

#[test]
fn absolute_missing_is_bad_absolute_path() {
    let f = TestFixture::new();
    assert_eq!(_which(&f, b"/tmp/which_tests/a/nothing"), Err(Error::BadAbsolutePath));
}

#[test]
fn relative_hit_is_joined_onto_cwd() {
    let f = TestFixture::new();
    assert_eq!(_which(&f, b"b/bin").unwrap(), bytes("/tmp/which_tests/b/bin"));
}

#[test]
fn relative_missing_is_bad_relative_path() {
    let f = TestFixture::new();
    assert_eq!(_which(&f, b"b/nothing"), Err(Error::BadRelativePath));
}

#[test]
fn leading_dot_matches_plain_relative_result() {
    let f = TestFixture::new();
    assert_eq!(_which(&f, b"./b/bin"), _which(&f, b"b/bin"));
}

#[test]
fn cwd_with_trailing_separator_joins_cleanly() {
    let f = TestFixture::new();
    let cwd = bytes("/tmp/which_tests/");
    let r = which_in(b"b/bin", Some(&f.paths), &cwd, &f.fs).unwrap();
    assert_eq!(r, bytes("/tmp/which_tests/b/bin"));
}

#[test]
fn bare_without_search_path_is_unavailable() {
    let f = TestFixture::new();
    assert_eq!(
        which_in(b"bin", None, &f.cwd, &f.fs),
        Err(Error::SearchPathUnavailable)
    );
}

#[test]
fn bare_not_in_any_directory_is_not_found() {
    let f = TestFixture::new();
    assert_eq!(_which(&f, b"nothing"), Err(Error::CannotFindBinaryPath));
}

#[test]
fn empty_name_is_rejected() {
    let f = TestFixture::new();
    assert_eq!(_which(&f, b""), Err(Error::BadRelativePath));
}

#[test]
fn identical_calls_agree() {
    let mut f = TestFixture::new();
    f.mk_bin("b/tool");
    let first = _which(&f, b"tool");
    let second = _which(&f, b"tool");
    assert_eq!(first, second);
    let third = _which(&f, b"missing");
    let fourth = _which(&f, b"missing");
    assert_eq!(third, fourth);
}

#[test]
fn directory_entry_is_skipped() {
    // A directory named like the request is no match: the search moves
    // on and takes the regular file in a later directory.
    let mut f = TestFixture::new();
    f.fs.add_dir(bytes("/tmp/which_tests/a/tool"));
    let b = f.mk_bin("b/tool");
    assert_eq!(_which(&f, b"tool").unwrap(), b);
}

#[test]
fn directory_entries_alone_never_match() {
    let mut f = TestFixture::new();
    f.fs.add_dir(bytes("/tmp/which_tests/a/tool"));
    f.fs.add_dir(bytes("/tmp/which_tests/c/tool"));
    assert_eq!(_which(&f, b"tool"), Err(Error::CannotFindBinaryPath));
}

/// Counts how often the existence check is consulted, to observe where
/// a search stops.
struct CountingFs {
    inner: FsTable,
    exist_calls: std::cell::Cell<usize>,
}

impl FileCheck for CountingFs {
    fn is_exist(&self, path: &[u8]) -> bool {
        self.exist_calls.set(self.exist_calls.get() + 1);
        self.inner.is_exist(path)
    }

    fn is_executable(&self, path: &[u8]) -> bool {
        self.inner.is_executable(path)
    }
}

#[test]
fn search_stops_at_first_match() {
    // The match sits in the second of three directories; the existence
    // check is consulted once per directory up to and including the
    // match, and the third directory is never consulted.
    let mut f = TestFixture::new();
    let b = f.mk_bin("b/tool");
    let counting = CountingFs { inner: f.fs, exist_calls: std::cell::Cell::new(0) };
    let r = which_in(b"tool", Some(&f.paths), &f.cwd, &counting);
    assert_eq!(r.unwrap(), b);
    assert_eq!(counting.exist_calls.get(), 2);
}
