use vstd::prelude::*;

verus! {

/// The capability interface for the two questions the resolver asks of
/// the filesystem: does a regular file exist at a path, and may the
/// current process execute what is at a path.
///
/// The two `spec` functions are a mathematical snapshot of the answers,
/// and each executable method must agree with that snapshot. A resolver
/// outcome is therefore a function of the checker value and the plain
/// inputs alone, which is what makes resolution idempotent against an
/// unchanged filesystem.
pub trait FileCheck {
    /// Whether a regular file (not a directory or special file) is at `path`.
    ///
    /// The default stands only so that an implementation written
    /// outside verified code (a live filesystem) need not name the
    /// ghost half: it is erased and never consulted at run time. A
    /// verified implementation overrides it with its real snapshot.
    open spec fn exist_spec(&self, path: Seq<u8>) -> bool {
        true
    }

    /// Whether the current process may execute the entry at `path`.
    ///
    /// The default stands for the same reason as on `exist_spec`.
    open spec fn executable_spec(&self, path: Seq<u8>) -> bool {
        true
    }

    /// Answers `exist_spec` for a concrete path.
    fn is_exist(&self, path: &[u8]) -> (r: bool)
        ensures
            r == self.exist_spec(path@),
    ;

    /// Answers `executable_spec` for a concrete path.
    fn is_executable(&self, path: &[u8]) -> (r: bool)
        ensures
            r == self.executable_spec(path@),
    ;
}

/// One entry of an in-memory filesystem table: a path together with
/// whether a regular file sits there and whether it may be executed.
///
/// A directory is modelled with `is_file` false; a directory is usually
/// searchable, so its `executable` flag may still be true, exactly as a
/// real access check would report.
pub struct FsEntry {
    pub path: Vec<u8>,
    pub is_file: bool,
    pub executable: bool,
}

/// An in-memory filesystem snapshot: a plain table of entries.
///
/// Paths absent from the table hold nothing. The table answers the
/// [`FileCheck`] questions by looking a path up, so resolution can be
/// exercised and reasoned about against fully known contents.
pub struct FsTable {
    pub entries: Vec<FsEntry>,
}

/// Whether a regular file exists at `path`, as the checker `fs` sees it.
pub fn is_exist<F: FileCheck>(fs: &F, path: &[u8]) -> (r: bool)
    ensures
        r == fs.exist_spec(path@),
{
    fs.is_exist(path)
}

/// Whether the entry at `path` may be executed, as the checker `fs`
/// sees it.
pub fn is_executable<F: FileCheck>(fs: &F, path: &[u8]) -> (r: bool)
    ensures
        r == fs.executable_spec(path@),
{
    fs.is_executable(path)
}

/// Whether two byte strings are equal.
pub fn bytes_eq(a: &[u8], b: &[u8]) -> (r: bool)
    ensures
        r == (a@ == b@),
{
    if a.len() != b.len() {
        return false;
    }
    let mut i: usize = 0;
    while i < a.len()
        invariant
            i <= a@.len(),
            a@.len() == b@.len(),
            forall|j: int| 0 <= j < i ==> a@[j] == b@[j],
        decreases a@.len() - i,
    {
        if a[i] != b[i] {
            return false;
        }
        i += 1;
    }
    proof {
        assert(a@ =~= b@);
    }
    true
}

impl FsTable {
    /// What it means for a regular file to be listed at `path`.
    pub open spec fn has_file_at(&self, path: Seq<u8>) -> bool {
        exists|i: int|
            0 <= i < self.entries@.len() && self.entries@[i].path@ == path
                && self.entries@[i].is_file
    }

    /// What it means for an executable entry to be listed at `path`.
    pub open spec fn has_executable_at(&self, path: Seq<u8>) -> bool {
        exists|i: int|
            0 <= i < self.entries@.len() && self.entries@[i].path@ == path
                && self.entries@[i].executable
    }

    /// An empty table: no path holds anything.
    pub fn new() -> (t: FsTable)
        ensures
            t.entries@.len() == 0,
            forall|p: Seq<u8>| !t.has_file_at(p),
            forall|p: Seq<u8>| !t.has_executable_at(p),
    {
        FsTable { entries: Vec::new() }
    }

    /// Lists a regular file at `path`, executable or not as `executable`
    /// says. Everything already listed stays listed.
    pub fn add_file(&mut self, path: Vec<u8>, executable: bool)
        ensures
            final(self).has_file_at(path@),
            final(self).has_executable_at(path@) <==> (executable
                || old(self).has_executable_at(path@)),
            forall|p: Seq<u8>|
                final(self).has_file_at(p) <==> (old(self).has_file_at(p) || p == path@),
            forall|p: Seq<u8>| p != path@ ==>
                (final(self).has_executable_at(p) <==> old(self).has_executable_at(p)),
    {
        self.entries.push(FsEntry { path, is_file: true, executable });
        proof {
            let last = old(self).entries@.len() as int;
            assert(self.entries@[last].path@ == path@);
            assert(forall|i: int|
                0 <= i < old(self).entries@.len() ==> self.entries@[i] == old(self).entries@[i]);
        }
    }

    /// Lists a directory at `path`: no regular file there, but the
    /// access check may still call it executable (searchable).
    pub fn add_dir(&mut self, path: Vec<u8>)
        ensures
            final(self).has_executable_at(path@),
            forall|p: Seq<u8>|
                final(self).has_file_at(p) <==> old(self).has_file_at(p),
            forall|p: Seq<u8>|
                final(self).has_executable_at(p) <==> (old(self).has_executable_at(p)
                    || p == path@),
    {
        self.entries.push(FsEntry { path, is_file: false, executable: true });
        proof {
            let last = old(self).entries@.len() as int;
            assert(self.entries@[last].path@ == path@);
            assert(forall|i: int|
                0 <= i < old(self).entries@.len() ==> self.entries@[i] == old(self).entries@[i]);
        }
    }
}

impl FileCheck for FsTable {
    open spec fn exist_spec(&self, path: Seq<u8>) -> bool {
        self.has_file_at(path)
    }

    open spec fn executable_spec(&self, path: Seq<u8>) -> bool {
        self.has_executable_at(path)
    }

    fn is_exist(&self, path: &[u8]) -> (r: bool) {
        let mut i: usize = 0;
        while i < self.entries.len()
            invariant
                i <= self.entries@.len(),
                forall|j: int|
                    0 <= j < i ==> !(self.entries@[j].path@ == path@
                        && self.entries@[j].is_file),
            decreases self.entries@.len() - i,
        {
            let e = &self.entries[i];
            if e.is_file && bytes_eq(e.path.as_slice(), path) {
                return true;
            }
            i += 1;
        }
        false
    }

    fn is_executable(&self, path: &[u8]) -> (r: bool) {
        let mut i: usize = 0;
        while i < self.entries.len()
            invariant
                i <= self.entries@.len(),
                forall|j: int|
                    0 <= j < i ==> !(self.entries@[j].path@ == path@
                        && self.entries@[j].executable),
            decreases self.entries@.len() - i,
        {
            let e = &self.entries[i];
            if e.executable && bytes_eq(e.path.as_slice(), path) {
                return true;
            }
            i += 1;
        }
        false
    }
}

} // verus!
