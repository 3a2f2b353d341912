use vstd::prelude::*;

use crate::check::is_executable;
use crate::check::is_exist;
use crate::check::FileCheck;
use crate::error::Error;

verus! {

/// The byte that separates path components.
pub const SEPARATOR: u8 = 47;

/// The byte of the explicit current-directory marker.
pub const DOT: u8 = 46;

/// A bare name holds no separator at all.
pub open spec fn is_bare(name: Seq<u8>) -> bool {
    forall|i: int| 0 <= i < name.len() ==> name[i] != SEPARATOR
}

/// An absolute name starts with the separator.
pub open spec fn is_absolute(name: Seq<u8>) -> bool {
    name.len() > 0 && name[0] == SEPARATOR
}

/// Joining a directory and a name inserts a separator between them,
/// unless the directory already ends with one or is empty.
pub open spec fn join(dir: Seq<u8>, name: Seq<u8>) -> Seq<u8> {
    if dir.len() == 0 {
        name
    } else if dir[dir.len() - 1] == SEPARATOR {
        dir + name
    } else {
        dir + seq![SEPARATOR] + name
    }
}

/// A leading explicit current-directory marker ("./", possibly
/// repeated) only says where a relative name is anchored; once the
/// anchor is chosen it adds nothing, so it is dropped before joining.
pub open spec fn strip_cur_dir(name: Seq<u8>) -> Seq<u8>
    decreases name.len(),
{
    if name.len() >= 2 && name[0] == DOT && name[1] == SEPARATOR {
        strip_cur_dir(name.skip(2))
    } else {
        name
    }
}

/// A candidate path resolves iff a regular file is there and the
/// process may execute it.
pub open spec fn valid_at<F: FileCheck>(fs: &F, path: Seq<u8>) -> bool {
    fs.exist_spec(path) && fs.executable_spec(path)
}

/// The outcome of searching an ordered list of directories for a bare
/// name: the first directory whose joined candidate is valid wins, and
/// an exhausted list means the name was not found.
pub open spec fn search_spec<F: FileCheck>(fs: &F, dirs: Seq<Seq<u8>>, name: Seq<u8>) -> Result<
    Seq<u8>,
    Error,
>
    decreases dirs.len(),
{
    if dirs.len() == 0 {
        Err(Error::CannotFindBinaryPath)
    } else if valid_at(fs, join(dirs[0], name)) {
        Ok(join(dirs[0], name))
    } else {
        search_spec(fs, dirs.skip(1), name)
    }
}

/// The whole resolution rule. An empty name is invalid input and is
/// rejected at once, as a bad relative path: it names nothing, so no
/// join onto any directory could reach a file. A bare name requires a
/// search path and is looked
/// up directory by directory. A name with a separator is a path: taken
/// as it stands when absolute, anchored at the working directory when
/// relative.
pub open spec fn resolve_spec<F: FileCheck>(
    fs: &F,
    name: Seq<u8>,
    dirs: Option<Seq<Seq<u8>>>,
    cwd: Seq<u8>,
) -> Result<Seq<u8>, Error> {
    if name.len() == 0 {
        Err(Error::BadRelativePath)
    } else if is_bare(name) {
        match dirs {
            Option::None => Err(Error::SearchPathUnavailable),
            Option::Some(ds) => search_spec(fs, ds, name),
        }
    } else if is_absolute(name) {
        if valid_at(fs, name) {
            Ok(name)
        } else {
            Err(Error::BadAbsolutePath)
        }
    } else {
        if valid_at(fs, join(cwd, strip_cur_dir(name))) {
            Ok(join(cwd, strip_cur_dir(name)))
        } else {
            Err(Error::BadRelativePath)
        }
    }
}

/// The view of an executable resolution outcome.
pub open spec fn result_view(r: Result<Vec<u8>, Error>) -> Result<Seq<u8>, Error> {
    match r {
        Ok(p) => Ok(p@),
        Err(e) => Err(e),
    }
}

/// The views of a sequence of byte vectors.
pub open spec fn views_of(v: Seq<Vec<u8>>) -> Seq<Seq<u8>> {
    Seq::new(v.len(), |i: int| v[i]@)
}

/// The view of an optional list of search directories.
pub open spec fn search_dirs_view(dirs: Option<&Vec<Vec<u8>>>) -> Option<Seq<Seq<u8>>> {
    match dirs {
        Option::None => Option::None,
        Option::Some(ds) => Option::Some(views_of(ds@)),
    }
}

/// Whether `name` holds a separator anywhere.
fn contains_separator(name: &[u8]) -> (r: bool)
    ensures
        r == !is_bare(name@),
{
    let mut i: usize = 0;
    while i < name.len()
        invariant
            i <= name@.len(),
            forall|j: int| 0 <= j < i ==> name@[j] != SEPARATOR,
        decreases name@.len() - i,
    {
        if name[i] == SEPARATOR {
            return true;
        }
        i += 1;
    }
    false
}

/// Copies a byte string into an owned vector.
fn copy_bytes(b: &[u8]) -> (r: Vec<u8>)
    ensures
        r@ == b@,
{
    let mut r: Vec<u8> = Vec::new();
    let mut i: usize = 0;
    while i < b.len()
        invariant
            i <= b@.len(),
            r@ == b@.take(i as int),
        decreases b@.len() - i,
    {
        r.push(b[i]);
        i += 1;
        proof {
            assert(r@ =~= b@.take(i as int));
        }
    }
    proof {
        assert(b@.take(b@.len() as int) =~= b@);
    }
    r
}

/// Builds the joined candidate path for a directory and a name.
fn join_path(dir: &[u8], name: &[u8]) -> (r: Vec<u8>)
    ensures
        r@ == join(dir@, name@),
{
    let mut r = copy_bytes(dir);
    if dir.len() > 0 && dir[dir.len() - 1] != SEPARATOR {
        r.push(SEPARATOR);
        proof {
            assert(r@ =~= dir@ + seq![SEPARATOR]);
        }
    }
    let ghost base = r@;
    let mut i: usize = 0;
    while i < name.len()
        invariant
            i <= name@.len(),
            r@ == base + name@.take(i as int),
        decreases name@.len() - i,
    {
        r.push(name[i]);
        i += 1;
        proof {
            assert(r@ =~= base + name@.take(i as int));
        }
    }
    proof {
        assert(base + name@.take(name@.len() as int) =~= base + name@);
        if dir@.len() == 0 {
            assert(Seq::<u8>::empty() + name@ =~= name@);
        }
    }
    r
}

/// Drops every leading "./" from a relative name.
fn strip_cur_dir_bytes(name: &[u8]) -> (r: Vec<u8>)
    ensures
        r@ == strip_cur_dir(name@),
{
    let mut s: usize = 0;
    proof {
        assert(name@.skip(0) =~= name@);
    }
    while s < name.len() && s + 1 < name.len() && name[s] == DOT && name[s + 1] == SEPARATOR
        invariant
            s <= name@.len(),
            strip_cur_dir(name@) == strip_cur_dir(name@.skip(s as int)),
        decreases name@.len() - s,
    {
        proof {
            let tail = name@.skip(s as int);
            assert(tail[0] == DOT && tail[1] == SEPARATOR);
            assert(tail.skip(2) =~= name@.skip(s as int + 2));
        }
        s += 2;
    }
    proof {
        let tail = name@.skip(s as int);
        if tail.len() >= 2 {
            assert(tail[0] == name@[s as int]);
            assert(tail[1] == name@[s as int + 1]);
        }
        assert(strip_cur_dir(tail) == tail);
    }
    let mut r: Vec<u8> = Vec::new();
    let mut i: usize = s;
    while i < name.len()
        invariant
            s <= i <= name@.len(),
            r@ == name@.subrange(s as int, i as int),
        decreases name@.len() - i,
    {
        r.push(name[i]);
        i += 1;
        proof {
            assert(r@ =~= name@.subrange(s as int, i as int));
        }
    }
    proof {
        assert(name@.subrange(s as int, name@.len() as int) =~= name@.skip(s as int));
    }
    r
}

/// Searches the directories in order for the bare name, first match wins.
fn search<F: FileCheck>(fs: &F, dirs: &Vec<Vec<u8>>, name: &[u8]) -> (r: Result<Vec<u8>, Error>)
    ensures
        result_view(r) == search_spec(fs, views_of(dirs@), name@),
{
    let ghost ds = views_of(dirs@);
    let mut i: usize = 0;
    proof {
        assert(ds.skip(0) =~= ds);
    }
    while i < dirs.len()
        invariant
            i <= ds.len(),
            ds == views_of(dirs@),
            search_spec(fs, ds, name@) == search_spec(fs, ds.skip(i as int), name@),
        decreases ds.len() - i,
    {
        let dir: &Vec<u8> = &dirs[i];
        let cand = join_path(dir.as_slice(), name);
        proof {
            assert(ds.skip(i as int)[0] == ds[i as int]);
            assert(cand@ == join(ds[i as int], name@));
        }
        if is_exist(fs, cand.as_slice()) && is_executable(fs, cand.as_slice()) {
            return Ok(cand);
        }
        proof {
            assert(ds.skip(i as int).skip(1) =~= ds.skip(i as int + 1));
        }
        i += 1;
    }
    proof {
        assert(ds.skip(ds.len() as int).len() == 0);
    }
    Err(Error::CannotFindBinaryPath)
}

/// A successful search outcome is a verified candidate.
pub proof fn lemma_search_ok_valid<F: FileCheck>(fs: &F, dirs: Seq<Seq<u8>>, name: Seq<u8>)
    ensures
        search_spec(fs, dirs, name) matches Ok(p) ==> valid_at(fs, p),
    decreases dirs.len(),
{
    if dirs.len() > 0 && !valid_at(fs, join(dirs[0], name)) {
        lemma_search_ok_valid(fs, dirs.skip(1), name);
    }
}

/// A resolved path is never returned unverified: whatever the inputs,
/// a successful outcome names a path where a regular file exists and
/// may be executed.
pub proof fn lemma_resolve_ok_valid<F: FileCheck>(
    fs: &F,
    name: Seq<u8>,
    dirs: Option<Seq<Seq<u8>>>,
    cwd: Seq<u8>,
)
    ensures
        resolve_spec(fs, name, dirs, cwd) matches Ok(p) ==> valid_at(fs, p),
{
    if name.len() > 0 && is_bare(name) {
        match dirs {
            Option::Some(ds) => lemma_search_ok_valid(fs, ds, name),
            Option::None => (),
        }
    }
}

/// An absolute name that passes both checks resolves to that exact
/// name, unchanged.
pub proof fn lemma_absolute_valid_resolves<F: FileCheck>(
    fs: &F,
    name: Seq<u8>,
    dirs: Option<Seq<Seq<u8>>>,
    cwd: Seq<u8>,
)
    requires
        is_absolute(name),
        valid_at(fs, name),
    ensures
        resolve_spec(fs, name, dirs, cwd) == Ok::<Seq<u8>, Error>(name),
{
    assert(name[0] == SEPARATOR);
    assert(!is_bare(name));
}

/// An absolute name that fails either check is rejected as a bad
/// absolute path, whatever the search path and working directory are.
pub proof fn lemma_absolute_invalid_rejected<F: FileCheck>(
    fs: &F,
    name: Seq<u8>,
    dirs: Option<Seq<Seq<u8>>>,
    cwd: Seq<u8>,
)
    requires
        is_absolute(name),
        !valid_at(fs, name),
    ensures
        resolve_spec(fs, name, dirs, cwd) == Err::<Seq<u8>, Error>(Error::BadAbsolutePath),
{
    assert(name[0] == SEPARATOR);
    assert(!is_bare(name));
}

/// A relative name whose joined candidate passes both checks resolves
/// to the working directory joined with the name.
pub proof fn lemma_relative_valid_resolves<F: FileCheck>(
    fs: &F,
    name: Seq<u8>,
    dirs: Option<Seq<Seq<u8>>>,
    cwd: Seq<u8>,
)
    requires
        name.len() > 0,
        !is_bare(name),
        !is_absolute(name),
        valid_at(fs, join(cwd, strip_cur_dir(name))),
    ensures
        resolve_spec(fs, name, dirs, cwd) == Ok::<Seq<u8>, Error>(
            join(cwd, strip_cur_dir(name)),
        ),
{
}

/// A leading explicit current-directory marker changes nothing: for a
/// relative name, resolving "./" followed by the name equals resolving
/// the name itself, with the same working directory.
pub proof fn lemma_cur_dir_prefix_irrelevant<F: FileCheck>(
    fs: &F,
    name: Seq<u8>,
    dirs: Option<Seq<Seq<u8>>>,
    cwd: Seq<u8>,
)
    requires
        name.len() > 0,
        !is_bare(name),
        !is_absolute(name),
    ensures
        resolve_spec(fs, seq![DOT, SEPARATOR] + name, dirs, cwd) == resolve_spec(
            fs,
            name,
            dirs,
            cwd,
        ),
{
    let prefixed = seq![DOT, SEPARATOR] + name;
    assert(prefixed[1] == SEPARATOR);
    assert(!is_bare(prefixed));
    assert(prefixed[0] == DOT);
    assert(!is_absolute(prefixed));
    assert(prefixed.skip(2) =~= name);
    assert(strip_cur_dir(prefixed) == strip_cur_dir(name));
}

/// The first directory whose candidate passes both checks wins the
/// search, and the result is the candidate inside that directory.
pub proof fn lemma_search_first_match<F: FileCheck>(
    fs: &F,
    dirs: Seq<Seq<u8>>,
    name: Seq<u8>,
    i: int,
)
    requires
        0 <= i < dirs.len(),
        valid_at(fs, join(dirs[i], name)),
        forall|j: int| 0 <= j < i ==> !valid_at(fs, join(dirs[j], name)),
    ensures
        search_spec(fs, dirs, name) == Ok::<Seq<u8>, Error>(join(dirs[i], name)),
    decreases i,
{
    if i > 0 {
        lemma_search_first_match(fs, dirs.skip(1), name, i - 1);
        assert(dirs.skip(1)[i - 1] == dirs[i]);
    }
}

/// Directories after the first match are never consulted: two
/// directory lists that agree up to and including the first match have
/// the same search outcome, whatever stands after it in either.
pub proof fn lemma_search_short_circuit<F: FileCheck>(
    fs: &F,
    dirs1: Seq<Seq<u8>>,
    dirs2: Seq<Seq<u8>>,
    name: Seq<u8>,
    i: int,
)
    requires
        0 <= i < dirs1.len(),
        i < dirs2.len(),
        dirs1.take(i + 1) == dirs2.take(i + 1),
        valid_at(fs, join(dirs1[i], name)),
        forall|j: int| 0 <= j < i ==> !valid_at(fs, join(dirs1[j], name)),
    ensures
        search_spec(fs, dirs1, name) == search_spec(fs, dirs2, name),
{
    assert(forall|k: int| 0 <= k <= i ==> dirs1.take(i + 1)[k] == dirs1[k]);
    assert(forall|k: int| 0 <= k <= i ==> dirs2.take(i + 1)[k] == dirs2[k]);
    assert(forall|k: int| 0 <= k <= i ==> dirs1[k] == dirs2[k]);
    lemma_search_first_match(fs, dirs1, name, i);
    lemma_search_first_match(fs, dirs2, name, i);
}

/// A search over directories none of whose candidates pass both checks
/// finds nothing.
pub proof fn lemma_search_exhausted<F: FileCheck>(fs: &F, dirs: Seq<Seq<u8>>, name: Seq<u8>)
    requires
        forall|j: int| 0 <= j < dirs.len() ==> !valid_at(fs, join(dirs[j], name)),
    ensures
        search_spec(fs, dirs, name) == Err::<Seq<u8>, Error>(Error::CannotFindBinaryPath),
    decreases dirs.len(),
{
    if dirs.len() > 0 {
        assert(forall|j: int|
            0 <= j < dirs.skip(1).len() ==> dirs.skip(1)[j] == dirs[j + 1]);
        lemma_search_exhausted(fs, dirs.skip(1), name);
    }
}

/// An entry that is not a regular file never resolves, however
/// executable the access check calls it: a search over directories
/// where no candidate is a regular file is skipped past every one of
/// them and fails.
pub proof fn lemma_no_regular_file_not_found<F: FileCheck>(
    fs: &F,
    dirs: Seq<Seq<u8>>,
    name: Seq<u8>,
)
    requires
        forall|j: int| 0 <= j < dirs.len() ==> !fs.exist_spec(join(dirs[j], name)),
    ensures
        search_spec(fs, dirs, name) == Err::<Seq<u8>, Error>(Error::CannotFindBinaryPath),
{
    assert(forall|j: int| 0 <= j < dirs.len() ==> !valid_at(fs, join(dirs[j], name)));
    lemma_search_exhausted(fs, dirs, name);
}

/// A bare name with no search path at hand is rejected at once.
pub proof fn lemma_bare_needs_search_path<F: FileCheck>(fs: &F, name: Seq<u8>, cwd: Seq<u8>)
    requires
        name.len() > 0,
        is_bare(name),
    ensures
        resolve_spec(fs, name, Option::None, cwd) == Err::<Seq<u8>, Error>(
            Error::SearchPathUnavailable,
        ),
{
}

/// Resolution is idempotent: the outcome is a function of the name,
/// the search path, the working directory and the filesystem snapshot
/// alone, so two resolutions of identical inputs against an unchanged
/// filesystem agree.
pub proof fn lemma_resolve_idempotent<F: FileCheck>(
    fs: &F,
    name: Seq<u8>,
    dirs: Option<Seq<Seq<u8>>>,
    cwd: Seq<u8>,
    r1: Result<Seq<u8>, Error>,
    r2: Result<Seq<u8>, Error>,
)
    requires
        r1 == resolve_spec(fs, name, dirs, cwd),
        r2 == resolve_spec(fs, name, dirs, cwd),
    ensures
        r1 == r2,
{
}

/// Finds `binary_name` using the search directories `paths`, anchoring
/// relative names at `cwd` and answering filesystem questions with `fs`.
///
/// The outcome is exactly what [`resolve_spec`] says for these inputs:
/// an absolute name is returned unchanged when it passes the checks and
/// is otherwise rejected; a relative name is joined onto `cwd` after
/// dropping any leading current-directory markers; a bare name is
/// looked up in the directories in order, first valid match wins. An
/// empty name is invalid input and is rejected at once.
pub fn which_in<F: FileCheck>(
    binary_name: &[u8],
    paths: Option<&Vec<Vec<u8>>>,
    cwd: &[u8],
    fs: &F,
) -> (r: Result<Vec<u8>, Error>)
    ensures
        result_view(r) == resolve_spec(fs, binary_name@, search_dirs_view(paths), cwd@),
        r matches Ok(p) ==> valid_at(fs, p@),
{
    proof {
        lemma_resolve_ok_valid(fs, binary_name@, search_dirs_view(paths), cwd@);
    }
    if binary_name.len() == 0 {
        return Err(Error::BadRelativePath);
    }
    if !contains_separator(binary_name) {
        match paths {
            Option::None => Err(Error::SearchPathUnavailable),
            Option::Some(dirs) => search(fs, dirs, binary_name),
        }
    } else if binary_name[0] == SEPARATOR {
        if is_exist(fs, binary_name) && is_executable(fs, binary_name) {
            Ok(copy_bytes(binary_name))
        } else {
            Err(Error::BadAbsolutePath)
        }
    } else {
        let stripped = strip_cur_dir_bytes(binary_name);
        let cand = join_path(cwd, stripped.as_slice());
        if is_exist(fs, cand.as_slice()) && is_executable(fs, cand.as_slice()) {
            Ok(cand)
        } else {
            Err(Error::BadRelativePath)
        }
    }
}

} // verus!
