use vstd::prelude::*;

verus! {

/// The reasons a lookup can fail.
///
/// A requested name is classified as absolute, relative or bare; each
/// class has its own failure, so a caller can tell which rule rejected
/// the request. `CannotGetCurrentDir` is never produced by the resolver
/// itself: it is reserved for entry points that must first obtain the
/// working directory from the ambient process state.
#[derive(Copy, Clone, PartialEq, Eq, Structural, Debug)]
pub enum Error {
    /// An absolute name was given, but no executable regular file is there.
    BadAbsolutePath,
    /// A relative name was given, but joining it onto the working
    /// directory does not reach an executable regular file.
    BadRelativePath,
    /// A bare name was given and no search path was supplied.
    SearchPathUnavailable,
    /// A bare name was given and no search-path directory holds a match.
    CannotFindBinaryPath,
    /// The ambient working directory could not be obtained.
    CannotGetCurrentDir,
}

impl Error {
    /// A human-readable description of the failure.
    pub fn message(&self) -> (s: &'static str)
        ensures
            *self is BadAbsolutePath ==> s@ == "bad absolute path"@,
            *self is BadRelativePath ==> s@ == "bad relative path"@,
            *self is SearchPathUnavailable ==> s@ == "search path unavailable"@,
            *self is CannotFindBinaryPath ==> s@ == "cannot find binary path"@,
            *self is CannotGetCurrentDir ==> s@ == "cannot get current directory"@,
    {
        match self {
            Error::BadAbsolutePath => "bad absolute path",
            Error::BadRelativePath => "bad relative path",
            Error::SearchPathUnavailable => "search path unavailable",
            Error::CannotFindBinaryPath => "cannot find binary path",
            Error::CannotGetCurrentDir => "cannot get current directory",
        }
    }
}

} // verus!
