use vstd::prelude::*;
use vstd::string::StringExecFns;

use crate::error::UvmVersionError;
use crate::version::Version;

verus! {

/// Reading the version of an installation from its path is not supported on
/// this platform: the answer is always that error.
pub fn read_version_from_path(_path: &str) -> (r: Result<Version, UvmVersionError>)
    ensures
        r matches Err(UvmVersionError::IllegalOperation(m))
            && m@ == "fn 'read_version_from_path' not supported on current platform"@,
{
    Err(
        UvmVersionError::IllegalOperation(
            String::from_str("fn 'read_version_from_path' not supported on current platform"),
        ),
    )
}

} // verus!
