use vstd::prelude::*;
use vstd::string::StringExecFns;

verus! {

/// Why a version could not be had.
#[derive(Debug, Clone)]
pub enum UvmVersionError {
    /// The text holds nothing in the form `1.2.3f4`.
    VersionPatternMismatch,
    /// The operation is not available on this platform.
    IllegalOperation(String),
}

/// The message of an error.
pub open spec fn error_message(e: UvmVersionError) -> Seq<char> {
    match e {
        UvmVersionError::VersionPatternMismatch => "Failed to match version pattern to input"@,
        UvmVersionError::IllegalOperation(m) => m@,
    }
}

impl UvmVersionError {
    /// The message of the error.
    pub fn to_string(&self) -> (s: String)
        ensures
            s@ == error_message(*self),
    {
        match self {
            UvmVersionError::VersionPatternMismatch => String::from_str(
                "Failed to match version pattern to input",
            ),
            UvmVersionError::IllegalOperation(m) => m.clone(),
        }
    }
}

} // verus!
