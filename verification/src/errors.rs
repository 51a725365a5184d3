//! Error taxonomy of the launcher.

use vstd::prelude::*;

verus! {

/// The failure classes the launcher distinguishes.
#[derive(Clone, Copy, Debug, PartialEq, Eq, Structural)]
pub enum LauncherError {
    /// No cache directory can be determined; fatal at store construction.
    Configuration,
    /// The cache file could not be serialized or written.
    Persistence,
    /// The cache file could not be parsed; never surfaced, treated as a miss.
    CorruptCache,
    /// The delegated tool is not installed anywhere the locator searches.
    NotFound,
    /// A subprocess could not be spawned.
    Subprocess,
}

impl LauncherError {
    /// The human-readable message for this failure.
    pub fn message(&self) -> (r: String)
        ensures
            *self is Configuration ==> r@ == "Cannot determine cache directory"@,
            *self is Persistence ==> r@ == "Failed to write cache file"@,
            *self is CorruptCache ==> r@ == "Invalid cache file"@,
            *self is NotFound ==> r@
                == "Cannot find openclaw installation. Run 'openclaw' without arguments to install."@,
            *self is Subprocess ==> r@ == "Failed to run openclaw"@,
    {
        match self {
            LauncherError::Configuration => "Cannot determine cache directory".to_owned(),
            LauncherError::Persistence => "Failed to write cache file".to_owned(),
            LauncherError::CorruptCache => "Invalid cache file".to_owned(),
            LauncherError::NotFound => {
                "Cannot find openclaw installation. Run 'openclaw' without arguments to install.".to_owned()
            },
            LauncherError::Subprocess => "Failed to run openclaw".to_owned(),
        }
    }
}

} // verus!
