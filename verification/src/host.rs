//! What the engine learns about the machine it runs on: the platform and
//! the well-known directories that the environment names.
use vstd::prelude::*;

verus! {

/// The operating system the installer runs on.
#[derive(Debug, Clone, Copy, PartialEq, Eq, Structural)]
pub enum Platform {
    Windows,
    MacOs,
    Linux,
    Other,
}

/// Directory locations read from the environment. Each is `None` where the
/// environment does not provide it.
#[derive(Debug, Clone)]
pub struct HostPaths {
    /// `%ProgramFiles%`
    pub program_files: Option<String>,
    /// `%APPDATA%`
    pub app_data: Option<String>,
    /// `%LOCALAPPDATA%`
    pub local_app_data: Option<String>,
    /// `%TEMP%`
    pub temp: Option<String>,
    /// The user's home directory
    pub home: Option<String>,
    /// The user's desktop directory
    pub desktop: Option<String>,
    /// The user's data directory (roaming application data on Windows)
    pub data: Option<String>,
}

/// The view of `o`, or `default` where it is `None`.
pub open spec fn or_default(o: Option<String>, default: Seq<char>) -> Seq<char> {
    match o {
        Some(s) => s@,
        None => default,
    }
}

} // verus!
