//! The configuration of the service, constructed once at startup and passed
//! into every component that needs it: no ambient global settings.

use vstd::prelude::*;

verus! {

/// Recognized options, with their defaults.
#[derive(Clone, Debug)]
pub struct Args {
    /// Port to listen on.
    pub port: u16,
    /// Path to the file storage directory.
    pub file_path: String,
    /// Retention period for stored blobs, in seconds.
    pub clean_period: u64,
    /// Maximum upload size, in bytes.
    pub limit_size: usize,
    /// Syntax highlight theme name.
    pub syntax_theme: String,
}

impl Default for Args {
    /// The default configuration: port 3000, storage under "./files", an
    /// hour of retention, a ten-mebibyte upload limit and the "vs" theme.
    fn default() -> (a: Args)
        ensures
            a.port == 3000,
            a.file_path@ == "./files"@,
            a.clean_period == 3600,
            a.limit_size == 10 * 1024 * 1024,
            a.syntax_theme@ == "vs"@,
    {
        Args {
            port: 3000,
            file_path: String::from_str("./files"),
            clean_period: 3600,
            limit_size: 10 * 1024 * 1024,
            syntax_theme: String::from_str("vs"),
        }
    }
}

/// The state shared by the request handlers: the configuration.
#[derive(Clone, Debug)]
pub struct AppState {
    pub args: Args,
}

/// A blob may be stored only when its size does not exceed the configured
/// upload limit: content one byte over the limit is rejected, content at
/// exactly the limit is accepted.
pub fn upload_allowed(size: usize, limit: usize) -> (b: bool)
    ensures
        b == (size <= limit),
{
    size <= limit
}

} // verus!
