//! Configuration for the whisperfile transcription collaborator: an external
//! server the surrounding code may hand segments to. Only its connection
//! settings live in the library; the server itself, and the code that talks
//! to it, are outside collaborators.

use vstd::prelude::*;

verus! {

/// Connection settings for a whisperfile transcription server.
#[derive(Debug, Clone)]
pub struct WhisperfileModelParams {
    /// Port the server listens on.
    pub port: u16,
    /// Host the server binds to.
    pub host: String,
    /// Seconds to wait for the server to become ready after starting it.
    pub startup_timeout_secs: u64,
}

impl Default for WhisperfileModelParams {
    /// A local server on port 8080, waited on for up to 30 seconds.
    fn default() -> (r: Self)
        ensures
            r.port == 8080,
            r.host@ == "127.0.0.1"@,
            r.startup_timeout_secs == 30,
    {
        WhisperfileModelParams { port: 8080, host: "127.0.0.1".to_owned(), startup_timeout_secs: 30 }
    }
}

} // verus!
