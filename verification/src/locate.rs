//! Resolution of the worker executable's location: an explicit path, or a
//! search over the well-known install locations — a local development
//! path, the per-user install directory under the home directory, and the
//! system-wide install directory.  Whether a path exists depends on the
//! machine's disk, so the probes stand behind trusted wrappers and the
//! contracts state what holds of any answer.

use vstd::prelude::*;
use vstd::string::StringExecFns;
use crate::errors::SessionError;

verus! {

/// Whether `s` ends with `suffix`.
pub open spec fn ends_with(s: Seq<char>, suffix: Seq<char>) -> bool {
    s.len() >= suffix.len() && s.subrange(s.len() - suffix.len(), s.len() as int) == suffix
}

/// The paths that the one-shot transcriber's search can yield.
pub open spec fn is_transcribe_candidate(p: Seq<char>) -> bool {
    ||| p == "./helpers/transcribe"@
    ||| p == "/usr/local/bin/transcribe"@
    ||| ends_with(p, ".local/bin/transcribe"@)
}

/// The paths that the streaming builder's search can yield.
pub open spec fn is_stream_candidate(p: Seq<char>) -> bool {
    ||| p == "./helpers/transcribe_stream"@
    ||| p == "/usr/local/bin/transcribe_stream"@
    ||| ends_with(p, ".local/bin/transcribe_stream"@)
}

/// Whether the path names an existing filesystem entry.
///
/// Relies on `std::path::Path::exists`; the answer depends on the
/// machine's disk, so nothing is stated of it.
#[verifier::external_body]
pub(crate) fn path_exists(p: &str) -> bool {
    std::path::Path::new(p).exists()
}

/// The user's home directory joined with the given relative suffix, as a
/// string, or nothing when no home directory is known or the joined path
/// is not UTF-8.
///
/// Relies on `dirs::home_dir` for the home directory; since that answer
/// depends on the environment, only the joined suffix is stated.
#[verifier::external_body]
pub(crate) fn home_joined(suffix: &str) -> (r: Option<String>)
    ensures
        r matches Some(p) ==> ends_with(p@, suffix@),
{
    dirs::home_dir().map(|h| h.join(suffix)).and_then(|p| p.to_str().map(|s| s.to_string()))
}

/// The one-shot file transcriber: it holds the resolved location of the
/// worker executable.  Running the worker on a file is process work that
/// the embedding application performs; resolution and the stored location
/// are verified here.
pub struct Transcriber {
    helper_path: String,
}

impl View for Transcriber {
    type V = Seq<char>;

    closed spec fn view(&self) -> Seq<char> {
        self.helper_path@
    }
}

impl Transcriber {
    /// Resolve the worker executable over the default search order: the
    /// local development path, the per-user install location, then the
    /// system-wide install location; the first existing path wins.
    pub fn new() -> (r: Result<Transcriber, SessionError>)
        ensures
            r matches Ok(t) ==> is_transcribe_candidate(t@),
            r is Err ==> r matches Err(SessionError::Configuration(_)),
    {
        let local = String::from_str("./helpers/transcribe");
        if path_exists(local.as_str()) {
            return Ok(Transcriber { helper_path: local });
        }
        if let Some(home) = home_joined(".local/bin/transcribe") {
            if path_exists(home.as_str()) {
                return Ok(Transcriber { helper_path: home });
            }
        }
        let system = String::from_str("/usr/local/bin/transcribe");
        if path_exists(system.as_str()) {
            return Ok(Transcriber { helper_path: system });
        }
        Err(
            SessionError::Configuration(
                String::from_str(
                    "Helper binary not found. Please compile with 'make helpers' or install system-wide.",
                ),
            ),
        )
    }

    /// Use an explicit worker executable path; fails when no filesystem
    /// entry exists there.
    pub fn with_helper_path(path: &str) -> (r: Result<Transcriber, SessionError>)
        ensures
            r matches Ok(t) ==> t@ == path@,
            r is Err ==> r matches Err(SessionError::Configuration(_)),
    {
        if path_exists(path) {
            Ok(Transcriber { helper_path: String::from_str(path) })
        } else {
            Err(
                SessionError::Configuration(
                    String::from_str("Helper binary not found at: ").concat(path),
                ),
            )
        }
    }

    /// The resolved location of the worker executable.
    pub fn helper_path(&self) -> (r: &String)
        ensures
            r@ == self@,
    {
        &self.helper_path
    }
}

} // verus!
