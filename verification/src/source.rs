//! Metadata source resolution and the remote version-negotiation policy.
//!
//! A caller supplies at most two configuration values: a filesystem path
//! and a remote endpoint. Exactly one must be present; the check happens
//! before any I/O is attempted. For remote sources, metadata is requested
//! first at the unstable protocol revision and, if that attempt fails for
//! any reason, once more at the latest stable revision; the failure of the
//! final attempt is the one surfaced to the caller.

use vstd::prelude::*;

verus! {

/// Where the metadata bytes come from: exactly one of a local file path
/// or a remote endpoint.
#[derive(Clone, Debug, PartialEq, Eq)]
pub enum MetadataSource {
    LocalPath(String),
    RemoteUrl(String),
}

/// A configuration error, detected before any fetch or file open.
#[derive(Clone, Copy, Debug, PartialEq, Eq, Structural)]
pub enum ConfigError {
    /// Neither a path nor an endpoint was configured.
    MissingSource,
    /// Both a path and an endpoint were configured.
    AmbiguousSource,
}

/// The protocol revision requested when fetching remote metadata.
#[derive(Clone, Copy, Debug, PartialEq, Eq, Structural)]
pub enum MetadataVersion {
    /// The in-development schema revision, preferred when available.
    Unstable,
    /// The most recent stable schema revision.
    Latest,
}

/// A transport or I/O failure reported by the fetch collaborator.
/// The message is carried opaquely for diagnostics.
#[derive(Clone, Debug, PartialEq, Eq)]
pub struct FetchError {
    pub message: String,
}

/// Decides the single metadata source from the two optional configuration
/// values. Performs no I/O, so a failure here is guaranteed to precede any
/// fetch or file-open attempt.
pub fn resolve_source(path: Option<String>, url: Option<String>) -> (r: Result<
    MetadataSource,
    ConfigError,
>)
    ensures
        path is Some && url is None ==> r == Ok::<MetadataSource, ConfigError>(
            MetadataSource::LocalPath(path->0),
        ),
        path is None && url is Some ==> r == Ok::<MetadataSource, ConfigError>(
            MetadataSource::RemoteUrl(url->0),
        ),
        path is None && url is None ==> r == Err::<MetadataSource, ConfigError>(
            ConfigError::MissingSource,
        ),
        path is Some && url is Some ==> r == Err::<MetadataSource, ConfigError>(
            ConfigError::AmbiguousSource,
        ),
{
    match (path, url) {
        (Some(p), None) => Ok(MetadataSource::LocalPath(p)),
        (None, Some(u)) => Ok(MetadataSource::RemoteUrl(u)),
        (None, None) => Err(ConfigError::MissingSource),
        (Some(_), Some(_)) => Err(ConfigError::AmbiguousSource),
    }
}

/// The revision requested by the first fetch attempt.
pub fn initial_version() -> (r: MetadataVersion)
    ensures
        r == MetadataVersion::Unstable,
{
    MetadataVersion::Unstable
}

/// The revision to retry with after a failed attempt, if any: a failed
/// unstable attempt falls back to the latest stable revision once, and a
/// failed stable attempt is final.
pub fn fallback_version(failed: MetadataVersion) -> (r: Option<MetadataVersion>)
    ensures
        failed == MetadataVersion::Unstable ==> r == Some(MetadataVersion::Latest),
        failed == MetadataVersion::Latest ==> r == None::<MetadataVersion>,
{
    match failed {
        MetadataVersion::Unstable => Some(MetadataVersion::Latest),
        MetadataVersion::Latest => None,
    }
}

/// Combines the outcomes of the unstable attempt and the stable retry
/// under the last-attempt-wins policy: a successful unstable fetch is
/// used as-is, and otherwise the stable retry's outcome — bytes or its
/// own failure — is what the caller sees. The first failure leaves no
/// trace in the result.
pub fn choose_fetch_outcome(
    unstable: Result<Vec<u8>, FetchError>,
    stable: Result<Vec<u8>, FetchError>,
) -> (r: Result<Vec<u8>, FetchError>)
    ensures
        unstable is Ok ==> r == unstable,
        unstable is Err ==> r == stable,
{
    match unstable {
        Ok(bytes) => Ok(bytes),
        Err(_) => stable,
    }
}

} // verus!
