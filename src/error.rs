use vstd::prelude::*;

verus! {

/// The ways an operation of the version manager can fail.
#[derive(Clone, Debug)]
pub enum YlemVmError {
    /// No global version is set where one is needed.
    GlobalVersionNotSet,
    /// The version is not in the platform's catalog, or a name under the data root is not
    /// a version.
    UnknownVersion,
    /// The host platform has no releases; carries the platform's name.
    UnsupportedOs(String),
    /// The server answered the download with a status outside 2xx: the URL and the status.
    UnsuccessfulResponse(String, u16),
    /// The downloaded bytes do not have the recorded digest; both digests in hex.
    ChecksumMismatch { version: String, expected: String, actual: String },
    /// The interpreter patch for NixOS failed: its standard output and standard error.
    CouldNotPatchForNixOs(String, String),
    /// A download URL could not be parsed; carries the text.
    InvalidUrl(String),
    /// A catalog entry holds a checksum that is not hex; carries the entry's text.
    InvalidChecksum(String),
    /// A catalog records a checksum for a version that has no artifact; carries the
    /// version's text.
    ChecksumWithoutArtifact(String),
    /// The transfer itself failed (connection, timeout, body).
    Transport(String),
    /// A file-system operation failed.
    Io(String),
}

} // verus!
