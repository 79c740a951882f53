//! Core data types of the pipeline: probed media metadata, progress
//! snapshots, and the identifiers and properties used by the transfer
//! operations.

use vstd::prelude::*;

verus! {

/// Classification of one elementary stream inside a container file.
#[derive(Clone, Copy, PartialEq, Eq, Structural, Debug)]
pub enum CodecKind {
    Video,
    Audio,
    Subtitle,
    Unknown,
}

/// One elementary stream of a probed source file. The stream's index is its
/// position in the containing `MediaDescription`'s stream list.
#[derive(Clone, Copy, PartialEq, Eq, Structural, Debug)]
pub struct StreamInfo {
    pub codec: CodecKind,
    /// Channel count; meaningful for audio streams only. For an audio
    /// stream its absence is a fatal probe inconsistency.
    pub channels: Option<u32>,
}

/// Probed metadata of a source file.
pub struct MediaDescription {
    /// Container duration in seconds, as the decimal string the probing
    /// tool reported, if it reported one.
    pub duration: Option<String>,
    /// The elementary streams, in their original order.
    pub streams: Vec<StreamInfo>,
}

/// Why an encode operation was refused or failed before any work was done.
#[derive(Clone, Copy, PartialEq, Eq, Structural, Debug)]
pub enum EncodeError {
    /// An audio stream of the probed source carries no channel count: the
    /// probe result is treated as malformed.
    MissingChannelCount,
    /// The probed source reports no container duration, which the progress
    /// denominator requires.
    MissingDuration,
    /// The probed duration string is not a well-formed decimal number.
    UnparsableDuration,
    /// The encoder subprocess exited unsuccessfully.
    EncoderFailed,
}

/// Why a transfer operation was refused.
#[derive(Clone, Copy, PartialEq, Eq, Structural, Debug)]
pub enum TransferError {
    /// The configured host is not a parsable absolute URL.
    InvalidHostUrl,
    /// A download response carries no content-length header, so no progress
    /// denominator exists; the operation refuses to proceed.
    MissingContentLength,
    /// The server answered with a non-success HTTP status.
    FailedStatus(u16),
}

/// A point-in-time snapshot of transcode progress, in seconds of media time.
#[derive(Clone, Copy, PartialEq, Eq, Structural, Debug)]
pub struct EncodeProgress {
    pub current_secs: u64,
    pub total_secs: u64,
}

/// A point-in-time snapshot of byte-transfer progress.
#[derive(Clone, Copy, PartialEq, Eq, Structural, Debug)]
pub struct TransferProgress {
    pub current_bytes: u64,
    pub total_bytes: u64,
}

/// Identifier of a server-side recording entry; assigned by the server and
/// immutable thereafter.
#[derive(Clone, Copy, PartialEq, Eq, Structural, Debug)]
pub struct RecordId(pub u64);

/// Identifier of a video file attached to a recording entry.
#[derive(Clone, Copy, PartialEq, Eq, Structural, Debug)]
pub struct VideoFileId(pub u64);

/// A server-side recording entry, as the listing endpoint reports it.
pub struct Record {
    pub id: RecordId,
    pub name: String,
}

/// Metadata required to upload a file: file name and file type are
/// mandatory; the sub-directory is optional and omitted from the request
/// when absent.
pub struct VideoFileProperty {
    pub file_name: String,
    pub parent_directory_name: String,
    pub view_name: String,
    pub file_type: String,
    pub sub_directory: Option<String>,
}

/// Caller-specified filter criteria for listing records, translated
/// verbatim into query parameters.
pub struct RecordedQuery {
    pub params: Vec<(String, String)>,
}

impl RecordedQuery {
    /// The filter's key/value parameters, in order.
    pub fn to_parameters(&self) -> (r: &Vec<(String, String)>)
        ensures
            r == &self.params,
    {
        &self.params
    }
}

} // verus!
