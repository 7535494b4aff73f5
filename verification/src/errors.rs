//! The library's error taxonomy: a closed union of failure categories with a
//! verified retryability classification and verified message rendering.

use vstd::prelude::*;
use crate::text::contains_seq;
use crate::text::chars_of;
use crate::text::contains_lit;

verus! {

/// Every failure the engine can surface.  Each variant carries a
/// human-readable detail string.
#[derive(Debug, Clone)]
pub enum MediaForgeError {
    DownloadError(String),
    ConversionError(String),
    InvalidUrl(String),
    FileSystemError(String),
    FFmpegError(String),
    YtDlpError(String),
    TaskNotFound(String),
    InvalidSettings(String),
    MissingDependency(String),
    NetworkError(String),
    DiskSpaceError(String),
    PermissionError(String),
    TemporaryError(String),
    ResourceExhausted(String),
}

/// The kind of an operating-system input/output failure, as plain data.  The
/// caller translates the platform error into one of these.
#[derive(Debug, Clone, Copy, PartialEq, Eq, Structural)]
pub enum IoErrorKind {
    PermissionDenied,
    NotFound,
    ConnectionRefused,
    ConnectionReset,
    ConnectionAborted,
    TimedOut,
    Interrupted,
    OutOfMemory,
    Other,
}

impl MediaForgeError {
    /// Whether a failed operation may be attempted again: network and
    /// temporary failures always, tool failures only when their detail text
    /// names a known transient condition.
    pub open spec fn spec_is_retryable(self) -> bool {
        match self {
            MediaForgeError::NetworkError(_) => true,
            MediaForgeError::TemporaryError(_) => true,
            MediaForgeError::YtDlpError(m) => {
                ||| contains_seq(m@, "network"@)
                ||| contains_seq(m@, "timeout"@)
                ||| contains_seq(m@, "connection"@)
                ||| contains_seq(m@, "temporary"@)
                ||| contains_seq(m@, "503"@)
                ||| contains_seq(m@, "502"@)
                ||| contains_seq(m@, "429"@)
            },
            MediaForgeError::FFmpegError(m) => {
                ||| contains_seq(m@, "resource temporarily unavailable"@)
                ||| contains_seq(m@, "interrupted system call"@)
            },
            MediaForgeError::FileSystemError(m) => {
                ||| contains_seq(m@, "resource temporarily unavailable"@)
                ||| contains_seq(m@, "device busy"@)
            },
            _ => false,
        }
    }

    /// Determines if an error is retryable.
    pub fn is_retryable(&self) -> (r: bool)
        ensures
            r == self.spec_is_retryable(),
    {
        match self {
            MediaForgeError::NetworkError(_) => true,
            MediaForgeError::TemporaryError(_) => true,
            MediaForgeError::YtDlpError(m) => {
                let c = chars_of(m.as_str());
                contains_lit(&c, "network") || contains_lit(&c, "timeout") || contains_lit(
                    &c,
                    "connection",
                ) || contains_lit(&c, "temporary") || contains_lit(&c, "503") || contains_lit(
                    &c,
                    "502",
                ) || contains_lit(&c, "429")
            },
            MediaForgeError::FFmpegError(m) => {
                let c = chars_of(m.as_str());
                contains_lit(&c, "resource temporarily unavailable") || contains_lit(
                    &c,
                    "interrupted system call",
                )
            },
            MediaForgeError::FileSystemError(m) => {
                let c = chars_of(m.as_str());
                contains_lit(&c, "resource temporarily unavailable") || contains_lit(
                    &c,
                    "device busy",
                )
            },
            _ => false,
        }
    }

    /// The recommended delay before retrying, in seconds.
    pub open spec fn spec_retry_delay(self) -> u64 {
        match self {
            MediaForgeError::NetworkError(_) => 5,
            MediaForgeError::TemporaryError(_) => 3,
            MediaForgeError::YtDlpError(m) => if contains_seq(m@, "429"@) {
                30
            } else {
                10
            },
            _ => 10,
        }
    }

    /// Gets the recommended retry delay in seconds.
    pub fn retry_delay(&self) -> (r: u64)
        ensures
            r == self.spec_retry_delay(),
    {
        match self {
            MediaForgeError::NetworkError(_) => 5,
            MediaForgeError::TemporaryError(_) => 3,
            MediaForgeError::YtDlpError(m) => {
                let c = chars_of(m.as_str());
                if contains_lit(&c, "429") {
                    30
                } else {
                    10
                }
            },
            _ => 10,
        }
    }

    /// Classifies an operating-system failure, given as its kind and detail
    /// text, into the matching error category.
    pub fn from_system_error(kind: IoErrorKind, message: String) -> (r: MediaForgeError)
        ensures
            kind == IoErrorKind::PermissionDenied ==> (r matches MediaForgeError::PermissionError(
                s,
            ) && s@ == message@),
            kind == IoErrorKind::NotFound ==> (r matches MediaForgeError::FileSystemError(s) && s@
                == "File not found: "@ + message@),
            (kind == IoErrorKind::ConnectionRefused || kind == IoErrorKind::ConnectionReset || kind
                == IoErrorKind::ConnectionAborted || kind == IoErrorKind::TimedOut) ==> (
            r matches MediaForgeError::NetworkError(s) && s@ == message@),
            kind == IoErrorKind::Interrupted ==> (r matches MediaForgeError::TemporaryError(s)
                && s@ == message@),
            kind == IoErrorKind::OutOfMemory ==> (r matches MediaForgeError::ResourceExhausted(s)
                && s@ == "Out of memory: "@ + message@),
            kind == IoErrorKind::Other && contains_seq(message@, "No space left on device"@) ==> (
            r matches MediaForgeError::DiskSpaceError(s) && s@ == message@),
            kind == IoErrorKind::Other && !contains_seq(message@, "No space left on device"@) ==> (
            r matches MediaForgeError::FileSystemError(s) && s@ == message@),
    {
        match kind {
            IoErrorKind::PermissionDenied => MediaForgeError::PermissionError(message),
            IoErrorKind::NotFound => {
                let m = String::from_str("File not found: ").concat(message.as_str());
                MediaForgeError::FileSystemError(m)
            },
            IoErrorKind::ConnectionRefused | IoErrorKind::ConnectionReset
                | IoErrorKind::ConnectionAborted | IoErrorKind::TimedOut => {
                MediaForgeError::NetworkError(message)
            },
            IoErrorKind::Interrupted => MediaForgeError::TemporaryError(message),
            IoErrorKind::OutOfMemory => {
                let m = String::from_str("Out of memory: ").concat(message.as_str());
                MediaForgeError::ResourceExhausted(m)
            },
            IoErrorKind::Other => {
                let c = chars_of(message.as_str());
                if contains_lit(&c, "No space left on device") {
                    MediaForgeError::DiskSpaceError(message)
                } else {
                    MediaForgeError::FileSystemError(message)
                }
            },
        }
    }

    /// The descriptive prefix rendered in front of a variant's detail text.
    pub open spec fn spec_message_prefix(self) -> Seq<char> {
        match self {
            MediaForgeError::DownloadError(_) => "Download failed: "@,
            MediaForgeError::ConversionError(_) => "Conversion failed: "@,
            MediaForgeError::InvalidUrl(_) => "Invalid URL: "@,
            MediaForgeError::FileSystemError(_) => "File system error: "@,
            MediaForgeError::FFmpegError(_) => "FFmpeg error: "@,
            MediaForgeError::YtDlpError(_) => "yt-dlp error: "@,
            MediaForgeError::TaskNotFound(_) => "Task not found: "@,
            MediaForgeError::InvalidSettings(_) => "Invalid settings: "@,
            MediaForgeError::MissingDependency(_) => "System dependency missing: "@,
            MediaForgeError::NetworkError(_) => "Network error (retryable): "@,
            MediaForgeError::DiskSpaceError(_) => "Insufficient disk space: "@,
            MediaForgeError::PermissionError(_) => "Permission denied: "@,
            MediaForgeError::TemporaryError(_) => "Temporary failure (retry recommended): "@,
            MediaForgeError::ResourceExhausted(_) => "Resource exhausted: "@,
        }
    }

    /// The detail text the variant carries.
    pub open spec fn spec_detail(self) -> Seq<char> {
        match self {
            MediaForgeError::DownloadError(m) => m@,
            MediaForgeError::ConversionError(m) => m@,
            MediaForgeError::InvalidUrl(m) => m@,
            MediaForgeError::FileSystemError(m) => m@,
            MediaForgeError::FFmpegError(m) => m@,
            MediaForgeError::YtDlpError(m) => m@,
            MediaForgeError::TaskNotFound(m) => m@,
            MediaForgeError::InvalidSettings(m) => m@,
            MediaForgeError::MissingDependency(m) => m@,
            MediaForgeError::NetworkError(m) => m@,
            MediaForgeError::DiskSpaceError(m) => m@,
            MediaForgeError::PermissionError(m) => m@,
            MediaForgeError::TemporaryError(m) => m@,
            MediaForgeError::ResourceExhausted(m) => m@,
        }
    }

    /// The full human-readable description of the error.
    pub fn message(&self) -> (r: String)
        ensures
            r@ == self.spec_message_prefix() + self.spec_detail(),
    {
        let (prefix, detail): (&str, &String) = match self {
            MediaForgeError::DownloadError(m) => ("Download failed: ", m),
            MediaForgeError::ConversionError(m) => ("Conversion failed: ", m),
            MediaForgeError::InvalidUrl(m) => ("Invalid URL: ", m),
            MediaForgeError::FileSystemError(m) => ("File system error: ", m),
            MediaForgeError::FFmpegError(m) => ("FFmpeg error: ", m),
            MediaForgeError::YtDlpError(m) => ("yt-dlp error: ", m),
            MediaForgeError::TaskNotFound(m) => ("Task not found: ", m),
            MediaForgeError::InvalidSettings(m) => ("Invalid settings: ", m),
            MediaForgeError::MissingDependency(m) => ("System dependency missing: ", m),
            MediaForgeError::NetworkError(m) => ("Network error (retryable): ", m),
            MediaForgeError::DiskSpaceError(m) => ("Insufficient disk space: ", m),
            MediaForgeError::PermissionError(m) => ("Permission denied: ", m),
            MediaForgeError::TemporaryError(m) => ("Temporary failure (retry recommended): ", m),
            MediaForgeError::ResourceExhausted(m) => ("Resource exhausted: ", m),
        };
        String::from_str(prefix).concat(detail.as_str())
    }
}

} // verus!
