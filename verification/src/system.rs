//! Assembles the report of which external tools are available.  Probing the
//! system for the tools is the caller's work; the caller hands in what it
//! found as plain values.

use vstd::prelude::*;
use crate::types::SystemInfo;

verus! {

/// The free space kept in reserve on a destination filesystem, in bytes
/// (500 MiB).
pub const MIN_FREE_SPACE_BYTES: u64 = 500 * 1024 * 1024;

/// Whether the destination filesystem has room for a job: the estimated
/// artifact size (or the reserve itself, when no estimate is known) plus
/// the reserve must fit in the available space.  Probing the filesystem
/// for the available space is the caller's work.
pub fn disk_space_sufficient(available_bytes: u64, estimated_size_bytes: Option<u64>) -> (r: bool)
    ensures
        r == (available_bytes >= (match estimated_size_bytes {
            Some(v) => v as int,
            None => MIN_FREE_SPACE_BYTES as int,
        }) + MIN_FREE_SPACE_BYTES),
{
    let required: u64 = match estimated_size_bytes {
        Some(v) => v,
        None => MIN_FREE_SPACE_BYTES,
    };
    (available_bytes as u128) >= (required as u128) + (MIN_FREE_SPACE_BYTES as u128)
}

/// Builds the tool-availability report: each tool's flag is taken as given,
/// and a tool's path is kept only when the tool was found.
pub fn check_system_dependencies(
    has_ytdlp: bool,
    ytdlp_path: Option<String>,
    has_ffmpeg: bool,
    ffmpeg_path: Option<String>,
) -> (r: SystemInfo)
    ensures
        r.has_ytdlp == has_ytdlp,
        r.has_ffmpeg == has_ffmpeg,
        r.ytdlp_path == (if has_ytdlp {
            ytdlp_path
        } else {
            None::<String>
        }),
        r.ffmpeg_path == (if has_ffmpeg {
            ffmpeg_path
        } else {
            None::<String>
        }),
{
    SystemInfo {
        has_ytdlp,
        has_ffmpeg,
        ytdlp_path: if has_ytdlp {
            ytdlp_path
        } else {
            None
        },
        ffmpeg_path: if has_ffmpeg {
            ffmpeg_path
        } else {
            None
        },
    }
}

} // verus!
