//! The plain data types the engine works on: job requests, task state and
//! tool availability.

use vstd::prelude::*;

verus! {

/// How a batch of download work is shaped.
#[derive(Debug, Clone, Copy, PartialEq, Eq, Structural)]
pub enum DownloadType {
    Single,
    Bulk,
    Playlist,
}

/// The container a download is delivered in.
#[derive(Debug, Clone, Copy, PartialEq, Eq, Structural)]
pub enum MediaFormat {
    Mp4,
    Mp3,
}

/// The lifecycle state of a task.  `Completed`, `Failed` and `Cancelled`
/// are terminal: a task that reaches one of them never changes again.
#[derive(Debug, Clone, Copy, PartialEq, Eq, Structural)]
pub enum TaskStatus {
    Queued,
    Downloading,
    Processing,
    Paused,
    Completed,
    Failed,
    Cancelled,
}

impl TaskStatus {
    /// Whether the status is one a task never leaves.
    pub open spec fn is_terminal(self) -> bool {
        self == TaskStatus::Completed || self == TaskStatus::Failed || self
            == TaskStatus::Cancelled
    }

    /// Whether work is under way.
    pub open spec fn is_active(self) -> bool {
        self == TaskStatus::Downloading || self == TaskStatus::Processing
    }

    /// Whether the status is one a task never leaves.
    pub fn terminal(&self) -> (r: bool)
        ensures
            r == self.is_terminal(),
    {
        match self {
            TaskStatus::Completed | TaskStatus::Failed | TaskStatus::Cancelled => true,
            _ => false,
        }
    }
}

/// A section of the source to keep, as the external tool expects it.
#[derive(Debug, Clone)]
pub struct TrimSettings {
    pub start_time: String,
    pub end_time: String,
}

/// A request to download a batch of sources into one destination directory.
#[derive(Debug, Clone)]
pub struct DownloadRequest {
    pub urls: Vec<String>,
    pub download_type: DownloadType,
    pub format: MediaFormat,
    pub quality: Option<String>,
    pub audio_quality: Option<String>,
    pub download_path: String,
    pub trim: Option<TrimSettings>,
}

/// One tracked task as observers see it.  `progress` is in hundredths of a
/// percent: 10000 means 100%.
#[derive(Debug, Clone)]
pub struct TaskProgress {
    pub task_id: u64,
    pub name: String,
    pub status: TaskStatus,
    pub progress: u32,
    pub speed: Option<String>,
    pub eta: Option<String>,
    pub error: Option<String>,
    pub file_path: Option<String>,
}

/// An equal copy of an optional string.
fn clone_opt_string(o: &Option<String>) -> (r: Option<String>)
    ensures
        r == *o,
{
    match o {
        Some(s) => Some(s.clone()),
        None => None,
    }
}

impl TaskProgress {
    /// The task's progress is within bounds.
    pub open spec fn wf(self) -> bool {
        self.progress <= 10000
    }

    /// Whether the task has reached a state it never leaves.
    pub open spec fn is_terminal(self) -> bool {
        self.status.is_terminal()
    }

    /// Whether the task's work is under way.
    pub open spec fn is_active(self) -> bool {
        self.status.is_active()
    }

    /// An equal copy.
    pub fn snapshot(&self) -> (r: TaskProgress)
        ensures
            r == *self,
    {
        TaskProgress {
            task_id: self.task_id,
            name: self.name.clone(),
            status: self.status,
            progress: self.progress,
            speed: clone_opt_string(&self.speed),
            eta: clone_opt_string(&self.eta),
            error: clone_opt_string(&self.error),
            file_path: clone_opt_string(&self.file_path),
        }
    }
}

/// The kind of media a conversion produces.
#[derive(Debug, Clone, Copy, PartialEq, Eq, Structural)]
pub enum ConversionType {
    Image,
    Video,
    Audio,
}

/// Settings for a video conversion.
#[derive(Debug, Clone)]
pub struct VideoSettings {
    pub resolution: Option<String>,
    pub bitrate: Option<String>,
}

/// Settings for an audio conversion.
#[derive(Debug, Clone)]
pub struct AudioSettings {
    pub bitrate: Option<String>,
    pub sample_rate: Option<String>,
}

/// Settings for an image conversion.
#[derive(Debug, Clone)]
pub struct ImageSettings {
    pub quality: Option<u32>,
    pub resize: Option<String>,
}

/// A request to convert a batch of input files into one output directory.
#[derive(Debug, Clone)]
pub struct ConvertRequest {
    pub input_files: Vec<String>,
    pub conversion_type: ConversionType,
    pub output_format: String,
    pub output_path: String,
    pub video_settings: Option<VideoSettings>,
    pub audio_settings: Option<AudioSettings>,
    pub image_settings: Option<ImageSettings>,
}

/// Which external tools are present, and where.
#[derive(Debug, Clone)]
pub struct SystemInfo {
    pub has_ytdlp: bool,
    pub has_ffmpeg: bool,
    pub ytdlp_path: Option<String>,
    pub ffmpeg_path: Option<String>,
}

} // verus!
