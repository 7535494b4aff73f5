//! A verified core for a concurrent job orchestration engine.
//!
//! The library supervises long-running, externally executed jobs (media
//! downloads and media conversions).  It tracks each job as a task with an
//! observable lifecycle, parses the unstructured text the external tools
//! print into typed progress updates, classifies their failures into a retry
//! policy, and decides how cancellation, timeout and completion are
//! reconciled into the task registry.  All decisions are made here, in
//! verified code, on plain values; process spawning, asynchronous racing and
//! other input/output live with the caller.

pub mod errors;
pub mod manager;
pub mod progress;
pub mod registry;
pub mod retry;
pub mod system;
pub mod task;
pub mod text;
pub mod types;
pub mod validate;

pub use errors::IoErrorKind;
pub use errors::MediaForgeError;
pub use manager::ConversionManager;
pub use manager::DownloadManager;
pub use manager::SupervisionOutcome;
pub use progress::FFmpegProgress;
pub use progress::ProgressInfo;
pub use progress::parse_destination;
pub use progress::parse_ffmpeg_progress;
pub use progress::parse_ytdlp_progress;
pub use registry::TaskRegistry;
pub use retry::RetryConfig;
pub use retry::run_retry;
pub use system::MIN_FREE_SPACE_BYTES;
pub use system::check_system_dependencies;
pub use system::disk_space_sufficient;
pub use task::TaskUpdate;
pub use types::AudioSettings;
pub use types::ConversionType;
pub use types::ConvertRequest;
pub use types::DownloadRequest;
pub use types::DownloadType;
pub use types::ImageSettings;
pub use types::MediaFormat;
pub use types::SystemInfo;
pub use types::TaskProgress;
pub use types::TaskStatus;
pub use types::TrimSettings;
pub use types::VideoSettings;
pub use validate::FileStatus;
pub use validate::sanitize_path;
pub use validate::validate_image_format;
pub use validate::validate_input_file;
pub use validate::validate_youtube_url;
