use mediaforge::ConversionManager;
use mediaforge::DownloadManager;
use mediaforge::IoErrorKind;
use mediaforge::MediaForgeError;

#[test]
fn test_error_classification() {
    // Test retryable errors
    let network_error = MediaForgeError::NetworkError("Connection timeout".to_string());
    assert!(network_error.is_retryable());

    let temp_error = MediaForgeError::TemporaryError("Resource unavailable".to_string());
    assert!(temp_error.is_retryable());

    // Test non-retryable errors
    let invalid_url = MediaForgeError::InvalidUrl("Not a valid YouTube URL".to_string());
    assert!(!invalid_url.is_retryable());

    let invalid_settings = MediaForgeError::InvalidSettings("Bad format".to_string());
    assert!(!invalid_settings.is_retryable());
}

#[test]
fn test_ytdlp_error_classification() {
    // Network errors (retryable)
    let network_err = DownloadManager::classify_ytdlp_error("network timeout occurred", Some(1));
    assert!(network_err.is_retryable());

    // Permission errors (not retryable)
    let private_err =
        DownloadManager::classify_ytdlp_error("private video not available", Some(2));
    assert!(!private_err.is_retryable());

    // Disk space errors
    let disk_err = DownloadManager::classify_ytdlp_error("no space left on device", None);
    assert!(!disk_err.is_retryable());
}

#[test]
fn test_ffmpeg_error_classification() {
    // Temporary errors (retryable)
    let temp_err =
        ConversionManager::classify_ffmpeg_error("resource temporarily unavailable", Some(1));
    assert!(temp_err.is_retryable());

    // Permission errors (not retryable)
    let perm_err = ConversionManager::classify_ffmpeg_error("permission denied", Some(126));
    assert!(!perm_err.is_retryable());

    // Invalid format errors (not retryable)
    let format_err = ConversionManager::classify_ffmpeg_error("unsupported codec", Some(255));
    assert!(!format_err.is_retryable());
}

#[test]
fn classifier_picks_exact_variants() {
    let perm = ConversionManager::classify_ffmpeg_error("permission denied", Some(126));
    assert!(matches!(perm, MediaForgeError::PermissionError(_)));
    assert!(!perm.is_retryable());

    let temp = ConversionManager::classify_ffmpeg_error("resource temporarily unavailable", Some(1));
    assert!(matches!(temp, MediaForgeError::TemporaryError(_)));
    assert!(temp.is_retryable());

    let disk = ConversionManager::classify_ffmpeg_error("no space left on device", None);
    assert!(matches!(disk, MediaForgeError::DiskSpaceError(_)));
    assert!(!disk.is_retryable());
}

#[test]
fn classifier_priority_permission_beats_generic_exit_code() {
    // A message naming a permission problem together with the generic exit
    // code 1 resolves to Permission, not to the generic retryable class:
    // the named indicator beats the exit-code heuristic.
    let e = ConversionManager::classify_ffmpeg_error("permission denied", Some(1));
    assert!(matches!(e, MediaForgeError::PermissionError(_)));
    assert!(!e.is_retryable());

    let e2 = ConversionManager::classify_ffmpeg_error("Access Denied while writing", None);
    assert!(matches!(e2, MediaForgeError::PermissionError(_)));

    // The same holds for a named disk problem.
    let e3 = ConversionManager::classify_ffmpeg_error("write error on output", Some(1));
    assert!(matches!(e3, MediaForgeError::DiskSpaceError(_)));
}

#[test]
fn classifier_priority_disk_beats_unavailable() {
    // A message naming both unavailable content and a full disk resolves to
    // DiskSpace: disk-full indicators come earlier in the priority order.
    let e = DownloadManager::classify_ytdlp_error(
        "video not available: no space left on device",
        None,
    );
    assert!(matches!(e, MediaForgeError::DiskSpaceError(_)));
}

#[test]
fn classifier_is_case_insensitive() {
    let e = DownloadManager::classify_ytdlp_error("NETWORK unreachable", None);
    assert!(matches!(e, MediaForgeError::NetworkError(_)));

    let e2 = ConversionManager::classify_ffmpeg_error("UNSUPPORTED codec", None);
    assert!(matches!(e2, MediaForgeError::FFmpegError(_)));
}

#[test]
fn classifier_defaults_are_retryable() {
    // Unknown failures default to a retryable temporary error on both tool
    // families, so unknown transient failures still get bounded retries.
    let e = DownloadManager::classify_ytdlp_error("mysterious failure", None);
    assert!(matches!(e, MediaForgeError::TemporaryError(_)));
    assert!(e.is_retryable());
    let e2 = ConversionManager::classify_ffmpeg_error("mysterious failure", None);
    assert!(matches!(e2, MediaForgeError::TemporaryError(_)));
    assert!(e2.is_retryable());
    // The generic exit code 1 with unhelpful text is a retryable temporary
    // failure for the conversion tool and a network hint for the download
    // tool: retryable either way.
    let e3 = ConversionManager::classify_ffmpeg_error("exited", Some(1));
    assert!(matches!(e3, MediaForgeError::TemporaryError(_)));
    let e4 = DownloadManager::classify_ytdlp_error("exited", Some(1));
    assert!(matches!(e4, MediaForgeError::NetworkError(_)));
}

#[test]
fn retry_delay_values() {
    assert_eq!(MediaForgeError::NetworkError("x".to_string()).retry_delay(), 5);
    assert_eq!(MediaForgeError::TemporaryError("x".to_string()).retry_delay(), 3);
    assert_eq!(MediaForgeError::YtDlpError("got 429".to_string()).retry_delay(), 30);
    assert_eq!(MediaForgeError::YtDlpError("other".to_string()).retry_delay(), 10);
    assert_eq!(MediaForgeError::DiskSpaceError("x".to_string()).retry_delay(), 10);
}

#[test]
fn ytdlp_message_text_retryability() {
    assert!(MediaForgeError::YtDlpError("connection reset".to_string()).is_retryable());
    assert!(MediaForgeError::YtDlpError("got 503 from server".to_string()).is_retryable());
    assert!(!MediaForgeError::YtDlpError("no such format".to_string()).is_retryable());
    assert!(MediaForgeError::FileSystemError("device busy".to_string()).is_retryable());
    assert!(!MediaForgeError::FileSystemError("gone".to_string()).is_retryable());
}

#[test]
fn from_system_error_mapping() {
    let e = MediaForgeError::from_system_error(IoErrorKind::PermissionDenied, "denied".to_string());
    assert!(matches!(e, MediaForgeError::PermissionError(_)));

    let e = MediaForgeError::from_system_error(IoErrorKind::NotFound, "gone".to_string());
    match e {
        MediaForgeError::FileSystemError(m) => assert_eq!(m, "File not found: gone"),
        _ => panic!("wrong variant"),
    }

    let e = MediaForgeError::from_system_error(IoErrorKind::TimedOut, "slow".to_string());
    assert!(matches!(e, MediaForgeError::NetworkError(_)));

    let e = MediaForgeError::from_system_error(IoErrorKind::Interrupted, "intr".to_string());
    assert!(matches!(e, MediaForgeError::TemporaryError(_)));

    let e = MediaForgeError::from_system_error(IoErrorKind::OutOfMemory, "oom".to_string());
    match e {
        MediaForgeError::ResourceExhausted(m) => assert_eq!(m, "Out of memory: oom"),
        _ => panic!("wrong variant"),
    }

    let e = MediaForgeError::from_system_error(
        IoErrorKind::Other,
        "No space left on device (os error 28)".to_string(),
    );
    assert!(matches!(e, MediaForgeError::DiskSpaceError(_)));

    let e = MediaForgeError::from_system_error(IoErrorKind::Other, "weird".to_string());
    assert!(matches!(e, MediaForgeError::FileSystemError(_)));
}

#[test]
fn error_messages_render_with_prefix() {
    assert_eq!(
        MediaForgeError::DownloadError("boom".to_string()).message(),
        "Download failed: boom"
    );
    assert_eq!(
        MediaForgeError::NetworkError("flaky".to_string()).message(),
        "Network error (retryable): flaky"
    );
    assert_eq!(
        MediaForgeError::TaskNotFound("42".to_string()).message(),
        "Task not found: 42"
    );
    assert_eq!(
        MediaForgeError::FFmpegError("bad input".to_string()).message(),
        "FFmpeg error: bad input"
    );
    assert_eq!(
        MediaForgeError::ConversionError("no tool".to_string()).message(),
        "Conversion failed: no tool"
    );
    assert_eq!(
        MediaForgeError::MissingDependency("ffmpeg".to_string()).message(),
        "System dependency missing: ffmpeg"
    );
}
