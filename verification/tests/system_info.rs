use mediaforge::check_system_dependencies;
use mediaforge::disk_space_sufficient;

#[test]
fn dependency_report_keeps_paths_only_for_found_tools() {
    let info = check_system_dependencies(
        true,
        Some("/usr/bin/yt-dlp".to_string()),
        false,
        Some("/usr/bin/ffmpeg".to_string()),
    );
    assert!(info.has_ytdlp);
    assert!(!info.has_ffmpeg);
    assert_eq!(info.ytdlp_path.as_deref(), Some("/usr/bin/yt-dlp"));
    assert!(info.ffmpeg_path.is_none());
}

#[test]
fn dependency_report_both_present() {
    let info = check_system_dependencies(
        true,
        Some("/usr/bin/yt-dlp".to_string()),
        true,
        Some("/usr/local/bin/ffmpeg".to_string()),
    );
    assert!(info.has_ytdlp && info.has_ffmpeg);
    assert_eq!(info.ffmpeg_path.as_deref(), Some("/usr/local/bin/ffmpeg"));
}

#[test]
fn disk_space_needs_estimate_plus_reserve() {
    const MIB: u64 = 1024 * 1024;
    // 100 MiB estimated work needs 600 MiB: the estimate plus the 500 MiB
    // reserve.
    assert!(disk_space_sufficient(600 * MIB, Some(100 * MIB)));
    assert!(!disk_space_sufficient(600 * MIB - 1, Some(100 * MIB)));
    // Without an estimate, twice the reserve must be free.
    assert!(disk_space_sufficient(1000 * MIB, None));
    assert!(!disk_space_sufficient(999 * MIB, None));
    // A huge estimate never overflows the check.
    assert!(!disk_space_sufficient(u64::MAX, Some(u64::MAX)));
}
