use mediaforge::FFmpegProgress;
use mediaforge::parse_destination;
use mediaforge::parse_ffmpeg_progress;
use mediaforge::parse_ytdlp_progress;

#[test]
fn ytdlp_progress_line_is_parsed_exactly() {
    let line = "[download]   45.2% of 123.45MiB at 1.23MiB/s ETA 00:45";
    let p = parse_ytdlp_progress(line).expect("a download line yields an update");
    // 45.2% in hundredths of a percent.
    assert_eq!(p.percentage, 4520);
    assert_eq!(p.speed.as_deref(), Some("1.23MiB/s"));
    assert_eq!(p.eta.as_deref(), Some("00:45"));
}

#[test]
fn ytdlp_non_download_lines_are_ignored() {
    assert!(parse_ytdlp_progress("[info] Extracting URL").is_none());
    assert!(parse_ytdlp_progress("").is_none());
}

#[test]
fn ytdlp_percentage_is_clamped_and_defaults_to_zero() {
    // No percent token: percentage falls back to 0.
    let p = parse_ytdlp_progress("[download] Destination: /tmp/out.mp4").unwrap();
    assert_eq!(p.percentage, 0);
    // An untrusted value above 100% is clamped.
    let p = parse_ytdlp_progress("[download] 250.0% of ???").unwrap();
    assert_eq!(p.percentage, 10000);
    // A non-numeric percent token counts as 0.
    let p = parse_ytdlp_progress("[download] ??% of ???").unwrap();
    assert_eq!(p.percentage, 0);
    // 100% exactly.
    let p = parse_ytdlp_progress("[download] 100% done").unwrap();
    assert_eq!(p.percentage, 10000);
}

#[test]
fn destination_announcements_are_recognised() {
    assert_eq!(
        parse_destination("[download] Destination: /tmp/video.mp4").as_deref(),
        Some("/tmp/video.mp4")
    );
    assert_eq!(
        parse_destination("[Merger] Merging formats into \"/tmp/video.mp4\"").as_deref(),
        Some("/tmp/video.mp4")
    );
    assert_eq!(
        parse_destination("[ExtractAudio] Destination: /tmp/audio.mp3").as_deref(),
        Some("/tmp/audio.mp3")
    );
    assert!(parse_destination("[download]  12.0% of 3MiB").is_none());
    assert!(parse_destination("plain log line").is_none());
}

#[test]
fn ffmpeg_duration_then_position_gives_exact_percentage() {
    let mut tracker = FFmpegProgress::new();
    // A total duration of 83.45 seconds is announced...
    let banner = "  Duration: 00:01:23.45, start: 0.000000, bitrate: 1234 kb/s";
    assert!(tracker.parse_line(banner).is_none());
    assert_eq!(tracker.duration_ms, Some(83450));
    // ...followed by a position of 41.725 seconds: exactly half way.
    let update = tracker.parse_line("out_time_ms=41725");
    assert_eq!(update, Some(5000));
}

#[test]
fn ffmpeg_position_without_total_yields_nothing() {
    let mut tracker = FFmpegProgress::new();
    assert!(tracker.parse_line("out_time_ms=100").is_none());
    assert_eq!(tracker.current_ms, 100);
}

#[test]
fn ffmpeg_progress_is_clamped_at_completion() {
    let mut tracker = FFmpegProgress::new();
    tracker.parse_line("  Duration: 00:00:10.00, start: 0");
    assert_eq!(tracker.duration_ms, Some(10000));
    assert_eq!(tracker.parse_line("out_time_ms=5000"), Some(5000));
    assert_eq!(tracker.parse_line("out_time_ms=10000"), Some(10000));
    // The tool ran past its announced duration: clamp, do not overflow.
    assert_eq!(tracker.parse_line("out_time_ms=25000"), Some(10000));
}

#[test]
fn stateless_ffmpeg_parser_assumes_ten_minutes() {
    // 300 seconds of an assumed 600-second run: 50%.
    assert_eq!(parse_ffmpeg_progress("out_time_ms=300000"), Some(5000));
    // A zero position yields nothing.
    assert!(parse_ffmpeg_progress("out_time_ms=0").is_none());
    // Other lines yield nothing.
    assert!(parse_ffmpeg_progress("frame=  100 fps= 25").is_none());
}
