use mediaforge::MediaForgeError;
use mediaforge::sanitize_path;
use mediaforge::validate_image_format;
use mediaforge::validate_input_file;

const HOME: &str = "/home/user";
const CWD: &str = "/work";

#[test]
fn test_sanitize_path_valid() {
    // Valid paths should work
    assert!(sanitize_path("/tmp/test", HOME, CWD).is_ok());
    assert!(sanitize_path("./downloads", HOME, CWD).is_ok());
}

#[test]
fn test_sanitize_path_traversal() {
    // Path traversal should be blocked
    assert!(sanitize_path("../../../etc/passwd", HOME, CWD).is_err());
    assert!(sanitize_path("/tmp/../../../etc/passwd", HOME, CWD).is_err());
}

#[test]
fn test_sanitize_path_system_directories() {
    // System directories should be blocked
    assert!(sanitize_path("/etc/shadow", HOME, CWD).is_err());
    assert!(sanitize_path("/sys/kernel", HOME, CWD).is_err());
    assert!(sanitize_path("/proc/self", HOME, CWD).is_err());
    assert!(sanitize_path("/boot/grub", HOME, CWD).is_err());
}

#[test]
fn sanitize_expands_home_and_absolutizes() {
    assert_eq!(
        sanitize_path("~/videos", HOME, CWD).unwrap(),
        "/home/user/videos"
    );
    assert_eq!(sanitize_path("downloads", HOME, CWD).unwrap(), "/work/downloads");
    assert_eq!(sanitize_path("/media/out", HOME, CWD).unwrap(), "/media/out");
}

#[test]
fn sanitize_rejects_double_separators_and_hidden_key_dirs() {
    match sanitize_path("/tmp//x", HOME, CWD) {
        Err(e) => assert_eq!(
            e.message(),
            "Invalid settings: Invalid path: double separators not allowed"
        ),
        Ok(_) => panic!("should be rejected"),
    }
    assert!(sanitize_path("/home/user/.ssh/keys", HOME, CWD).is_err());
    assert!(sanitize_path("/home/user/.gnupg/ring", HOME, CWD).is_err());
}

#[test]
fn input_file_probe_results_decide() {
    match validate_input_file("/data/clip.mp4", false, false) {
        Err(MediaForgeError::FileSystemError(m)) => {
            assert_eq!(m, "Input file does not exist: /data/clip.mp4")
        },
        _ => panic!("missing file must be rejected"),
    }
    match validate_input_file("/data", true, false) {
        Err(MediaForgeError::FileSystemError(m)) => {
            assert_eq!(m, "Path is not a file: /data")
        },
        _ => panic!("a directory must be rejected"),
    }
    assert!(validate_input_file("/data/clip.mp4", true, true).is_ok());
}

#[test]
fn input_file_dangerous_extensions_are_rejected() {
    match validate_input_file("/data/run.sh", true, true) {
        Err(MediaForgeError::InvalidSettings(m)) => {
            assert_eq!(m, "File type not allowed for conversion: .sh")
        },
        _ => panic!("scripts must be rejected"),
    }
    // Case folding reaches the message too.
    match validate_input_file("/data/SETUP.EXE", true, true) {
        Err(MediaForgeError::InvalidSettings(m)) => {
            assert_eq!(m, "File type not allowed for conversion: .exe")
        },
        _ => panic!("executables must be rejected"),
    }
    // A file with no extension passes the extension rule.
    assert!(validate_input_file("/data/README", true, true).is_ok());
}

#[test]
fn input_file_system_paths_are_rejected() {
    assert!(validate_input_file("/etc/passwd", true, true).is_err());
    assert!(validate_input_file("/home/user/.ssh/id", true, true).is_err());
}

#[test]
fn image_format_rules() {
    assert!(validate_image_format("/pics/photo.png", "jpg").is_ok());
    assert!(validate_image_format("/pics/photo.JPEG", "ico").is_ok());
    // Unsupported input type.
    match validate_image_format("/pics/photo.xcf", "png") {
        Err(MediaForgeError::InvalidSettings(m)) => {
            assert_eq!(m, "Input image format not supported: .xcf")
        },
        _ => panic!("unknown input format must be rejected"),
    }
    // Unsupported output format keeps the caller's spelling in the message.
    match validate_image_format("/pics/photo.png", "WebM") {
        Err(MediaForgeError::InvalidSettings(m)) => {
            assert_eq!(m, "Output image format not supported: .WebM")
        },
        _ => panic!("unknown output format must be rejected"),
    }
    // No input extension: only the output side is checked.
    assert!(validate_image_format("/pics/photo", "png").is_ok());
}
