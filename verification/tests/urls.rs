use mediaforge::validate_youtube_url;

#[test]
fn test_validate_youtube_url_valid() {
    // Valid YouTube URLs
    assert!(validate_youtube_url("https://www.youtube.com/watch?v=dQw4w9WgXcQ").is_ok());
    assert!(validate_youtube_url("https://youtube.com/watch?v=dQw4w9WgXcQ").is_ok());
    assert!(validate_youtube_url("https://youtu.be/dQw4w9WgXcQ").is_ok());
    assert!(
        validate_youtube_url("https://www.youtube.com/playlist?list=PLrAXtmRdnEQy6nuLvTYpTNjVjYGD1UBx")
            .is_ok()
    );
    assert!(validate_youtube_url("https://music.youtube.com/watch?v=dQw4w9WgXcQ").is_ok());
    assert!(validate_youtube_url("https://www.youtube.com/shorts/dQw4w9WgXcQ").is_ok());
}

#[test]
fn test_validate_youtube_url_malicious() {
    // Malicious URLs should be rejected
    assert!(validate_youtube_url("file:///etc/passwd").is_err());
    assert!(validate_youtube_url("javascript:alert(1)").is_err());
    assert!(validate_youtube_url("data:text/plain,malicious").is_err());
    assert!(validate_youtube_url("ftp://example.com/file").is_err());
    assert!(validate_youtube_url("https://youtube.com/watch?v=abc; rm -rf /").is_err());
    assert!(validate_youtube_url("https://youtube.com/watch?v=abc & echo hacked").is_err());
    assert!(validate_youtube_url("https://youtube.com/watch?v=abc\nrm -rf /").is_err());
    assert!(validate_youtube_url("https://youtube.com/watch?v=abc`whoami`").is_err());
    assert!(validate_youtube_url("https://youtube.com/watch?v=abc$(whoami)").is_err());
}

#[test]
fn test_validate_youtube_url_invalid_domains() {
    // Invalid domains should be rejected
    assert!(validate_youtube_url("https://evil.com/watch?v=dQw4w9WgXcQ").is_err());
    assert!(validate_youtube_url("https://youtube.evil.com/watch?v=dQw4w9WgXcQ").is_err());
    assert!(validate_youtube_url("https://notyoutube.com/watch?v=dQw4w9WgXcQ").is_err());
}

#[test]
fn url_identifier_length_is_checked() {
    // Ten identifier characters are too few, twelve are too many.
    assert!(validate_youtube_url("https://youtu.be/dQw4w9WgXc").is_err());
    assert!(validate_youtube_url("https://youtu.be/dQw4w9WgXcQQ").is_err());
    // Eleven with a query suffix is fine.
    assert!(validate_youtube_url("https://youtu.be/dQw4w9WgXcQ?t=10").is_ok());
    // An http scheme is accepted too.
    assert!(validate_youtube_url("http://youtube.com/watch?v=dQw4w9WgXcQ").is_ok());
    // A missing scheme is not.
    assert!(validate_youtube_url("www.youtube.com/watch?v=dQw4w9WgXcQ").is_err());
}

#[test]
fn url_error_messages() {
    match validate_youtube_url("file:///etc/passwd") {
        Err(e) => assert_eq!(
            e.message(),
            "Invalid URL: URL contains potentially malicious characters or schemes"
        ),
        Ok(()) => panic!("should be rejected"),
    }
    match validate_youtube_url("https://evil.com/watch?v=dQw4w9WgXcQ") {
        Err(e) => assert_eq!(e.message(), "Invalid URL: URL is not a valid YouTube URL"),
        Ok(()) => panic!("should be rejected"),
    }
}
