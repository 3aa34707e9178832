use video_url_validator::{
    extract_vimeo_id, extract_youtube_id, normalize_lowercase_url, normalize_url, VideoPlatform,
    VideoUrlValidator,
};

#[test]
fn test_youtube_validation() {
    let validator = VideoUrlValidator::new();

    // Valid YouTube URLs
    assert!(validator.validate_youtube_video_url("https://youtube.com/watch?v=23433"));
    assert!(validator.validate_youtube_video_url("https://www.youtube.com/watch?v=dQw4w9WgXcQ"));
    assert!(validator.validate_youtube_video_url("https://youtu.be/dQw4w9WgXcQ"));
    assert!(validator.validate_youtube_video_url("https://youtube.com/embed/dQw4w9WgXcQ"));

    // Invalid YouTube URLs
    assert!(!validator.validate_youtube_video_url("https://youtube.com"));
    assert!(!validator.validate_youtube_video_url("https://google.com"));
    assert!(!validator.validate_youtube_video_url("not_a_url"));
}

#[test]
fn test_facebook_validation() {
    let validator = VideoUrlValidator::new();

    // Valid Facebook URLs
    assert!(validator.validate_facebook_video_url("https://facebook.com/videos/123456"));
    assert!(validator.validate_facebook_video_url("https://www.facebook.com/user/videos/123456"));

    // Invalid Facebook URLs
    assert!(!validator.validate_facebook_video_url("https://facebook.com"));
    assert!(!validator.validate_facebook_video_url("https://youtube.com/watch?v=123"));
}

#[test]
fn test_vimeo_validation() {
    let validator = VideoUrlValidator::new();

    // Valid Vimeo URLs
    assert!(validator.validate_vimeo_video_url("https://vimeo.com/12343432"));
    assert!(validator.validate_vimeo_video_url("https://www.vimeo.com/123456789"));

    // Invalid Vimeo URLs
    assert!(!validator.validate_vimeo_video_url("https://vimeo.com"));
    assert!(!validator.validate_vimeo_video_url("https://vimeo.com/notanumber"));
}

#[test]
fn test_dailymotion_validation() {
    let validator = VideoUrlValidator::new();

    // Valid DailyMotion URLs
    assert!(validator.validate_dailymotion_video_url("https://dailymotion.com/video/x123abc"));
    assert!(validator.validate_dailymotion_video_url("https://dai.ly/x123abc"));

    // Invalid DailyMotion URLs
    assert!(!validator.validate_dailymotion_video_url("https://dailymotion.com"));
    assert!(!validator.validate_dailymotion_video_url("https://youtube.com/watch?v=123"));
}

#[test]
fn test_wistia_validation() {
    let validator = VideoUrlValidator::new();

    // Valid Wistia URLs
    assert!(validator.validate_wistia_video_url("https://home.wistia.com/medias/434234231"));
    assert!(validator.validate_wistia_video_url("https://company.wistia.com/embed/abc123"));

    // Invalid Wistia URLs
    assert!(!validator.validate_wistia_video_url("https://wistia.com"));
    assert!(!validator.validate_wistia_video_url("https://youtube.com/watch?v=123"));
}

#[test]
fn test_general_validation() {
    let validator = VideoUrlValidator::new();

    assert_eq!(
        validator.validate_video_url("https://youtube.com/watch?v=23433"),
        Some(VideoPlatform::YouTube)
    );
    assert_eq!(
        validator.validate_video_url("https://vimeo.com/12343432"),
        Some(VideoPlatform::Vimeo)
    );
    assert_eq!(validator.validate_video_url("https://invalid-site.com/video"), None);

    assert!(validator.is_valid_video_url("https://youtube.com/watch?v=23433"));
    assert!(!validator.is_valid_video_url("https://invalid-site.com/video"));
}

#[test]
fn test_multiple_validation() {
    let validator = VideoUrlValidator::new();
    let urls = [
        "https://youtube.com/watch?v=23433",
        "https://vimeo.com/12343432",
        "https://invalid-site.com/video",
    ];

    let results = validator.validate_multiple(&urls);
    assert_eq!(results.len(), 3);
    assert_eq!(results[0].1, Some(VideoPlatform::YouTube));
    assert_eq!(results[1].1, Some(VideoPlatform::Vimeo));
    assert_eq!(results[2].1, None);
}

#[test]
fn test_utility_functions() {
    assert_eq!(
        extract_youtube_id("https://youtube.com/watch?v=dQw4w9WgXcQ"),
        Some("dQw4w9WgXcQ".to_string())
    );
    assert_eq!(
        extract_youtube_id("https://youtu.be/dQw4w9WgXcQ"),
        Some("dQw4w9WgXcQ".to_string())
    );
    assert_eq!(
        extract_vimeo_id("https://vimeo.com/123456789"),
        Some("123456789".to_string())
    );
    assert_eq!(
        normalize_url("https://www.YouTube.com/Watch?v=ABC123/"),
        "https://youtube.com/watch?v=abc123"
    );
}

#[test]
fn extraction_shapes_and_misses() {
    assert_eq!(
        extract_youtube_id("https://youtube.com/embed/abc-1?x=1"),
        Some("abc-1".to_string())
    );
    assert_eq!(
        extract_youtube_id("https://youtube.com/v/zz9/more"),
        Some("zz9".to_string())
    );
    assert_eq!(
        extract_youtube_id("https://www.youtube.com/watch?v=abc123&t=30s"),
        Some("abc123".to_string())
    );
    assert_eq!(extract_youtube_id("https://youtu.be/xyz789"), Some("xyz789".to_string()));
    assert_eq!(extract_youtube_id("https://youtube.com/watch?v=&a"), None);
    assert_eq!(extract_youtube_id("https://vimeo.com/1"), None);
    assert_eq!(extract_youtube_id(""), None);
    // Search, not whole-string matching: text around the URL is ignored.
    assert_eq!(
        extract_youtube_id("see youtu.be/q1 now"),
        Some("q1 now".to_string())
    );
    assert_eq!(extract_vimeo_id("x vimeo.com/abc vimeo.com/42z"), Some("42".to_string()));
    assert_eq!(
        extract_vimeo_id("https://vimeo.com/\u{0661}\u{0662}/"),
        Some("\u{0661}\u{0662}".to_string())
    );
    // Every shape stops at the next `&`, `/` or `?`.
    assert_eq!(extract_youtube_id("https://youtu.be/abc&t=1"), Some("abc".to_string()));
    assert_eq!(extract_youtube_id("youtube.com/watch?v=a/b"), Some("a".to_string()));
    assert_eq!(extract_youtube_id("youtube.com/watch?v=a?b"), Some("a".to_string()));
    assert_eq!(extract_youtube_id("youtube.com/embed/e&x"), Some("e".to_string()));
    assert_eq!(extract_youtube_id("youtube.com/watch?v=/x youtu.be/k"), Some("k".to_string()));
    assert_eq!(extract_vimeo_id("https://vimeo.com/notanumber"), None);
}

#[test]
fn normalization_edges() {
    assert_eq!(normalize_url("HTTP://WWW.Example.COM/"), "http://example.com");
    assert_eq!(normalize_url("/"), "/");
    assert_eq!(normalize_url(""), "");
    assert_eq!(normalize_url("https://a//"), "https://a/");
    assert_eq!(normalize_url("ftp://www.a.com"), "ftp://www.a.com");
    assert_eq!(normalize_lowercase_url("https://www.a.com/"), "https://a.com");
    assert_eq!(normalize_lowercase_url("http://www."), "http:/");
    // The lowered-input form leaves case alone.
    assert_eq!(normalize_lowercase_url("https://www.A.com"), "https://A.com");
}
