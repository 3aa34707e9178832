use video_url_validator::{ValidationError, VideoPlatform, VideoUrlValidator};

#[test]
fn test_all_platforms_integration() {
    let validator = VideoUrlValidator::new();

    let test_cases = [
        ("https://youtube.com/watch?v=abc123", Some(VideoPlatform::YouTube)),
        ("https://vimeo.com/123456789", Some(VideoPlatform::Vimeo)),
        ("https://facebook.com/videos/123456", Some(VideoPlatform::Facebook)),
        ("https://dailymotion.com/video/x7abc123", Some(VideoPlatform::DailyMotion)),
        ("https://company.wistia.com/medias/abc123", Some(VideoPlatform::Wistia)),
        ("https://invalid-site.com/video", None),
    ];

    for (url, expected) in &test_cases {
        assert_eq!(validator.validate_video_url(url), *expected);
    }
}

#[test]
fn test_validator_default() {
    let validator = VideoUrlValidator::default();
    assert!(validator.is_valid_video_url("https://youtube.com/watch?v=abc123"));
}

#[test]
fn test_batch_validation() {
    let validator = VideoUrlValidator::new();
    let urls = ["https://youtube.com/watch?v=abc", "https://invalid.com"];
    let results = validator.validate_multiple(&urls);

    assert_eq!(results.len(), 2);
    assert!(results[0].1.is_some());
    assert!(results[1].1.is_none());
}

#[test]
fn concrete_scenarios() {
    let v = VideoUrlValidator::new();
    let cases = [
        ("https://youtube.com/watch?v=dQw4w9WgXcQ", Some(VideoPlatform::YouTube)),
        ("https://www.youtube.com/watch?v=abc123&t=30s", Some(VideoPlatform::YouTube)),
        ("https://youtu.be/xyz789", Some(VideoPlatform::YouTube)),
        ("https://vimeo.com/123456789", Some(VideoPlatform::Vimeo)),
        ("https://www.facebook.com/user/videos/987654321", Some(VideoPlatform::Facebook)),
        ("https://facebook.com/a/b/video.php?v=12/?x", Some(VideoPlatform::Facebook)),
        ("https://dailymotion.com/video/x7abc123", Some(VideoPlatform::DailyMotion)),
        ("https://dai.ly/x7def456", Some(VideoPlatform::DailyMotion)),
        ("https://company.wistia.com/medias/abc123def456", Some(VideoPlatform::Wistia)),
        ("http://wistia.com/embed/q_1/", Some(VideoPlatform::Wistia)),
        ("https://invalid-url.com/video", None),
        ("", None),
    ];
    for (url, expected) in &cases {
        assert_eq!(v.validate_video_url(url), *expected, "{}", url);
        assert_eq!(v.is_valid_video_url(url), expected.is_some());
    }
}

#[test]
fn validate_platform_agrees_with_detection() {
    let v = VideoUrlValidator::new();
    let urls = [
        "https://youtube.com/watch?v=abc",
        "https://www.facebook.com/videos/1",
        "https://vimeo.com/2/",
        "https://dai.ly/x",
        "https://www.wistia.com/medias/a",
        "https://nothing.example/",
    ];
    let all = v.supported_platforms();
    for url in &urls {
        let found = v.validate_video_url(url);
        for p in &all {
            assert_eq!(v.validate_platform(url, *p), found == Some(*p));
        }
    }
}

#[test]
fn anchoring_and_scheme() {
    let v = VideoUrlValidator::new();
    let valid = [
        "https://youtube.com/watch?v=abc",
        "https://facebook.com/videos/123",
        "https://vimeo.com/123",
        "https://dai.ly/x1",
        "https://home.wistia.com/medias/a1",
    ];
    for url in &valid {
        assert!(v.is_valid_video_url(url));
        assert!(!v.is_valid_video_url(&format!("{} ", url)));
        assert!(!v.is_valid_video_url(&format!("{}/extra/segment", url)));
        assert!(!v.is_valid_video_url(&format!("{}\n", url)));
        let bare = url.strip_prefix("https://").unwrap();
        assert!(!v.is_valid_video_url(bare));
        assert!(v.is_valid_video_url(&format!("http://{}", bare)));
    }
    // A Wistia subdomain is one label: no scheme, path or port inside it.
    assert!(!v.validate_wistia_video_url("https://http://www.wistia.com/medias/a"));
    assert!(!v.is_valid_video_url("https://http://www.wistia.com/medias/a"));
    assert!(!v.validate_wistia_video_url("https://a/b.wistia.com/medias/x"));
    assert!(!v.validate_wistia_video_url("https://a:8.wistia.com/medias/x"));
    assert!(v.validate_wistia_video_url("http://www.wistia.com/medias/a"));
    // A query absorbs what follows it, a space included.
    assert!(v.is_valid_video_url("https://vimeo.com/1?a b"));
    assert!(!v.is_valid_video_url("https://vimeo.com/1?a\nb"));
}

#[test]
fn batch_keeps_order_and_urls() {
    let v = VideoUrlValidator::new();
    let urls = ["https://dai.ly/a", "x", "https://dai.ly/a", "https://vimeo.com/9"];
    let r = v.validate_multiple(&urls);
    assert_eq!(r.len(), 4);
    for i in 0..4 {
        assert_eq!(r[i].0, urls[i]);
    }
    assert_eq!(r[0].1, Some(VideoPlatform::DailyMotion));
    assert_eq!(r[1].1, None);
    assert_eq!(r[2].1, Some(VideoPlatform::DailyMotion));
    assert_eq!(r[3].1, Some(VideoPlatform::Vimeo));
    assert!(v.validate_multiple(&[]).is_empty());
}

#[test]
fn names_and_platforms() {
    let v = VideoUrlValidator::new();
    let names: Vec<&str> = v.supported_platforms().iter().map(|p| p.as_str()).collect();
    assert_eq!(names, vec!["YouTube", "Facebook", "Vimeo", "DailyMotion", "Wistia"]);
    assert_eq!(ValidationError::InvalidFormat.message(), "Invalid URL format");
    assert_eq!(ValidationError::UnsupportedPlatform.message(), "Unsupported video platform");
    assert_eq!(ValidationError::MalformedUrl.message(), "Malformed URL");
}

#[test]
fn unicode_identifiers_and_digits() {
    let v = VideoUrlValidator::new();
    assert_eq!(v.validate_video_url("https://vimeo.com/\u{0661}\u{0662}"), Some(VideoPlatform::Vimeo));
    assert_eq!(v.validate_video_url("https://dai.ly/\u{e9}t\u{e9}"), Some(VideoPlatform::DailyMotion));
    assert_eq!(v.validate_video_url("https://youtu.be/\u{e9}"), Some(VideoPlatform::YouTube));
    assert_eq!(
        v.validate_video_url("https://facebook.com/videos/\u{0661}"),
        Some(VideoPlatform::Facebook)
    );
    assert_eq!(v.validate_video_url("https://dai.ly/\u{2603}"), None);
    assert_eq!(v.validate_video_url("https://vimeo.com/\u{2162}"), None);
    assert_eq!(v.validate_video_url("https://vimeo.com/\u{e9}"), None);
}
