use regex::Regex;
use video_url_validator::{VideoPlatform, VideoUrlValidator};

fn patterns() -> Vec<(VideoPlatform, Regex)> {
    vec![
        (
            VideoPlatform::YouTube,
            Regex::new(
                r"^https?://(www\.)?(youtube\.com/(watch\?v=|embed/|v/)|youtu\.be/)[\w-]+(&[\w=&-]*)?$",
            )
            .unwrap(),
        ),
        (
            VideoPlatform::Facebook,
            Regex::new(
                r"^https?://(www\.)?facebook\.com/(.*/)?(video\.php\?v=|videos/)[\d]+/?(\?.*)?$",
            )
            .unwrap(),
        ),
        (
            VideoPlatform::Vimeo,
            Regex::new(r"^https?://(www\.)?vimeo\.com/[\d]+/?(\?.*)?$").unwrap(),
        ),
        (
            VideoPlatform::DailyMotion,
            Regex::new(r"^https?://(www\.)?(dailymotion\.com/video/|dai\.ly/)[\w-]+/?(\?.*)?$")
                .unwrap(),
        ),
        (
            VideoPlatform::Wistia,
            Regex::new(r"^https?://([^./:]+\.)?wistia\.com/(medias|embed)/[\w-]+/?(\?.*)?$").unwrap(),
        ),
    ]
}

#[test]
fn grammars_agree_with_regular_expressions() {
    let heads = [
        "https://", "http://", "https://www.", "http:/", "", "https://http://", "https://a b.",
        "https://x.", "https://.", "https://a:1.", "https://a/b.",
    ];
    let hosts = [
        "youtube.com/watch?v=", "youtube.com/embed/", "youtube.com/v/", "youtu.be/",
        "facebook.com/", "facebook.com/u/", "facebook.com/a/b/", "vimeo.com/",
        "dailymotion.com/video/", "dai.ly/", "wistia.com/medias/", "wistia.com/embed/",
        "www.wistia.com/medias/", "wistia.com/", "youtube.com/",
    ];
    let mids = ["", "videos/", "video.php?v=", "www."];
    let ids = ["", "abc", "123", "a-b_c", "12a", "x y", "a.b", "\u{e9}", "\u{661}", "\u{2603}"];
    let tails = [
        "", "/", "?", "?q=1", "/?q", "&t=30", "&a=b&c", "&", "//", " ", "\n", "?x\n", "/x",
        "?a b",
    ];
    let expressions = patterns();
    let v = VideoUrlValidator::new();
    let mut n = 0;
    for h in &heads {
        for host in &hosts {
            for m in &mids {
                for id in &ids {
                    for t in &tails {
                        let url = format!("{}{}{}{}{}", h, host, m, id, t);
                        let mut expected = None;
                        for (p, re) in &expressions {
                            let ours = v.validate_platform(&url, *p);
                            assert_eq!(ours, re.is_match(&url), "{:?} on {:?}", p, url);
                            if ours {
                                expected = Some(*p);
                            }
                        }
                        assert_eq!(v.validate_video_url(&url), expected, "{:?}", url);
                        n += 1;
                    }
                }
            }
        }
    }
    assert!(n > 10000);
}
