//! The validator: a table of platform rules, queried by URL.
use vstd::prelude::*;

use crate::grammar::{lemma_exclusive, matches_chars, matches_url, url_matches};
use crate::platform::VideoPlatform;
use crate::text::chars_of;

verus! {

/// The platforms that a validator holds a rule for, in the order it tries them.
pub open spec fn all_platforms() -> Seq<VideoPlatform> {
    seq![
        VideoPlatform::YouTube,
        VideoPlatform::Facebook,
        VideoPlatform::Vimeo,
        VideoPlatform::DailyMotion,
        VideoPlatform::Wistia,
    ]
}

/// The platform whose grammar `s` matches as a whole, if any. The grammars
/// are mutually exclusive (`lemma_exclusive`), so at most one platform fits.
pub open spec fn detect(s: Seq<char>) -> Option<VideoPlatform> {
    if exists|p: VideoPlatform| url_matches(p, s) {
        Some(choose|p: VideoPlatform| url_matches(p, s))
    } else {
        None
    }
}

/// The platform that `detect` reports for `s` is the one whose grammar `s`
/// matches, and the grammar of no other platform matches it.
pub proof fn lemma_detect_exact(s: Seq<char>, p: VideoPlatform, q: VideoPlatform)
    requires
        detect(s) == Some(p),
    ensures
        url_matches(p, s),
        q != p ==> !url_matches(q, s),
{
    if q != p {
        lemma_exclusive(p, q, s);
    }
}

/// A URL that matches the grammar of `p` is detected as `p`.
pub proof fn lemma_detect_complete(s: Seq<char>, p: VideoPlatform)
    requires
        url_matches(p, s),
    ensures
        detect(s) == Some(p),
{
    let c = choose|c: VideoPlatform| url_matches(c, s);
    if c != p {
        lemma_exclusive(p, c, s);
    }
}

/// Main validator struct for video URLs: one match rule per platform.
pub struct VideoUrlValidator {
    rules: Vec<VideoPlatform>,
}

impl View for VideoUrlValidator {
    type V = Seq<VideoPlatform>;

    closed spec fn view(&self) -> Seq<VideoPlatform> {
        self.rules@
    }
}

impl VideoUrlValidator {
    /// The validator holds exactly one rule for each platform.
    pub open spec fn wf(&self) -> bool {
        self@ == all_platforms()
    }

    /// Create a new VideoUrlValidator instance
    pub fn new() -> (r: Self)
        ensures
            r.wf(),
    {
        let rules = vec![
            VideoPlatform::YouTube,
            VideoPlatform::Facebook,
            VideoPlatform::Vimeo,
            VideoPlatform::DailyMotion,
            VideoPlatform::Wistia,
        ];
        let r = VideoUrlValidator { rules };
        assert(r@ =~= all_platforms());
        r
    }

    /// Whether `url`, as a whole, matches the rule of `platform`; `false`
    /// where the validator holds no rule for it.
    pub fn validate_platform(&self, url: &str, platform: VideoPlatform) -> (r: bool)
        requires
            self.wf(),
        ensures
            r == url_matches(platform, url@),
    {
        let mut i: usize = 0;
        while i < self.rules.len()
            invariant
                self.wf(),
                forall|j: int| 0 <= j < i ==> self.rules@[j] != platform,
            decreases self.rules@.len() - i,
        {
            if self.rules[i] == platform {
                return matches_url(platform, url);
            }
            i += 1;
        }
        assert(self.rules@[platform_index(platform)] == platform);
        false
    }

    /// Validate a YouTube video URL
    pub fn validate_youtube_video_url(&self, url: &str) -> (r: bool)
        requires
            self.wf(),
        ensures
            r == url_matches(VideoPlatform::YouTube, url@),
    {
        self.validate_platform(url, VideoPlatform::YouTube)
    }

    /// Validate a Facebook video URL
    pub fn validate_facebook_video_url(&self, url: &str) -> (r: bool)
        requires
            self.wf(),
        ensures
            r == url_matches(VideoPlatform::Facebook, url@),
    {
        self.validate_platform(url, VideoPlatform::Facebook)
    }

    /// Validate a Vimeo video URL
    pub fn validate_vimeo_video_url(&self, url: &str) -> (r: bool)
        requires
            self.wf(),
        ensures
            r == url_matches(VideoPlatform::Vimeo, url@),
    {
        self.validate_platform(url, VideoPlatform::Vimeo)
    }

    /// Validate a DailyMotion video URL
    pub fn validate_dailymotion_video_url(&self, url: &str) -> (r: bool)
        requires
            self.wf(),
        ensures
            r == url_matches(VideoPlatform::DailyMotion, url@),
    {
        self.validate_platform(url, VideoPlatform::DailyMotion)
    }

    /// Validate a Wistia video URL
    pub fn validate_wistia_video_url(&self, url: &str) -> (r: bool)
        requires
            self.wf(),
        ensures
            r == url_matches(VideoPlatform::Wistia, url@),
    {
        self.validate_platform(url, VideoPlatform::Wistia)
    }

    /// Validate any video URL and return the detected platform
    pub fn validate_video_url(&self, url: &str) -> (r: Option<VideoPlatform>)
        requires
            self.wf(),
        ensures
            r == detect(url@),
            r matches Some(p) ==> url_matches(p, url@),
            r is None ==> forall|p: VideoPlatform| !url_matches(p, url@),
    {
        let s = chars_of(url);
        let mut i: usize = 0;
        while i < self.rules.len()
            invariant
                self.wf(),
                s@ == url@,
                forall|j: int| 0 <= j < i ==> !url_matches(#[trigger] self.rules@[j], url@),
            decreases self.rules@.len() - i,
        {
            let p = self.rules[i];
            if matches_chars(p, &s) {
                proof {
                    lemma_detect_complete(url@, p);
                }
                return Some(p);
            }
            i += 1;
        }
        assert forall|p: VideoPlatform| !url_matches(p, url@) by {
            assert(self.rules@[platform_index(p)] == p);
        }
        None
    }

    /// Check if a URL is a valid video URL from any supported platform
    pub fn is_valid_video_url(&self, url: &str) -> (r: bool)
        requires
            self.wf(),
        ensures
            r == (detect(url@) is Some),
            r == exists|p: VideoPlatform| url_matches(p, url@),
    {
        self.validate_video_url(url).is_some()
    }

    /// Get all supported platforms
    pub fn supported_platforms(&self) -> (r: Vec<VideoPlatform>)
        requires
            self.wf(),
        ensures
            r@ == all_platforms(),
    {
        let mut out: Vec<VideoPlatform> = Vec::new();
        let mut i: usize = 0;
        while i < self.rules.len()
            invariant
                self.wf(),
                i <= self.rules@.len(),
                out@ == self.rules@.take(i as int),
            decreases self.rules@.len() - i,
        {
            out.push(self.rules[i]);
            i += 1;
            assert(out@ =~= self.rules@.take(i as int));
        }
        assert(out@ =~= self.rules@);
        out
    }

    /// Validate multiple URLs at once: each URL, in the given order, with the
    /// platform detected for it.
    pub fn validate_multiple(&self, urls: &[&str]) -> (r: Vec<(String, Option<VideoPlatform>)>)
        requires
            self.wf(),
        ensures
            r@.len() == urls@.len(),
            forall|i: int|
                0 <= i < urls@.len() ==> (#[trigger] r@[i]).0@ == urls@[i]@ && r@[i].1 == detect(
                    urls@[i]@,
                ),
    {
        let mut out: Vec<(String, Option<VideoPlatform>)> = Vec::new();
        let mut i: usize = 0;
        while i < urls.len()
            invariant
                self.wf(),
                i <= urls@.len(),
                out@.len() == i,
                forall|j: int|
                    0 <= j < i ==> (#[trigger] out@[j]).0@ == urls@[j]@ && out@[j].1 == detect(
                        urls@[j]@,
                    ),
            decreases urls@.len() - i,
        {
            let url = urls[i];
            let detected = self.validate_video_url(url);
            out.push((String::from_str(url), detected));
            i += 1;
        }
        out
    }
}

/// The position of each platform in `all_platforms`.
pub open spec fn platform_index(p: VideoPlatform) -> int {
    match p {
        VideoPlatform::YouTube => 0,
        VideoPlatform::Facebook => 1,
        VideoPlatform::Vimeo => 2,
        VideoPlatform::DailyMotion => 3,
        VideoPlatform::Wistia => 4,
    }
}

impl Default for VideoUrlValidator {
    fn default() -> (r: Self)
        ensures
            r.wf(),
    {
        Self::new()
    }
}

} // verus!
