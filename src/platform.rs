//! The supported video platforms.
use vstd::prelude::*;

verus! {

/// Supported video platforms
#[derive(Clone, Copy, Debug, PartialEq, Eq, Hash, Structural)]
pub enum VideoPlatform {
    YouTube,
    Facebook,
    Vimeo,
    DailyMotion,
    Wistia,
}

/// The display name of a platform.
pub open spec fn platform_name(p: VideoPlatform) -> Seq<char> {
    match p {
        VideoPlatform::YouTube => "YouTube"@,
        VideoPlatform::Facebook => "Facebook"@,
        VideoPlatform::Vimeo => "Vimeo"@,
        VideoPlatform::DailyMotion => "DailyMotion"@,
        VideoPlatform::Wistia => "Wistia"@,
    }
}

impl VideoPlatform {
    /// Get the platform name as a string
    pub fn as_str(&self) -> (r: &'static str)
        ensures
            r@ == platform_name(*self),
    {
        match self {
            VideoPlatform::YouTube => "YouTube",
            VideoPlatform::Facebook => "Facebook",
            VideoPlatform::Vimeo => "Vimeo",
            VideoPlatform::DailyMotion => "DailyMotion",
            VideoPlatform::Wistia => "Wistia",
        }
    }
}

} // verus!
