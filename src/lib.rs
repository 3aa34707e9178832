//! Validation of video URLs for a fixed set of hosting platforms, with
//! helpers that pull a video identifier out of a URL and normalise URLs.
pub mod error;
pub mod grammar;
pub mod platform;
pub mod text;
pub mod utils;
pub mod validator;

pub use error::ValidationError;
pub use platform::VideoPlatform;
pub use utils::{extract_vimeo_id, extract_youtube_id, normalize_lowercase_url, normalize_url};
pub use validator::VideoUrlValidator;
