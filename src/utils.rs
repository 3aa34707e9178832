//! Identifier extraction and URL normalisation.
use vstd::prelude::*;

use crate::text::{
    after, chars_of, in_class, lemma_skip_skip, run_end, run_len, skip_lit, starts, class_has,
    CharClass,
};

verus! {

/// Searching `s` from index `p` on, the leftmost occurrence of `lit` that is
/// followed by at least one character of class `k`, and the longest run of
/// such characters after it.
pub open spec fn capture_from(s: Seq<char>, lit: Seq<char>, k: CharClass, p: int) -> Option<
    Seq<char>,
>
    decreases s.len() - p,
{
    if p < 0 || p + lit.len() >= s.len() {
        None
    } else if starts(s.skip(p), lit) && in_class(k, s[p + lit.len()]) {
        let t = s.skip(p + lit.len());
        Some(t.take(run_len(t, k) as int))
    } else {
        capture_from(s, lit, k, p + 1)
    }
}

/// The first capture of `lit` and class `k` anywhere in `s`.
pub open spec fn capture(s: Seq<char>, lit: Seq<char>, k: CharClass) -> Option<Seq<char>> {
    capture_from(s, lit, k, 0)
}

/// The YouTube video identifier in `s`: the first of the four URL shapes
/// that occurs in it decides, tried in this order.
pub open spec fn youtube_id(s: Seq<char>) -> Option<Seq<char>> {
    if capture(s, "youtube.com/watch?v="@, CharClass::NotDelimiter) is Some {
        capture(s, "youtube.com/watch?v="@, CharClass::NotDelimiter)
    } else if capture(s, "youtube.com/embed/"@, CharClass::NotDelimiter) is Some {
        capture(s, "youtube.com/embed/"@, CharClass::NotDelimiter)
    } else if capture(s, "youtube.com/v/"@, CharClass::NotDelimiter) is Some {
        capture(s, "youtube.com/v/"@, CharClass::NotDelimiter)
    } else {
        capture(s, "youtu.be/"@, CharClass::NotDelimiter)
    }
}

/// The Vimeo video identifier in `s`: the digits after the first
/// `vimeo.com/` that digits follow.
pub open spec fn vimeo_id(s: Seq<char>) -> Option<Seq<char>> {
    capture(s, "vimeo.com/"@, CharClass::Digit)
}

/// The string `Some(x)` stands for, as a sequence of characters.
pub open spec fn opt_view(r: Option<String>) -> Option<Seq<char>> {
    match r {
        Some(x) => Some(x@),
        None => None,
    }
}

fn find_capture(url: &str, s: &Vec<char>, lit: &str, k: CharClass) -> (r: Option<String>)
    requires
        s@ == url@,
    ensures
        opt_view(r) == capture(url@, lit@, k),
{
    let n = lit.unicode_len();
    let mut p: usize = 0;
    while p < s.len() && n < s.len() - p
        invariant
            n == lit@.len(),
            s@ == url@,
            p <= s@.len(),
            capture(s@, lit@, k) == capture_from(s@, lit@, k, p as int),
        decreases s@.len() - p,
    {
        match skip_lit(s, p, lit) {
            Some(j) => {
                if class_has(k, s[j]) {
                    let e = run_end(s, j, k);
                    proof {
                        assert(s@.skip(j as int).take(e - j) =~= s@.subrange(j as int, e as int));
                    }
                    return Some(String::from_str(url.substring_char(j, e)));
                }
            },
            None => {},
        }
        p += 1;
    }
    None
}

/// Extract video ID from YouTube URLs
pub fn extract_youtube_id(url: &str) -> (r: Option<String>)
    ensures
        opt_view(r) == youtube_id(url@),
{
    let s = chars_of(url);
    let watch = find_capture(url, &s, "youtube.com/watch?v=", CharClass::NotDelimiter);
    if watch.is_some() {
        return watch;
    }
    let embed = find_capture(url, &s, "youtube.com/embed/", CharClass::NotDelimiter);
    if embed.is_some() {
        return embed;
    }
    let v = find_capture(url, &s, "youtube.com/v/", CharClass::NotDelimiter);
    if v.is_some() {
        return v;
    }
    find_capture(url, &s, "youtu.be/", CharClass::NotDelimiter)
}

/// Extract video ID from Vimeo URLs
pub fn extract_vimeo_id(url: &str) -> (r: Option<String>)
    ensures
        opt_view(r) == vimeo_id(url@),
{
    let s = chars_of(url);
    find_capture(url, &s, "vimeo.com/", CharClass::Digit)
}

/// `t` with a `www.` right after a leading `http://` or `https://` removed.
pub open spec fn strip_www(t: Seq<char>) -> Seq<char> {
    if starts(t, "http://www."@) {
        "http://"@ + after(t, "http://www."@)
    } else if starts(t, "https://www."@) {
        "https://"@ + after(t, "https://www."@)
    } else {
        t
    }
}

/// `u` without one trailing `/`, where it is longer than one character.
pub open spec fn strip_slash(u: Seq<char>) -> Seq<char> {
    if u.len() > 1 && u[u.len() - 1] == '/' {
        u.drop_last()
    } else {
        u
    }
}

/// The normal form of an already lower-cased URL.
pub open spec fn normalized(t: Seq<char>) -> Seq<char> {
    strip_slash(strip_www(t))
}

/// What `str::to_lowercase` returns for a string of these characters.
pub uninterp spec fn lower_of(s: Seq<char>) -> Seq<char>;

/// Relies on str::to_lowercase for the Unicode lower-case mapping of a
/// string, which depends on its characters alone.
#[verifier::external_body]
fn lowercase(s: &str) -> (r: String)
    ensures
        r@ == lower_of(s@),
{
    s.to_lowercase()
}

/// Normalise a URL that is already in lower case: drop a `www.` right after
/// the scheme, then one trailing `/`.
pub fn normalize_lowercase_url(url: &str) -> (r: String)
    ensures
        r@ == normalized(url@),
{
    let s = chars_of(url);
    let n = s.len();
    proof {
        assert(s@.skip(0) =~= s@);
    }
    let u = match skip_lit(&s, 0, "http://www.") {
        Some(j) => String::from_str("http://").concat(url.substring_char(j, n)),
        None => match skip_lit(&s, 0, "https://www.") {
            Some(j) => String::from_str("https://").concat(url.substring_char(j, n)),
            None => String::from_str(url),
        },
    };
    proof {
        assert(u@ =~= strip_www(url@));
    }
    let m = u.as_str().unicode_len();
    if m > 1 && u.as_str().get_char(m - 1) == '/' {
        let r = String::from_str(u.as_str().substring_char(0, m - 1));
        assert(r@ =~= u@.drop_last());
        r
    } else {
        u
    }
}

/// Normalize URL by removing common variations: lower-case it, drop a `www.`
/// right after the scheme, then one trailing `/`.
pub fn normalize_url(url: &str) -> (r: String)
    ensures
        r@ == normalized(lower_of(url@)),
{
    let lowered = lowercase(url);
    normalize_lowercase_url(lowered.as_str())
}

} // verus!
