//! The URL grammar of each platform, as predicates on the characters of a URL,
//! and the matchers that decide them.
//!
//! Every grammar matches the whole string, from its first character to its
//! last, and asks for an explicit `http://` or `https://` scheme. Identifier
//! characters are Unicode word characters and `-`; digits are Unicode decimal
//! digits.
use vstd::prelude::*;

use crate::platform::VideoPlatform;
use crate::text::{
    after, chars_of, free_of_newline, in_class, is_ident_char, unicode_digit, lemma_run_len_bound, lemma_skip_skip, no_newline, run_end,
    run_len, skip_lit, starts, CharClass,
};

verus! {

/// An optional query: nothing, or `?` followed by anything but line feeds.
pub open spec fn query_tail(t: Seq<char>) -> bool {
    t.len() == 0 || (t[0] == '?' && no_newline(t))
}

/// An optional `/`, then an optional query, then the end of the URL.
pub open spec fn end_tail(t: Seq<char>) -> bool {
    query_tail(t) || (t.len() > 0 && t[0] == '/' && query_tail(t.skip(1)))
}

/// One or more characters of class `k`, then `end_tail`.
pub open spec fn ident_end(t: Seq<char>, k: CharClass) -> bool {
    run_len(t, k) > 0 && end_tail(t.skip(run_len(t, k) as int))
}

/// One or more identifier characters, then nothing, or `&` followed by
/// identifier characters, `=` and `&` only.
pub open spec fn ident_params(t: Seq<char>) -> bool {
    let n = run_len(t, CharClass::Ident);
    let rest = t.skip(n as int);
    n > 0 && (rest.len() == 0 || (rest[0] == '&' && run_len(rest, CharClass::Param) == rest.len()))
}

pub open spec fn youtube_host(r: Seq<char>) -> bool {
    ||| starts(r, "youtube.com/watch?v="@) && ident_params(after(r, "youtube.com/watch?v="@))
    ||| starts(r, "youtube.com/embed/"@) && ident_params(after(r, "youtube.com/embed/"@))
    ||| starts(r, "youtube.com/v/"@) && ident_params(after(r, "youtube.com/v/"@))
    ||| starts(r, "youtu.be/"@) && ident_params(after(r, "youtu.be/"@))
}

/// `video.php?v=` or `videos/`, then digits, then `end_tail`.
pub open spec fn facebook_video(b: Seq<char>) -> bool {
    ||| starts(b, "video.php?v="@) && ident_end(after(b, "video.php?v="@), CharClass::Digit)
    ||| starts(b, "videos/"@) && ident_end(after(b, "videos/"@), CharClass::Digit)
}

/// Nothing, or a path free of line feeds that ends in `/`.
pub open spec fn path_prefix(a: Seq<char>) -> bool {
    a.len() == 0 || (a[a.len() - 1] == '/' && no_newline(a))
}

pub open spec fn facebook_path(p: Seq<char>) -> bool {
    exists|i: int| 0 <= i <= p.len() && path_prefix(p.take(i)) && #[trigger] facebook_video(p.skip(i))
}

pub open spec fn facebook_host(r: Seq<char>) -> bool {
    starts(r, "facebook.com/"@) && facebook_path(after(r, "facebook.com/"@))
}

pub open spec fn vimeo_host(r: Seq<char>) -> bool {
    starts(r, "vimeo.com/"@) && ident_end(after(r, "vimeo.com/"@), CharClass::Digit)
}

pub open spec fn dailymotion_host(r: Seq<char>) -> bool {
    ||| starts(r, "dailymotion.com/video/"@) && ident_end(after(r, "dailymotion.com/video/"@), CharClass::Ident)
    ||| starts(r, "dai.ly/"@) && ident_end(after(r, "dai.ly/"@), CharClass::Ident)
}

pub open spec fn wistia_host(r: Seq<char>) -> bool {
    ||| starts(r, "wistia.com/medias/"@) && ident_end(after(r, "wistia.com/medias/"@), CharClass::Ident)
    ||| starts(r, "wistia.com/embed/"@) && ident_end(after(r, "wistia.com/embed/"@), CharClass::Ident)
}

/// A character that may stand in a subdomain label: anything but `.`, `/`
/// and `:`.
pub open spec fn is_label_char(c: char) -> bool {
    c != '.' && c != '/' && c != ':'
}

/// `wistia_host`, after an optional subdomain label: one or more label
/// characters, then `.`.
pub open spec fn wistia_rest(r: Seq<char>) -> bool {
    ||| wistia_host(r)
    ||| exists|k: int|
        0 < k < r.len() && r[k] == '.' && (forall|j: int| 0 <= j < k ==> is_label_char(r[j]))
            && #[trigger] wistia_host(r.skip(k + 1))
}

pub open spec fn host_path(p: VideoPlatform, r: Seq<char>) -> bool {
    match p {
        VideoPlatform::YouTube => youtube_host(r),
        VideoPlatform::Facebook => facebook_host(r),
        VideoPlatform::Vimeo => vimeo_host(r),
        VideoPlatform::DailyMotion => dailymotion_host(r),
        VideoPlatform::Wistia => wistia_host(r),
    }
}

/// What must follow the scheme: for Wistia an optional subdomain label, for
/// the others an optional `www.`, then the platform's host and path.
pub open spec fn platform_rest(p: VideoPlatform, r: Seq<char>) -> bool {
    match p {
        VideoPlatform::Wistia => wistia_rest(r),
        _ => host_path(p, r) || (starts(r, "www."@) && host_path(p, after(r, "www."@))),
    }
}

/// The whole string `s` is a video URL of platform `p`.
pub open spec fn url_matches(p: VideoPlatform, s: Seq<char>) -> bool {
    ||| starts(s, "http://"@) && platform_rest(p, after(s, "http://"@))
    ||| starts(s, "https://"@) && platform_rest(p, after(s, "https://"@))
}

fn m_query_tail(s: &Vec<char>, i: usize) -> (r: bool)
    requires
        i <= s@.len(),
    ensures
        r == query_tail(s@.skip(i as int)),
{
    proof {
        assert(s@.skip(i as int) =~= s@.subrange(i as int, s@.len() as int));
    }
    i == s.len() || (s[i] == '?' && free_of_newline(s, i, s.len()))
}

fn m_end_tail(s: &Vec<char>, i: usize) -> (r: bool)
    requires
        i <= s@.len(),
    ensures
        r == end_tail(s@.skip(i as int)),
{
    if m_query_tail(s, i) {
        return true;
    }
    if i < s.len() && s[i] == '/' {
        proof {
            lemma_skip_skip(s@, i as int, 1);
        }
        m_query_tail(s, i + 1)
    } else {
        false
    }
}

fn m_ident_end(s: &Vec<char>, i: usize, k: CharClass) -> (r: bool)
    requires
        i <= s@.len(),
    ensures
        r == ident_end(s@.skip(i as int), k),
{
    let e = run_end(s, i, k);
    proof {
        lemma_skip_skip(s@, i as int, e - i);
    }
    e > i && m_end_tail(s, e)
}

fn m_ident_params(s: &Vec<char>, i: usize) -> (r: bool)
    requires
        i <= s@.len(),
    ensures
        r == ident_params(s@.skip(i as int)),
{
    let e = run_end(s, i, CharClass::Ident);
    proof {
        lemma_skip_skip(s@, i as int, e - i);
    }
    if e == i {
        return false;
    }
    if e == s.len() {
        return true;
    }
    if s[e] != '&' {
        return false;
    }
    let f = run_end(s, e, CharClass::Param);
    f == s.len()
}

/// Whether the characters from `i` on begin with `lit` and what follows it is
/// an identifier with optional parameters.
fn lit_then_params(s: &Vec<char>, i: usize, lit: &str) -> (r: bool)
    requires
        i <= s@.len(),
    ensures
        r == (starts(s@.skip(i as int), lit@) && ident_params(after(s@.skip(i as int), lit@))),
{
    match skip_lit(s, i, lit) {
        Some(j) => m_ident_params(s, j),
        None => false,
    }
}

/// Whether the characters from `i` on begin with `lit` and what follows it is
/// a run of class `k` and `end_tail`.
fn lit_then_end(s: &Vec<char>, i: usize, lit: &str, k: CharClass) -> (r: bool)
    requires
        i <= s@.len(),
    ensures
        r == (starts(s@.skip(i as int), lit@) && ident_end(after(s@.skip(i as int), lit@), k)),
{
    match skip_lit(s, i, lit) {
        Some(j) => m_ident_end(s, j, k),
        None => false,
    }
}

fn m_youtube_host(s: &Vec<char>, i: usize) -> (r: bool)
    requires
        i <= s@.len(),
    ensures
        r == youtube_host(s@.skip(i as int)),
{
    lit_then_params(s, i, "youtube.com/watch?v=") || lit_then_params(s, i, "youtube.com/embed/")
        || lit_then_params(s, i, "youtube.com/v/") || lit_then_params(s, i, "youtu.be/")
}

fn m_facebook_video(s: &Vec<char>, i: usize) -> (r: bool)
    requires
        i <= s@.len(),
    ensures
        r == facebook_video(s@.skip(i as int)),
{
    lit_then_end(s, i, "video.php?v=", CharClass::Digit) || lit_then_end(
        s,
        i,
        "videos/",
        CharClass::Digit,
    )
}

/// Whether the path from `b` on splits at `i` into a prefix and a video part.
fn facebook_split(s: &Vec<char>, b: usize, i: usize) -> (r: bool)
    requires
        b <= i <= s@.len(),
    ensures
        r == (path_prefix(s@.skip(b as int).take(i - b)) && facebook_video(
            s@.skip(b as int).skip(i - b),
        )),
{
    proof {
        lemma_skip_skip(s@, b as int, i - b);
        assert(s@.skip(b as int).take(i - b) =~= s@.subrange(b as int, i as int));
    }
    let prefix_ok = i == b || (s[i - 1] == '/' && free_of_newline(s, b, i));
    prefix_ok && m_facebook_video(s, i)
}

fn m_facebook_path(s: &Vec<char>, b: usize) -> (r: bool)
    requires
        b <= s@.len(),
    ensures
        r == facebook_path(s@.skip(b as int)),
{
    let ghost p = s@.skip(b as int);
    let mut i: usize = b;
    while i < s.len()
        invariant
            b <= i <= s@.len(),
            p == s@.skip(b as int),
            forall|j: int|
                0 <= j < i - b ==> !(path_prefix(p.take(j)) && #[trigger] facebook_video(p.skip(j))),
        decreases s@.len() - i,
    {
        if facebook_split(s, b, i) {
            return true;
        }
        i += 1;
    }
    facebook_split(s, b, i)
}

fn m_facebook_host(s: &Vec<char>, i: usize) -> (r: bool)
    requires
        i <= s@.len(),
    ensures
        r == facebook_host(s@.skip(i as int)),
{
    match skip_lit(s, i, "facebook.com/") {
        Some(j) => m_facebook_path(s, j),
        None => false,
    }
}

fn m_vimeo_host(s: &Vec<char>, i: usize) -> (r: bool)
    requires
        i <= s@.len(),
    ensures
        r == vimeo_host(s@.skip(i as int)),
{
    lit_then_end(s, i, "vimeo.com/", CharClass::Digit)
}

fn m_dailymotion_host(s: &Vec<char>, i: usize) -> (r: bool)
    requires
        i <= s@.len(),
    ensures
        r == dailymotion_host(s@.skip(i as int)),
{
    lit_then_end(s, i, "dailymotion.com/video/", CharClass::Ident) || lit_then_end(
        s,
        i,
        "dai.ly/",
        CharClass::Ident,
    )
}

fn m_wistia_host(s: &Vec<char>, i: usize) -> (r: bool)
    requires
        i <= s@.len(),
    ensures
        r == wistia_host(s@.skip(i as int)),
{
    lit_then_end(s, i, "wistia.com/medias/", CharClass::Ident) || lit_then_end(
        s,
        i,
        "wistia.com/embed/",
        CharClass::Ident,
    )
}

fn m_wistia_rest(s: &Vec<char>, i: usize) -> (r: bool)
    requires
        i <= s@.len(),
    ensures
        r == wistia_rest(s@.skip(i as int)),
{
    let ghost t = s@.skip(i as int);
    if m_wistia_host(s, i) {
        return true;
    }
    let mut d: usize = i;
    while d < s.len() && s[d] != '.' && s[d] != '/' && s[d] != ':'
        invariant
            i <= d <= s@.len(),
            t == s@.skip(i as int),
            forall|j: int| 0 <= j < d - i ==> is_label_char(t[j]),
        decreases s@.len() - d,
    {
        d += 1;
    }
    if d == s.len() || d == i || s[d] != '.' {
        proof {
            assert forall|k: int|
                0 < k < t.len() && t[k] == '.' && (forall|j: int| 0 <= j < k ==> is_label_char(t[j]))
                    implies !#[trigger] wistia_host(t.skip(k + 1)) by {
                if d == i {
                    assert(!is_label_char(t[0]));
                } else if d < s.len() {
                    let dd = d - i;
                    assert(!is_label_char(t[dd]));
                    if k < dd {
                        assert(is_label_char(t[k]));
                    }
                }
            }
        }
        return false;
    }
    proof {
        lemma_skip_skip(s@, i as int, d + 1 - i);
    }
    let found = m_wistia_host(s, d + 1);
    proof {
        let dd = d - i;
        assert(t[dd] == s@[d as int]);
        assert(t.skip(dd + 1) == s@.skip(d + 1));
        if !found {
            assert(!wistia_host(t.skip(dd + 1)));
            assert(!wistia_host(t));
        }
        assert forall|k: int|
            0 < k < t.len() && t[k] == '.' && (forall|j: int| 0 <= j < k ==> t[j] != '.')
                implies (#[trigger] wistia_host(t.skip(k + 1)) == wistia_host(t.skip(dd + 1))) by {
            if k < dd {
                assert(is_label_char(t[k]));
            } else if k > dd {
                assert(!is_label_char(t[dd]));
            }
        }
        if found {
            assert(0 < dd < t.len() && t[dd] == '.');
        }
    }
    found
}

fn m_host_path(p: VideoPlatform, s: &Vec<char>, i: usize) -> (r: bool)
    requires
        i <= s@.len(),
    ensures
        r == host_path(p, s@.skip(i as int)),
{
    match p {
        VideoPlatform::YouTube => m_youtube_host(s, i),
        VideoPlatform::Facebook => m_facebook_host(s, i),
        VideoPlatform::Vimeo => m_vimeo_host(s, i),
        VideoPlatform::DailyMotion => m_dailymotion_host(s, i),
        VideoPlatform::Wistia => m_wistia_host(s, i),
    }
}

fn m_platform_rest(p: VideoPlatform, s: &Vec<char>, i: usize) -> (r: bool)
    requires
        i <= s@.len(),
    ensures
        r == platform_rest(p, s@.skip(i as int)),
{
    match p {
        VideoPlatform::Wistia => m_wistia_rest(s, i),
        _ => {
            if m_host_path(p, s, i) {
                true
            } else {
                match skip_lit(s, i, "www.") {
                    Some(j) => m_host_path(p, s, j),
                    None => false,
                }
            }
        },
    }
}

/// Whether the characters `s` form a video URL of platform `p`.
pub fn matches_chars(p: VideoPlatform, s: &Vec<char>) -> (r: bool)
    ensures
        r == url_matches(p, s@),
{
    proof {
        assert(s@.skip(0) =~= s@);
    }
    let http = match skip_lit(s, 0, "http://") {
        Some(j) => m_platform_rest(p, s, j),
        None => false,
    };
    if http {
        return true;
    }
    match skip_lit(s, 0, "https://") {
        Some(j) => m_platform_rest(p, s, j),
        None => false,
    }
}

/// Whether `url`, as a whole, is a video URL of platform `p`.
pub fn matches_url(p: VideoPlatform, url: &str) -> (r: bool)
    ensures
        r == url_matches(p, url@),
{
    let s = chars_of(url);
    matches_chars(p, &s)
}

} // verus!

verus! {

/// The first character of the host of each platform but Wistia.
pub open spec fn lead(p: VideoPlatform) -> char {
    match p {
        VideoPlatform::YouTube => 'y',
        VideoPlatform::Facebook => 'f',
        VideoPlatform::Vimeo => 'v',
        VideoPlatform::DailyMotion => 'd',
        VideoPlatform::Wistia => 'w',
    }
}

proof fn lemma_starts(r: Seq<char>, lit: Seq<char>)
    requires
        starts(r, lit),
    ensures
        lit.len() <= r.len(),
        forall|j: int| 0 <= j < lit.len() ==> r[j] == lit[j],
{
    assert forall|j: int| 0 <= j < lit.len() implies r[j] == lit[j] by {
        assert(r.take(lit.len() as int)[j] == r[j]);
    }
}

/// A host that begins with `lit` puts its first `.` at `dot`, and the
/// character after that dot is not `w`: no Wistia subdomain label can end there.
proof fn lemma_not_wistia_label(r: Seq<char>, lit: Seq<char>, dot: int)
    requires
        starts(r, lit),
        0 < dot,
        dot + 1 < lit.len(),
        lit[dot] == '.',
        lit[dot + 1] != 'w',
        forall|j: int| 0 <= j < dot ==> lit[j] != '.',
    ensures
        !(exists|k: int|
            0 < k < r.len() && r[k] == '.' && (forall|j: int| 0 <= j < k ==> is_label_char(r[j]))
                && #[trigger] wistia_host(r.skip(k + 1))),
{
    lemma_starts(r, lit);
    assert forall|k: int|
        0 < k < r.len() && r[k] == '.' && (forall|j: int| 0 <= j < k ==> is_label_char(r[j])) implies
        !#[trigger] wistia_host(r.skip(k + 1)) by {
        if k < dot {
            assert(r[k] == lit[k]);
        } else if k > dot {
            assert(r[dot] == '.');
        } else {
            reveal_strlit("wistia.com/medias/");
            reveal_strlit("wistia.com/embed/");
            let w = r.skip(k + 1);
            assert(w[0] == r[k + 1]);
            if starts(w, "wistia.com/medias/"@) {
                lemma_starts(w, "wistia.com/medias/"@);
            }
            if starts(w, "wistia.com/embed/"@) {
                lemma_starts(w, "wistia.com/embed/"@);
            }
        }
    }
}

proof fn lemma_not_wistia_host(r: Seq<char>)
    requires
        r.len() > 1,
        r[0] != 'w' || r[1] != 'i',
    ensures
        !wistia_host(r),
{
    reveal_strlit("wistia.com/medias/");
    reveal_strlit("wistia.com/embed/");
    if starts(r, "wistia.com/medias/"@) {
        lemma_starts(r, "wistia.com/medias/"@);
    }
    if starts(r, "wistia.com/embed/"@) {
        lemma_starts(r, "wistia.com/embed/"@);
    }
}

/// A host of a platform other than Wistia begins with that platform's lead
/// character, and is not a Wistia host with or without a subdomain label.
proof fn lemma_host_shape(p: VideoPlatform, r: Seq<char>)
    requires
        p != VideoPlatform::Wistia,
        host_path(p, r),
    ensures
        r.len() > 1,
        r[0] == lead(p),
        !wistia_rest(r),
{
    reveal_strlit("youtube.com/watch?v=");
    reveal_strlit("youtube.com/embed/");
    reveal_strlit("youtube.com/v/");
    reveal_strlit("youtu.be/");
    reveal_strlit("facebook.com/");
    reveal_strlit("vimeo.com/");
    reveal_strlit("dailymotion.com/video/");
    reveal_strlit("dai.ly/");
    let lit = if p == VideoPlatform::YouTube {
        if starts(r, "youtube.com/watch?v="@) {
            "youtube.com/watch?v="@
        } else if starts(r, "youtube.com/embed/"@) {
            "youtube.com/embed/"@
        } else if starts(r, "youtube.com/v/"@) {
            "youtube.com/v/"@
        } else {
            "youtu.be/"@
        }
    } else if p == VideoPlatform::Facebook {
        "facebook.com/"@
    } else if p == VideoPlatform::Vimeo {
        "vimeo.com/"@
    } else if starts(r, "dailymotion.com/video/"@) {
        "dailymotion.com/video/"@
    } else {
        "dai.ly/"@
    };
    let dot: int = if lit == "youtu.be/"@ || lit == "vimeo.com/"@ {
        5
    } else if lit == "facebook.com/"@ {
        8
    } else if lit == "dailymotion.com/video/"@ {
        11
    } else if lit == "dai.ly/"@ {
        3
    } else {
        7
    };
    assert(starts(r, lit));
    lemma_starts(r, lit);
    lemma_not_wistia_label(r, lit, dot);
    lemma_not_wistia_host(r);
}

/// What follows the scheme of a URL of a platform other than Wistia begins
/// with its lead character or with `www.` and then it, and is no Wistia rest.
proof fn lemma_rest_shape(p: VideoPlatform, r: Seq<char>)
    requires
        p != VideoPlatform::Wistia,
        platform_rest(p, r),
    ensures
        r.len() > 1,
        r[0] == lead(p) || (starts(r, "www."@) && r.len() > 4 && r[4] == lead(p)),
        !wistia_rest(r),
{
    reveal_strlit("www.");
    if host_path(p, r) {
        lemma_host_shape(p, r);
    } else {
        let h = after(r, "www."@);
        lemma_host_shape(p, h);
        lemma_starts(r, "www."@);
        assert(r[4] == h[0]);
        assert(r[5] == h[1]);
        lemma_not_wistia_host(r);
        assert forall|k: int|
            0 < k < r.len() && r[k] == '.' && (forall|j: int| 0 <= j < k ==> is_label_char(r[j]))
                implies !#[trigger] wistia_host(r.skip(k + 1)) by {
            if k < 3 {
                assert(r[k] == 'w');
            } else if k > 3 {
                assert(r[3] == '.');
            } else {
                lemma_not_wistia_host(r.skip(k + 1));
            }
        }
    }
}

/// No string is a video URL of two different platforms: the five grammars
/// are mutually exclusive.
pub proof fn lemma_exclusive(p: VideoPlatform, q: VideoPlatform, s: Seq<char>)
    requires
        p != q,
    ensures
        !(url_matches(p, s) && url_matches(q, s)),
{
    reveal_strlit("http://");
    reveal_strlit("https://");
    reveal_strlit("www.");
    if url_matches(p, s) && url_matches(q, s) {
        let r = if starts(s, "http://"@) && platform_rest(p, after(s, "http://"@)) {
            after(s, "http://"@)
        } else {
            after(s, "https://"@)
        };
        if starts(s, "http://"@) {
            lemma_starts(s, "http://"@);
        }
        if starts(s, "https://"@) {
            lemma_starts(s, "https://"@);
        }
        if starts(s, "http://"@) && starts(s, "https://"@) {
            assert(s[4] == "http://"@[4]);
            assert(s[4] == "https://"@[4]);
        }
        assert(platform_rest(p, r) && platform_rest(q, r));
        if p == VideoPlatform::Wistia {
            lemma_rest_shape(q, r);
        } else if q == VideoPlatform::Wistia {
            lemma_rest_shape(p, r);
        } else {
            lemma_rest_shape(p, r);
            lemma_rest_shape(q, r);
            if starts(r, "www."@) {
                lemma_starts(r, "www."@);
            }
        }
    }
}

} // verus!

verus! {

/// A string that begins with a scheme is no Wistia rest: the `:` of the
/// scheme cannot stand in a subdomain label, and no `.` comes before it.
proof fn lemma_scheme_not_wistia(r: Seq<char>)
    requires
        starts(r, "http://"@) || starts(r, "https://"@),
    ensures
        !wistia_rest(r),
{
    reveal_strlit("http://");
    reveal_strlit("https://");
    let lit = if starts(r, "http://"@) {
        "http://"@
    } else {
        "https://"@
    };
    let colon: int = if lit == "http://"@ {
        4
    } else {
        5
    };
    lemma_starts(r, lit);
    assert(r[colon] == ':');
    lemma_not_wistia_host(r);
    assert forall|k: int|
        0 < k < r.len() && r[k] == '.' && (forall|j: int| 0 <= j < k ==> is_label_char(r[j]))
            implies !#[trigger] wistia_host(r.skip(k + 1)) by {
        if k <= colon {
            assert(r[k] == lit[k]);
        } else {
            assert(!is_label_char(r[colon]));
        }
    }
}

/// Removing the scheme from a video URL leaves a string that matches no
/// grammar.
pub proof fn lemma_scheme_required(
    p: VideoPlatform,
    q: VideoPlatform,
    scheme: Seq<char>,
    r: Seq<char>,
)
    requires
        scheme == "http://"@ || scheme == "https://"@,
        url_matches(p, scheme + r),
    ensures
        !url_matches(q, r),
{
    reveal_strlit("http://");
    reveal_strlit("https://");
    let s = scheme + r;
    assert(after(s, scheme) =~= r);
    assert(starts(s, scheme)) by {
        assert(s.take(scheme.len() as int) =~= scheme);
    }
    if starts(s, "http://"@) && starts(s, "https://"@) {
        assert(s[4] == "http://"@[4]);
        assert(s[4] == "https://"@[4]);
    }
    if scheme == "http://"@ {
        assert(platform_rest(p, r));
    } else {
        assert(platform_rest(p, r));
    }
    if p == VideoPlatform::Wistia && url_matches(q, r) {
        lemma_scheme_not_wistia(r);
    }
    if p != VideoPlatform::Wistia && url_matches(q, r) {
        lemma_rest_shape(p, r);
        if starts(r, "http://"@) {
            lemma_starts(r, "http://"@);
        }
        if starts(r, "https://"@) {
            lemma_starts(r, "https://"@);
        }
        reveal_strlit("www.");
        if starts(r, "www."@) {
            lemma_starts(r, "www."@);
        }
    }
}

} // verus!

verus! {

/// A character that cannot continue a video URL: no identifier character, no
/// digit, and none of `=`, `&`, `/` and `?`. A space is one.
pub open spec fn is_garbage(g: char) -> bool {
    !is_ident_char(g) && !unicode_digit(g) && g != '=' && g != '&' && g != '/' && g != '?'
}

/// `x` is not empty and ends in a character that cannot continue a URL.
pub open spec fn ends_in_garbage(x: Seq<char>) -> bool {
    x.len() > 0 && is_garbage(x[x.len() - 1])
}

/// No character of `x` is `?`.
pub open spec fn no_query_mark(x: Seq<char>) -> bool {
    forall|i: int| 0 <= i < x.len() ==> x[i] != '?'
}

proof fn lemma_skip_keeps(x: Seq<char>, n: int)
    requires
        0 <= n <= x.len(),
    ensures
        n < x.len() && ends_in_garbage(x) ==> ends_in_garbage(x.skip(n)),
        no_query_mark(x) ==> no_query_mark(x.skip(n)),
        x.skip(n).len() == x.len() - n,
{
    if n < x.len() && ends_in_garbage(x) {
        assert(x.skip(n)[x.len() - n - 1] == x[x.len() - 1]);
    }
    if no_query_mark(x) {
        assert forall|i: int| 0 <= i < x.skip(n).len() implies x.skip(n)[i] != '?' by {
            assert(x.skip(n)[i] == x[n + i]);
        }
    }
}

proof fn lemma_ident_end_garbage(x: Seq<char>, k: CharClass)
    requires
        ends_in_garbage(x),
        no_query_mark(x),
        k == CharClass::Ident || k == CharClass::Digit,
    ensures
        !ident_end(x, k),
{
    lemma_run_len_bound(x, k);
    let n = run_len(x, k) as int;
    if n == x.len() {
        assert(in_class(k, x[x.len() - 1]));
    } else {
        lemma_skip_keeps(x, n);
        let t = x.skip(n);
        if t.len() > 1 {
            lemma_skip_keeps(t, 1);
        } else if t.len() == 1 {
            assert(is_garbage(t[0]));
        }
    }
}

proof fn lemma_ident_params_garbage(x: Seq<char>)
    requires
        ends_in_garbage(x),
    ensures
        !ident_params(x),
{
    lemma_run_len_bound(x, CharClass::Ident);
    let n = run_len(x, CharClass::Ident) as int;
    if n == x.len() {
        assert(in_class(CharClass::Ident, x[x.len() - 1]));
    } else {
        let rest = x.skip(n);
        lemma_skip_keeps(x, n);
        lemma_run_len_bound(rest, CharClass::Param);
        if run_len(rest, CharClass::Param) == rest.len() {
            assert(in_class(CharClass::Param, rest[rest.len() - 1]));
        }
    }
}

/// `lit` is followed in `x` by a rest that, like `x`, ends in a space and
/// holds no `?`, or by nothing.
proof fn lemma_after_keeps(x: Seq<char>, lit: Seq<char>)
    requires
        starts(x, lit),
    ensures
        ends_in_garbage(x) && lit.len() < x.len() ==> ends_in_garbage(after(x, lit)),
        no_query_mark(x) ==> no_query_mark(after(x, lit)),
        after(x, lit).len() == x.len() - lit.len(),
{
    lemma_skip_keeps(x, lit.len() as int);
}

proof fn lemma_youtube_garbage(x: Seq<char>)
    requires
        ends_in_garbage(x),
    ensures
        !youtube_host(x),
{
    let lits = seq![
        "youtube.com/watch?v="@,
        "youtube.com/embed/"@,
        "youtube.com/v/"@,
        "youtu.be/"@,
    ];
    assert forall|i: int| 0 <= i < 4 implies !(starts(x, #[trigger] lits[i]) && ident_params(
        after(x, lits[i]),
    )) by {
        if starts(x, lits[i]) {
            lemma_after_keeps(x, lits[i]);
            if lits[i].len() < x.len() {
                lemma_ident_params_garbage(after(x, lits[i]));
            }
        }
    }
    assert(lits[0] == "youtube.com/watch?v="@);
    assert(lits[1] == "youtube.com/embed/"@);
    assert(lits[2] == "youtube.com/v/"@);
    assert(lits[3] == "youtu.be/"@);
}

proof fn lemma_lit_end_garbage(x: Seq<char>, lit: Seq<char>, k: CharClass)
    requires
        ends_in_garbage(x),
        no_query_mark(x),
        k == CharClass::Ident || k == CharClass::Digit,
    ensures
        !(starts(x, lit) && ident_end(after(x, lit), k)),
{
    if starts(x, lit) {
        lemma_after_keeps(x, lit);
        if lit.len() < x.len() {
            lemma_ident_end_garbage(after(x, lit), k);
        }
    }
}

proof fn lemma_facebook_garbage(x: Seq<char>)
    requires
        ends_in_garbage(x),
        no_query_mark(x),
    ensures
        !facebook_host(x),
{
    if starts(x, "facebook.com/"@) {
        let p = after(x, "facebook.com/"@);
        lemma_after_keeps(x, "facebook.com/"@);
        assert forall|i: int| 0 <= i <= p.len() implies !#[trigger] facebook_video(p.skip(i)) by {
            let b = p.skip(i);
            lemma_skip_keeps(p, i);
            if i < p.len() {
                lemma_lit_end_garbage(b, "video.php?v="@, CharClass::Digit);
                lemma_lit_end_garbage(b, "videos/"@, CharClass::Digit);
            } else {
                reveal_strlit("video.php?v=");
                reveal_strlit("videos/");
            }
        }
    }
}

proof fn lemma_wistia_host_garbage(x: Seq<char>)
    requires
        no_query_mark(x),
        ends_in_garbage(x) || x.len() == 0,
    ensures
        !wistia_host(x),
{
    if x.len() == 0 {
        reveal_strlit("wistia.com/medias/");
        reveal_strlit("wistia.com/embed/");
    } else {
        lemma_lit_end_garbage(x, "wistia.com/medias/"@, CharClass::Ident);
        lemma_lit_end_garbage(x, "wistia.com/embed/"@, CharClass::Ident);
    }
}

proof fn lemma_rest_garbage(p: VideoPlatform, r: Seq<char>)
    requires
        ends_in_garbage(r),
        p == VideoPlatform::YouTube || no_query_mark(r),
    ensures
        !platform_rest(p, r),
{
    if p == VideoPlatform::Wistia {
        lemma_wistia_host_garbage(r);
        assert forall|k: int|
            0 < k < r.len() && r[k] == '.' && (forall|j: int| 0 <= j < k ==> is_label_char(r[j]))
                implies !#[trigger] wistia_host(r.skip(k + 1)) by {
            lemma_skip_keeps(r, k + 1);
            lemma_wistia_host_garbage(r.skip(k + 1));
        }
    } else {
        assert forall|h: Seq<char>| ends_in_garbage(h) && (p == VideoPlatform::YouTube || no_query_mark(h))
            implies !#[trigger] host_path(p, h) by {
            match p {
                VideoPlatform::YouTube => lemma_youtube_garbage(h),
                VideoPlatform::Facebook => lemma_facebook_garbage(h),
                VideoPlatform::Vimeo => lemma_lit_end_garbage(h, "vimeo.com/"@, CharClass::Digit),
                VideoPlatform::DailyMotion => {
                    lemma_lit_end_garbage(h, "dailymotion.com/video/"@, CharClass::Ident);
                    lemma_lit_end_garbage(h, "dai.ly/"@, CharClass::Ident);
                },
                VideoPlatform::Wistia => {},
            }
        }
        if starts(r, "www."@) {
            lemma_after_keeps(r, "www."@);
            reveal_strlit("www.");
            if r.len() == 4 {
                assert(r[3] == "www."@[3]) by {
                    lemma_starts(r, "www."@);
                }
            }
            assert(host_path(p, after(r, "www."@)) == false);
        }
    }
}

/// Whole-string anchoring: appending a character that cannot continue a URL
/// (a space, say) to a string `s` never gives a YouTube URL, and gives a URL
/// of no platform at all where `s` holds no `?` (only a query, opened by `?`,
/// takes in such a trailing character).
pub proof fn lemma_trailing_garbage(p: VideoPlatform, s: Seq<char>, g: char)
    requires
        is_garbage(g),
    ensures
        !url_matches(VideoPlatform::YouTube, s.push(g)),
        no_query_mark(s) ==> !url_matches(p, s.push(g)),
{
    reveal_strlit("http://");
    reveal_strlit("https://");
    let x = s.push(g);
    assert(ends_in_garbage(x));
    if no_query_mark(s) {
        assert(no_query_mark(x)) by {
            assert forall|i: int| 0 <= i < x.len() implies x[i] != '?' by {
                if i < s.len() {
                    assert(x[i] == s[i]);
                }
            }
        }
    }
    assert forall|q: VideoPlatform, lit: Seq<char>|
        (lit == "http://"@ || lit == "https://"@) && (q == VideoPlatform::YouTube || no_query_mark(x))
            implies !(starts(x, lit) && #[trigger] platform_rest(q, after(x, lit))) by {
        if starts(x, lit) {
            lemma_after_keeps(x, lit);
            if lit.len() < x.len() {
                lemma_rest_garbage(q, after(x, lit));
            } else {
                lemma_starts(x, lit);
                assert(x[x.len() - 1] == lit[lit.len() - 1]);
            }
        }
    }
}

} // verus!
