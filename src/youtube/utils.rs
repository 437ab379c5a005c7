//! YouTube identifiers and the URLs built from them.

use vstd::prelude::*;
use crate::error::{message, MusicFreeError};
use crate::text::{chars_of, find, find_chars, is_alphanumeric, matches_at, starts_with, string_of, unicode_alphanumeric};
use crate::urls::{url_domain, url_domain_of};

verus! {

pub const WEB_USER_AGENT: &'static str = "Mozilla/5.0 (Windows NT 10.0; Win64; x64) AppleWebKit/537.36 (KHTML, like Gecko) Chrome/120.0.0.0 Safari/537.36";
pub const ANDROID_USER_AGENT: &'static str = "com.google.android.youtube/20.10.38 (Linux; U; Android 11) gzip";

/// A character allowed in video and playlist identifiers.
pub open spec fn id_char(c: char) -> bool {
    unicode_alphanumeric(c) || c == '-' || c == '_'
}

pub open spec fn all_id_chars(s: Seq<char>) -> bool {
    forall|i: int| 0 <= i < s.len() ==> id_char(#[trigger] s[i])
}

/// A video identifier: eleven identifier characters.
pub open spec fn is_video_id(s: Seq<char>) -> bool {
    s.len() == 11 && all_id_chars(s)
}

/// A playlist identifier: 2 to 34 identifier characters with a known list prefix.
pub open spec fn is_playlist_id(s: Seq<char>) -> bool {
    &&& 2 <= s.len() <= 34
    &&& (starts_with(s, "PL"@) || starts_with(s, "UU"@) || starts_with(s, "LL"@)
        || starts_with(s, "RD"@) || starts_with(s, "OL"@) || starts_with(s, "FL"@))
    &&& all_id_chars(s)
}

/// The length of the run of identifier characters at `i`, at most `cap`.
pub open spec fn run_len(s: Seq<char>, i: int, cap: int) -> int
    decreases s.len() - i,
{
    if cap <= 0 || i < 0 || i >= s.len() || !id_char(s[i]) {
        0
    } else {
        1 + run_len(s, i + 1, cap - 1)
    }
}

/// The run of identifier characters right after the first `marker`, at most `cap` long.
pub open spec fn run_after(s: Seq<char>, marker: Seq<char>, cap: int) -> Option<Seq<char>> {
    match find(s, marker) {
        Some(p) => {
            let start = p + marker.len();
            Some(s.subrange(start, start + run_len(s, start, cap)))
        },
        None => None,
    }
}

proof fn lemma_run_len(s: Seq<char>, i: int, cap: int)
    requires
        0 <= i <= s.len(),
    ensures
        0 <= run_len(s, i, cap),
        i + run_len(s, i, cap) <= s.len(),
        cap >= 0 ==> run_len(s, i, cap) <= cap,
        forall|k: int| i <= k < i + run_len(s, i, cap) ==> id_char(#[trigger] s[k]),
    decreases s.len() - i,
{
    if !(cap <= 0 || i >= s.len() || !id_char(s[i])) {
        lemma_run_len(s, i + 1, cap - 1);
    }
}

fn is_id_char(c: char) -> (r: bool)
    ensures
        r == id_char(c),
{
    is_alphanumeric(c) || c == '-' || c == '_'
}

fn all_id_chars_in(v: &Vec<char>) -> (r: bool)
    ensures
        r == all_id_chars(v@),
{
    let mut i: usize = 0;
    while i < v.len()
        invariant
            i <= v.len(),
            forall|k: int| 0 <= k < i ==> id_char(#[trigger] v@[k]),
        decreases v.len() - i,
    {
        if !is_id_char(v[i]) {
            return false;
        }
        i = i + 1;
    }
    true
}

fn run_end(v: &Vec<char>, start: usize, cap: usize) -> (e: usize)
    requires
        start <= v.len(),
    ensures
        e == start + run_len(v@, start as int, cap as int),
        start <= e <= v.len(),
{
    proof { lemma_run_len(v@, start as int, cap as int); }
    let mut i = start;
    while i < v.len() && i - start < cap && is_id_char(v[i])
        invariant
            start <= i <= v.len(),
            i - start <= cap,
            run_len(v@, start as int, cap as int) == (i - start) + run_len(v@, i as int, cap - (i - start)),
        decreases v.len() - i,
    {
        i = i + 1;
    }
    i
}

/// The identifier run after `marker`, when there is one.
fn run_after_exec(v: &Vec<char>, marker: &str, cap: usize) -> (r: Option<String>)
    ensures
        crate::urls::opt_view(r) == run_after(v@, marker@, cap as int),
{
    let m = chars_of(marker);
    let n = v.len();
    match find_chars(v, &m, 0) {
        Some(p) => {
            proof { crate::text::lemma_find_from_bounds(v@, m@, 0); }
            let start = p + m.len();
            let e = run_end(v, start, cap);
            Some(string_of(v, start, e))
        },
        None => None,
    }
}

pub fn is_valid_video_id(id: &str) -> (r: bool)
    ensures
        r == is_video_id(id@),
{
    let v = chars_of(id);
    v.len() == 11 && all_id_chars_in(&v)
}

fn has_prefix(v: &Vec<char>, p: &str) -> (r: bool)
    ensures
        r == starts_with(v@, p@),
{
    let pv = chars_of(p);
    let r = matches_at(v, &pv, 0);
    assert(r == starts_with(v@, p@));
    r
}

pub fn is_valid_playlist_id(id: &str) -> (r: bool)
    ensures
        r == is_playlist_id(id@),
{
    let v = chars_of(id);
    if v.len() < 2 || v.len() > 34 {
        return false;
    }
    let has_valid_prefix = has_prefix(&v, "PL") || has_prefix(&v, "UU") || has_prefix(&v, "LL")
        || has_prefix(&v, "RD") || has_prefix(&v, "OL") || has_prefix(&v, "FL");
    has_valid_prefix && all_id_chars_in(&v)
}

/// A YouTube domain or one of its subdomains.
pub open spec fn is_youtube_domain(d: Seq<char>) -> bool {
    d == "youtube.com"@ || crate::text::ends_with(d, ".youtube.com"@) || d == "youtu.be"@
        || crate::text::ends_with(d, ".youtu.be"@)
}

/// An identifier, or a URL (with or without a scheme) whose domain is YouTube's.
pub open spec fn is_youtube_url_spec(url: Seq<char>) -> bool {
    if is_video_id(url) || is_playlist_id(url) {
        true
    } else {
        match url_domain_of(url) {
            Some(d) => is_youtube_domain(d),
            None => {
                let normalized = if starts_with(url, "http://"@) || starts_with(url, "https://"@) {
                    url
                } else {
                    "https://"@ + url
                };
                match url_domain_of(normalized) {
                    Some(d) => is_youtube_domain(d),
                    None => false,
                }
            },
        }
    }
}

fn youtube_domain(d: &String) -> (r: bool)
    ensures
        r == is_youtube_domain(d@),
{
    let v = chars_of(d.as_str());
    *d == String::from_str("youtube.com") || crate::text::ends_with_exec(&v, ".youtube.com")
        || *d == String::from_str("youtu.be") || crate::text::ends_with_exec(&v, ".youtu.be")
}

pub fn is_youtube_url(url: &str) -> (r: bool)
    ensures
        r == is_youtube_url_spec(url@),
{
    if is_valid_video_id(url) || is_valid_playlist_id(url) {
        return true;
    }
    if let Some(d) = url_domain(url) {
        return youtube_domain(&d);
    }
    let v = chars_of(url);
    let normalized = if has_prefix(&v, "http://") || has_prefix(&v, "https://") {
        String::from_str(url)
    } else {
        message("https://", url)
    };
    match url_domain(normalized.as_str()) {
        Some(d) => youtube_domain(&d),
        None => false,
    }
}

/// The identifier read from a URL's `v=` parameter, else from a `youtu.be/` path.
pub open spec fn video_id_in(url: Seq<char>) -> Option<Seq<char>> {
    if run_after(url, "v="@, 11) matches Some(id) && is_video_id(id) {
        run_after(url, "v="@, 11)
    } else if run_after(url, "youtu.be/"@, 11) matches Some(id) && is_video_id(id) {
        run_after(url, "youtu.be/"@, 11)
    } else {
        None
    }
}

pub(crate) fn video_id_in_exec(v: &Vec<char>) -> (r: Option<String>)
    ensures
        crate::urls::opt_view(r) == video_id_in(v@),
{
    if let Some(id) = run_after_exec(v, "v=", 11) {
        if is_valid_video_id(id.as_str()) {
            return Some(id);
        }
    }
    if let Some(id) = run_after_exec(v, "youtu.be/", 11) {
        if is_valid_video_id(id.as_str()) {
            return Some(id);
        }
    }
    None
}

/// What `parse_id` accepts: a bare identifier, or one read from a YouTube URL.
pub open spec fn parse_id_spec(url: Seq<char>) -> Option<Seq<char>> {
    if is_video_id(url) {
        Some(url)
    } else if !is_youtube_url_spec(url) {
        None
    } else {
        video_id_in(url)
    }
}

/// Finds the video identifier in a bare identifier or a YouTube URL; no network call.
pub fn parse_id(url: &str) -> (r: Result<String, MusicFreeError>)
    ensures
        is_video_id(url@) ==> (r matches Ok(s) && s@ == url@),
        match parse_id_spec(url@) {
            Some(id) => r matches Ok(s) && s@ == id,
            None => if !is_youtube_url_spec(url@) {
                r matches Err(MusicFreeError::InvalidUrl(m)) && m@ == "Not a valid YouTube URL: "@ + url@
            } else {
                r matches Err(MusicFreeError::InvalidUrl(m)) && m@ == "Cannot extract video ID from: "@ + url@
            },
        },
        r matches Ok(s) ==> is_video_id(s@),
{
    if is_valid_video_id(url) {
        return Ok(String::from_str(url));
    }
    if !is_youtube_url(url) {
        return Err(MusicFreeError::InvalidUrl(message("Not a valid YouTube URL: ", url)));
    }
    let v = chars_of(url);
    match video_id_in_exec(&v) {
        Some(id) => Ok(id),
        None => Err(MusicFreeError::InvalidUrl(message("Cannot extract video ID from: ", url))),
    }
}

/// The playlist identifier of a bare identifier or of a URL's `list=` parameter.
pub open spec fn playlist_id_in(url: Seq<char>) -> Option<Seq<char>> {
    if is_playlist_id(url) {
        Some(url)
    } else if run_after(url, "list="@, url.len() as int) matches Some(id) && is_playlist_id(id) {
        run_after(url, "list="@, url.len() as int)
    } else {
        None
    }
}

pub fn parse_playlist_id(url: &str) -> (r: Option<String>)
    ensures
        crate::urls::opt_view(r) == playlist_id_in(url@),
{
    if is_valid_playlist_id(url) {
        return Some(String::from_str(url));
    }
    let v = chars_of(url);
    if let Some(id) = run_after_exec(&v, "list=", v.len()) {
        if is_valid_playlist_id(id.as_str()) {
            return Some(id);
        }
    }
    None
}

/// A bare playlist identifier, or a YouTube URL whose `list=` parameter is one.
pub open spec fn is_playlist_url_spec(url: Seq<char>) -> bool {
    is_playlist_id(url) || (find(url, "list="@) is Some && is_youtube_url_spec(url) && playlist_id_in(url) is Some)
}

pub fn is_playlist_url(url: &str) -> (r: bool)
    ensures
        r == is_playlist_url_spec(url@),
{
    if is_valid_playlist_id(url) {
        return true;
    }
    let v = chars_of(url);
    let list = chars_of("list=");
    if find_chars(&v, &list, 0).is_some() && is_youtube_url(url) {
        if let Some(playlist_id) = parse_playlist_id(url) {
            return is_valid_playlist_id(playlist_id.as_str());
        }
    }
    false
}

pub fn build_watch_url(video_id: &str) -> (r: String)
    ensures
        r@ == "https://www.youtube.com/watch?v="@ + video_id@,
{
    message("https://www.youtube.com/watch?v=", video_id)
}

pub fn build_playlist_url(playlist_id: &str) -> (r: String)
    ensures
        r@ == "https://www.youtube.com/playlist?list="@ + playlist_id@,
{
    message("https://www.youtube.com/playlist?list=", playlist_id)
}

pub fn build_watch_url_with_playlist(video_id: &str, playlist_id: &str) -> (r: String)
    ensures
        r@ == "https://www.youtube.com/watch?v="@ + video_id@ + "&list="@ + playlist_id@,
{
    message("https://www.youtube.com/watch?v=", video_id).concat("&list=").concat(playlist_id)
}

pub fn build_thumbnail_url(video_id: &str) -> (r: String)
    ensures
        r@ == "https://i.ytimg.com/vi/"@ + video_id@ + "/hq720.jpg"@,
{
    message("https://i.ytimg.com/vi/", video_id).concat("/hq720.jpg")
}

} // verus!
