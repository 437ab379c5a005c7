//! Resolves a video URL or identifier on a supported platform into playable audio: identifier
//! normalization, page and API data extraction, signature descrambling, quality selection and
//! the fallback between strategies. Network access is left to the caller.

pub mod bilibili;
pub mod cli;
pub mod error;
pub mod file;
pub mod model;
pub mod select;
pub mod text;
pub mod urls;
pub mod utils;
pub mod youtube;

use vstd::prelude::*;
use crate::error::MusicFreeError;
use crate::model::Platform;

verus! {

/// A downloaded track and the site it came from.
pub struct Audio {
    pub title: String,
    pub data: Vec<u8>,
    pub source: Site,
}

/// The sites the loose URL checks recognize.
#[derive(Debug, Clone, Copy, PartialEq, Eq)]
pub enum Site {
    Bilibili,
    YouTube,
}

/// Detects the site from the loose URL checks, Bilibili first.
pub fn detect_site(url: &str) -> (r: Result<Site, MusicFreeError>)
    ensures
        crate::bilibili::is_bilibili_url_spec(url@) ==> r == Ok::<Site, MusicFreeError>(Site::Bilibili),
        !crate::bilibili::is_bilibili_url_spec(url@) && crate::youtube::is_youtube_url_spec(url@)
            ==> r == Ok::<Site, MusicFreeError>(Site::YouTube),
        !crate::bilibili::is_bilibili_url_spec(url@) && !crate::youtube::is_youtube_url_spec(url@)
            ==> (r matches Err(MusicFreeError::UnsupportedSite(m)) && m@ == url@),
{
    if crate::bilibili::is_bilibili_url(url) {
        return Ok(Site::Bilibili);
    }
    if crate::youtube::is_youtube_url(url) {
        return Ok(Site::YouTube);
    }
    Err(MusicFreeError::UnsupportedSite(String::from_str(url)))
}

/// Characters that may not stand in a file name on common systems.
pub open spec fn is_reserved_char(c: char) -> bool {
    c == '/' || c == '\\' || c == ':' || c == '*' || c == '?' || c == '"' || c == '<' || c == '>' || c == '|'
}

pub open spec fn sanitized(s: Seq<char>) -> Seq<char> {
    s.map_values(|c: char| if is_reserved_char(c) { '_' } else { c })
}

/// Replaces each reserved file-name character with `_`.
pub fn sanitize_filename(name: &str) -> (r: String)
    ensures
        r@ == sanitized(name@),
{
    let v = crate::text::chars_of(name);
    let mut r = String::new();
    let mut i: usize = 0;
    while i < v.len()
        invariant
            i <= v.len(),
            v@ == name@,
            r@ == sanitized(v@.take(i as int)),
        decreases v.len() - i,
    {
        let c = v[i];
        let d = if c == '/' || c == '\\' || c == ':' || c == '*' || c == '?' || c == '"' || c == '<'
            || c == '>' || c == '|' { '_' } else { c };
        crate::text::push_char(&mut r, d);
        i = i + 1;
        assert(r@ =~= sanitized(v@.take(i as int)));
    }
    assert(v@.take(i as int) =~= v@);
    r
}

/// Whether a platform's extractor recognizes the input.
pub open spec fn recognizes(p: Platform, url: Seq<char>) -> bool {
    match p {
        Platform::Bilibili => crate::bilibili::utils::is_bilibili_url_spec(url),
        Platform::Youtube => crate::youtube::utils::is_youtube_url_spec(url),
        Platform::File => crate::file::is_http_url_spec(url) && crate::file::audio_format_from(url, 0) is Some,
    }
}

impl Platform {
    /// Whether this platform's extractor recognizes the input.
    pub fn matches(&self, url: &str) -> (r: bool)
        ensures
            r == recognizes(*self, url@),
    {
        match self {
            Platform::Bilibili => crate::bilibili::BilibiliExtractor.matches(url),
            Platform::Youtube => crate::youtube::YoutubeExtractor.matches(url),
            Platform::File => crate::file::FileExtractor.matches(url),
        }
    }
}

/// The platform whose extractor handles the input: the first, in registry order, that
/// recognizes it; no other is consulted.
pub open spec fn platform_for_spec(url: Seq<char>) -> Option<Platform> {
    if recognizes(Platform::Bilibili, url) {
        Some(Platform::Bilibili)
    } else if recognizes(Platform::Youtube, url) {
        Some(Platform::Youtube)
    } else if recognizes(Platform::File, url) {
        Some(Platform::File)
    } else {
        None
    }
}

pub fn platform_for(url: &str) -> (r: Result<Platform, MusicFreeError>)
    ensures
        match platform_for_spec(url@) {
            Some(p) => r == Ok::<Platform, MusicFreeError>(p),
            None => r matches Err(MusicFreeError::ExtractorNotFound(m)) && m@ == url@,
        },
{
    let all = Platform::all();
    let mut i: usize = 0;
    while i < all.len()
        invariant
            all@ == seq![Platform::Bilibili, Platform::Youtube, Platform::File],
            i <= 3,
            forall|k: int| 0 <= k < i ==> !recognizes(#[trigger] all@[k], url@),
        decreases 3 - i,
    {
        if all[i].matches(url) {
            return Ok(all[i]);
        }
        i = i + 1;
    }
    Err(MusicFreeError::ExtractorNotFound(String::from_str(url)))
}

} // verus!
