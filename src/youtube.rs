//! YouTube: identifiers, page scanning, signature descrambling and the fallback between clients.

pub mod ejs;
pub mod extract;
pub mod page;
pub mod types;
pub mod utils;

use vstd::prelude::*;
use crate::error::{message, MusicFreeError};
use crate::model::Platform;
use crate::text::{chars_of, find, find_chars};
use crate::youtube::utils::{is_video_id, video_id_in};

verus! {

/// A downloaded YouTube track.
pub struct AudioInfo {
    pub title: String,
    pub data: Vec<u8>,
}

/// One audio encoding offered for a video, with a directly fetchable URL.
#[derive(Debug, Clone)]
pub struct AudioFormat {
    pub itag: i64,
    pub mime_type: String,
    pub bitrate: Option<i64>,
    pub content_length: Option<String>,
    pub audio_quality: Option<String>,
    pub url: String,
}

/// The identifier a URL or bare identifier names, with no network call.
pub open spec fn extract_video_id_spec(url: Seq<char>) -> Option<Seq<char>> {
    if is_video_id(url) { Some(url) } else { video_id_in(url) }
}

pub fn extract_video_id(url: &str) -> (r: Result<String, MusicFreeError>)
    ensures
        match extract_video_id_spec(url@) {
            Some(id) => r matches Ok(s) && s@ == id,
            None => r matches Err(MusicFreeError::InvalidUrl(m)) && m@ == "Cannot extract video ID from: "@ + url@,
        },
{
    if crate::youtube::utils::is_valid_video_id(url) {
        return Ok(String::from_str(url));
    }
    let v = chars_of(url);
    match crate::youtube::utils::video_id_in_exec(&v) {
        Some(id) => Ok(id),
        None => Err(MusicFreeError::InvalidUrl(message("Cannot extract video ID from: ", url))),
    }
}

/// A loose check: the text names one of the site's domains.
pub open spec fn is_youtube_url_spec(url: Seq<char>) -> bool {
    find(url, "youtube.com"@) is Some || find(url, "youtu.be"@) is Some
}

pub fn is_youtube_url(url: &str) -> (r: bool)
    ensures
        r == is_youtube_url_spec(url@),
{
    let v = chars_of(url);
    let a = chars_of("youtube.com");
    let b = chars_of("youtu.be");
    find_chars(&v, &a, 0).is_some() || find_chars(&v, &b, 0).is_some()
}

/// The YouTube entry of the extractor registry.
#[derive(Debug, Clone, Copy)]
pub struct YoutubeExtractor;

impl YoutubeExtractor {
    /// Whether this extractor recognizes the input.
    pub fn matches(&self, url: &str) -> (r: bool)
        ensures
            r == crate::youtube::utils::is_youtube_url_spec(url@),
    {
        crate::youtube::utils::is_youtube_url(url)
    }

    pub fn platform(&self) -> (r: Platform)
        ensures
            r == Platform::Youtube,
    {
        Platform::Youtube
    }
}

/// The two strategies for resolving a video: the page with descrambling first, then the
/// plain-URL client API.
#[derive(Debug, Clone, Copy, PartialEq, Eq)]
pub enum Attempt {
    Rich,
    Simple,
}

/// What to do after an attempt.
#[derive(Debug)]
pub enum FallbackStep<T> {
    /// The attempt succeeded: report this.
    Finished(T),
    /// The attempt failed and its partial work is dropped: run this attempt next.
    Retry(Attempt),
    /// The last attempt failed: report this error.
    Failed(MusicFreeError),
}

/// Decides the next move of the fallback between strategies: success finishes; a failed rich
/// attempt moves to the simple one; a failed simple attempt is final.
pub fn next_attempt<T>(attempt: Attempt, outcome: Result<T, MusicFreeError>) -> (r: FallbackStep<T>)
    ensures
        match outcome {
            Ok(v) => r == FallbackStep::Finished(v),
            Err(e) => match attempt {
                Attempt::Rich => r == FallbackStep::<T>::Retry(Attempt::Simple),
                Attempt::Simple => r == FallbackStep::<T>::Failed(e),
            },
        },
{
    match outcome {
        Ok(v) => FallbackStep::Finished(v),
        Err(e) => match attempt {
            Attempt::Rich => FallbackStep::Retry(Attempt::Simple),
            Attempt::Simple => FallbackStep::Failed(e),
        },
    }
}

} // verus!
