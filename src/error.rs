//! Errors reported by the resolution pipeline.

use vstd::prelude::*;

verus! {

/// Every failure the library reports; payloads are plain text or numbers.
#[derive(Debug, Clone, PartialEq, Eq)]
pub enum MusicFreeError {
    NetworkError(String),
    RequestTimeout(String),
    HttpError { status: u16, url: String },
    InvalidUrl(String),
    UnsupportedSite(String),
    ParseError(String),
    JsonError(String),
    AudioNotFound,
    VideoNotFound,
    IoError(String),
    YoutubeError(String),
    CommandError(String),
    HeaderError(String),
    DownloadFailed(String),
    ExtractorNotFound(String),
    PlatformNotSupported(String),
    ExtractionFailed(String),
    ExtractionTimeout(String),
    InvalidResponse(String),
    RateLimited(String),
    JsDecryptionFailed(String),
    CipherParseError(String),
    PlayerJsNotFound,
    ConfigParseError(String),
    RegexError(String),
}

impl MusicFreeError {
    /// An equal copy of this error.
    pub fn duplicate(&self) -> (r: MusicFreeError)
        ensures
            r == *self,
    {
        match self {
            MusicFreeError::NetworkError(m) => MusicFreeError::NetworkError(m.clone()),
            MusicFreeError::RequestTimeout(m) => MusicFreeError::RequestTimeout(m.clone()),
            MusicFreeError::InvalidUrl(m) => MusicFreeError::InvalidUrl(m.clone()),
            MusicFreeError::UnsupportedSite(m) => MusicFreeError::UnsupportedSite(m.clone()),
            MusicFreeError::ParseError(m) => MusicFreeError::ParseError(m.clone()),
            MusicFreeError::JsonError(m) => MusicFreeError::JsonError(m.clone()),
            MusicFreeError::IoError(m) => MusicFreeError::IoError(m.clone()),
            MusicFreeError::YoutubeError(m) => MusicFreeError::YoutubeError(m.clone()),
            MusicFreeError::CommandError(m) => MusicFreeError::CommandError(m.clone()),
            MusicFreeError::HeaderError(m) => MusicFreeError::HeaderError(m.clone()),
            MusicFreeError::DownloadFailed(m) => MusicFreeError::DownloadFailed(m.clone()),
            MusicFreeError::ExtractorNotFound(m) => MusicFreeError::ExtractorNotFound(m.clone()),
            MusicFreeError::PlatformNotSupported(m) => MusicFreeError::PlatformNotSupported(m.clone()),
            MusicFreeError::ExtractionFailed(m) => MusicFreeError::ExtractionFailed(m.clone()),
            MusicFreeError::ExtractionTimeout(m) => MusicFreeError::ExtractionTimeout(m.clone()),
            MusicFreeError::InvalidResponse(m) => MusicFreeError::InvalidResponse(m.clone()),
            MusicFreeError::RateLimited(m) => MusicFreeError::RateLimited(m.clone()),
            MusicFreeError::JsDecryptionFailed(m) => MusicFreeError::JsDecryptionFailed(m.clone()),
            MusicFreeError::CipherParseError(m) => MusicFreeError::CipherParseError(m.clone()),
            MusicFreeError::ConfigParseError(m) => MusicFreeError::ConfigParseError(m.clone()),
            MusicFreeError::RegexError(m) => MusicFreeError::RegexError(m.clone()),
            MusicFreeError::HttpError { status, url } => MusicFreeError::HttpError { status: *status, url: url.clone() },
            MusicFreeError::AudioNotFound => MusicFreeError::AudioNotFound,
            MusicFreeError::VideoNotFound => MusicFreeError::VideoNotFound,
            MusicFreeError::PlayerJsNotFound => MusicFreeError::PlayerJsNotFound,
        }
    }
}

/// The text `prefix` followed by `tail`, as an owned string.
pub fn message(prefix: &str, tail: &str) -> (r: String)
    ensures
        r@ == prefix@ + tail@,
{
    let head = String::from_str(prefix);
    head.concat(tail)
}

/// Whether an HTTP status counts as success for an ordinary request (2xx).
pub fn is_success_status(status: u16) -> (r: bool)
    ensures
        r == (200 <= status && status < 300),
{
    200 <= status && status < 300
}

/// Maps a finished request's status to success, or to an error naming the status and URL.
pub fn check_status(status: u16, url: &str) -> (r: Result<(), MusicFreeError>)
    ensures
        (200 <= status && status < 300) ==> r is Ok,
        !(200 <= status && status < 300) ==> (r matches Err(MusicFreeError::HttpError { status: s, url: u })
            && s == status && u@ == url@),
{
    if is_success_status(status) {
        Ok(())
    } else {
        Err(MusicFreeError::HttpError { status, url: String::from_str(url) })
    }
}

/// Maps a media download's status: only 200 and 206 (partial content) count as success.
pub fn check_media_status(status: u16, url: &str) -> (r: Result<(), MusicFreeError>)
    ensures
        (status == 200 || status == 206) ==> r is Ok,
        !(status == 200 || status == 206) ==> (r matches Err(MusicFreeError::HttpError { status: s, url: u })
            && s == status && u@ == url@),
{
    if status == 200 || status == 206 {
        Ok(())
    } else {
        Err(MusicFreeError::HttpError { status, url: String::from_str(url) })
    }
}

} // verus!
