//! The platform-neutral model: platforms, formats, tracks and collections.

use vstd::prelude::*;

verus! {

/// The platforms the library can resolve, in the order extractors are consulted.
#[derive(Debug, Clone, Copy, PartialEq, Eq, Hash)]
pub enum Platform {
    Bilibili,
    Youtube,
    File,
}

impl Platform {
    /// Every platform, in registry order.
    pub fn all() -> (r: Vec<Platform>)
        ensures
            r@ == seq![Platform::Bilibili, Platform::Youtube, Platform::File],
    {
        vec![Platform::Bilibili, Platform::Youtube, Platform::File]
    }
}

/// The container formats a track may be declared with.
#[derive(Debug, Clone, Copy, PartialEq, Eq, Hash)]
pub enum AudioFormat {
    Mp3,
    M4A,
    Flac,
    Wav,
    AAC,
    Ogg,
    Mp4,
    Webm,
}

/// The file extension of a format, with its leading dot.
pub open spec fn extension_of(f: AudioFormat) -> Seq<char> {
    match f {
        AudioFormat::Mp3 => ".mp3"@,
        AudioFormat::M4A => ".m4a"@,
        AudioFormat::Flac => ".flac"@,
        AudioFormat::Wav => ".wav"@,
        AudioFormat::AAC => ".aac"@,
        AudioFormat::Ogg => ".ogg"@,
        AudioFormat::Mp4 => ".mp4"@,
        AudioFormat::Webm => ".webm"@,
    }
}

/// The name a format is shown under.
pub open spec fn format_name(f: AudioFormat) -> Seq<char> {
    match f {
        AudioFormat::Mp3 => "Mp3"@,
        AudioFormat::M4A => "M4A"@,
        AudioFormat::Flac => "Flac"@,
        AudioFormat::Wav => "Wav"@,
        AudioFormat::AAC => "AAC"@,
        AudioFormat::Ogg => "Ogg"@,
        AudioFormat::Mp4 => "Mp4"@,
        AudioFormat::Webm => "Webm"@,
    }
}

impl AudioFormat {
    /// Every format, in declaration order.
    pub fn all() -> (r: Vec<AudioFormat>)
        ensures
            r@ == seq![AudioFormat::Mp3, AudioFormat::M4A, AudioFormat::Flac, AudioFormat::Wav,
                AudioFormat::AAC, AudioFormat::Ogg, AudioFormat::Mp4, AudioFormat::Webm],
    {
        vec![AudioFormat::Mp3, AudioFormat::M4A, AudioFormat::Flac, AudioFormat::Wav,
            AudioFormat::AAC, AudioFormat::Ogg, AudioFormat::Mp4, AudioFormat::Webm]
    }

    pub fn extension(&self) -> (r: &'static str)
        ensures
            r@ == extension_of(*self),
    {
        match self {
            AudioFormat::Mp3 => ".mp3",
            AudioFormat::M4A => ".m4a",
            AudioFormat::Flac => ".flac",
            AudioFormat::Wav => ".wav",
            AudioFormat::AAC => ".aac",
            AudioFormat::Ogg => ".ogg",
            AudioFormat::Mp4 => ".mp4",
            AudioFormat::Webm => ".webm",
        }
    }

    pub fn name(&self) -> (r: &'static str)
        ensures
            r@ == format_name(*self),
    {
        match self {
            AudioFormat::Mp3 => "Mp3",
            AudioFormat::M4A => "M4A",
            AudioFormat::Flac => "Flac",
            AudioFormat::Wav => "Wav",
            AudioFormat::AAC => "AAC",
            AudioFormat::Ogg => "Ogg",
            AudioFormat::Mp4 => "Mp4",
            AudioFormat::Webm => "Webm",
        }
    }

    /// The container of a stream from its mime type: WebM for `audio/webm...`, MP4 otherwise.
    pub fn from_youtube(s: &str) -> (r: AudioFormat)
        ensures
            r == (if crate::text::starts_with(s@, "audio/webm"@) { AudioFormat::Webm } else { AudioFormat::Mp4 }),
    {
        let v = crate::text::chars_of(s);
        let p = crate::text::chars_of("audio/webm");
        if crate::text::matches_at(&v, &p, 0) {
            AudioFormat::Webm
        } else {
            AudioFormat::Mp4
        }
    }
}

/// A resolved track: identity, display data and where to fetch it.
#[derive(Debug, Clone)]
pub struct Audio {
    pub id: String,
    pub title: String,
    pub download_url: String,
    pub cover: Option<String>,
    pub duration: Option<u64>,
    pub format: Option<AudioFormat>,
    pub platform: Platform,
}

/// The abstract content of an [`Audio`].
pub struct TrackView {
    pub id: Seq<char>,
    pub title: Seq<char>,
    pub download_url: Seq<char>,
    pub cover: Option<Seq<char>>,
    pub duration: Option<u64>,
    pub format: Option<AudioFormat>,
    pub platform: Platform,
}

impl View for Audio {
    type V = TrackView;

    open spec fn view(&self) -> TrackView {
        TrackView {
            id: self.id@,
            title: self.title@,
            download_url: self.download_url@,
            cover: crate::urls::opt_view(self.cover),
            duration: self.duration,
            format: self.format,
            platform: self.platform,
        }
    }
}

pub open spec fn tracks_of(s: Seq<Audio>) -> Seq<TrackView> {
    s.map_values(|a: Audio| a@)
}

impl Audio {
    /// A track with no cover, duration or format yet.
    pub fn new(id: String, title: String, download_url: String, platform: Platform) -> (r: Audio)
        ensures
            r == (Audio { id, title, download_url, cover: None, duration: None, format: None, platform }),
    {
        Audio { id, title, download_url, cover: None, duration: None, format: None, platform }
    }

    pub fn with_format(self, format: AudioFormat) -> (r: Audio)
        ensures
            r == (Audio { format: Some(format), ..self }),
    {
        let mut a = self;
        a.format = Some(format);
        a
    }

    pub fn with_cover(self, cover: String) -> (r: Audio)
        ensures
            r == (Audio { cover: Some(cover), ..self }),
    {
        let mut a = self;
        a.cover = Some(cover);
        a
    }

    /// Sets the duration in seconds.
    pub fn with_duration(self, duration: u64) -> (r: Audio)
        ensures
            r == (Audio { duration: Some(duration), ..self }),
    {
        let mut a = self;
        a.duration = Some(duration);
        a
    }
}

/// An ordered collection of tracks; order is the platform's playback order.
#[derive(Debug, Clone)]
pub struct Playlist {
    pub id: Option<String>,
    pub download_url: Option<String>,
    pub title: Option<String>,
    pub audios: Vec<Audio>,
    pub cover: Option<String>,
    pub platform: Platform,
}

impl Playlist {
    /// An empty collection with a title.
    pub fn new(title: String, platform: Platform) -> (r: Playlist)
        ensures
            r.id is None,
            r.download_url is None,
            r.title == Some(title),
            r.audios@.len() == 0,
            r.cover is None,
            r.platform == platform,
    {
        Playlist { id: None, download_url: None, title: Some(title), audios: Vec::new(), cover: None, platform }
    }
}

/// Requested quality tier, an index into the candidates sorted by ascending bitrate.
#[derive(Debug, Clone, Copy, PartialEq, Eq, Hash)]
pub enum Quality {
    Low,
    Standard,
    High,
    Super,
}

/// The candidate index a tier asks for.
pub open spec fn quality_index(q: Quality) -> nat {
    match q {
        Quality::Low => 0,
        Quality::Standard => 1,
        Quality::High => 2,
        Quality::Super => 3,
    }
}

impl Quality {
    pub fn index(&self) -> (r: usize)
        ensures
            r == quality_index(*self),
    {
        match self {
            Quality::Low => 0,
            Quality::Standard => 1,
            Quality::High => 2,
            Quality::Super => 3,
        }
    }
}

impl Default for Quality {
    /// The richest tier.
    fn default() -> (r: Quality)
        ensures
            r == Quality::Super,
    {
        Quality::Super
    }
}

} // verus!
