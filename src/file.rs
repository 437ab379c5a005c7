//! Direct links to audio files: the URL itself is the track.

use vstd::prelude::*;
use crate::model::{extension_of, tracks_of, Audio, AudioFormat, Platform, Playlist, TrackView};
use crate::text::{chars_of, ends_with, ends_with_exec, matches_at, starts_with, string_of};

verus! {

/// Treats `http`/`https` URLs that end in an audio extension as downloadable files.
#[derive(Debug, Clone, Copy)]
pub struct FileExtractor;

pub open spec fn is_http_url_spec(url: Seq<char>) -> bool {
    starts_with(url, "http://"@) || starts_with(url, "https://"@)
}

fn is_http_url(url: &str) -> (r: bool)
    ensures
        r == is_http_url_spec(url@),
{
    let v = chars_of(url);
    let a = chars_of("http://");
    let b = chars_of("https://");
    matches_at(&v, &a, 0) || matches_at(&v, &b, 0)
}

/// The formats in the order they are tried.
pub open spec fn all_formats() -> Seq<AudioFormat> {
    seq![AudioFormat::Mp3, AudioFormat::M4A, AudioFormat::Flac, AudioFormat::Wav,
        AudioFormat::AAC, AudioFormat::Ogg, AudioFormat::Mp4, AudioFormat::Webm]
}

/// The first format, in order from `i`, whose extension ends the URL.
pub open spec fn audio_format_from(url: Seq<char>, i: int) -> Option<AudioFormat>
    decreases 8 - i,
{
    if i < 0 || i >= 8 {
        None
    } else if ends_with(url, extension_of(all_formats()[i])) {
        Some(all_formats()[i])
    } else {
        audio_format_from(url, i + 1)
    }
}

fn is_audio(url: &str) -> (r: Option<AudioFormat>)
    ensures
        r == audio_format_from(url@, 0),
{
    let v = chars_of(url);
    let formats = AudioFormat::all();
    let mut i: usize = 0;
    while i < formats.len()
        invariant
            formats@ == all_formats(),
            i <= 8,
            audio_format_from(url@, 0) == audio_format_from(url@, i as int),
            v@ == url@,
        decreases 8 - i,
    {
        let f = formats[i];
        if ends_with_exec(&v, f.extension()) {
            return Some(f);
        }
        i = i + 1;
    }
    None
}

/// `s` without its trailing `c` characters.
pub open spec fn trim_end_char(s: Seq<char>, c: char) -> Seq<char>
    decreases s.len(),
{
    if s.len() > 0 && s.last() == c { trim_end_char(s.drop_last(), c) } else { s }
}

/// The text after the last `/` (all of it when there is none).
pub open spec fn last_segment(s: Seq<char>) -> Seq<char>
    decreases s.len(),
{
    if s.len() == 0 {
        s
    } else if s.last() == '/' {
        Seq::empty()
    } else {
        last_segment(s.drop_last()).push(s.last())
    }
}

/// `s` with every occurrence of `p` removed, scanning left to right without overlaps.
pub open spec fn remove_all(s: Seq<char>, p: Seq<char>) -> Seq<char>
    decreases s.len(),
{
    if s.len() == 0 {
        s
    } else if p.len() > 0 && starts_with(s, p) {
        remove_all(s.skip(p.len() as int), p)
    } else {
        seq![s[0]] + remove_all(s.skip(1), p)
    }
}

fn remove_all_exec(v: &Vec<char>, p: &Vec<char>) -> (r: String)
    ensures
        r@ == remove_all(v@, p@),
{
    let mut out = String::new();
    let mut i: usize = 0;
    assert(v@.skip(0) =~= v@);
    assert(out@ + remove_all(v@, p@) =~= remove_all(v@, p@));
    while i < v.len()
        invariant
            i <= v.len(),
            out@ + remove_all(v@.skip(i as int), p@) == remove_all(v@, p@),
        decreases v.len() - i,
    {
        let ghost rest = v@.skip(i as int);
        if p.len() > 0 && matches_at(v, p, i) {
            assert(rest.subrange(0, p@.len() as int) =~= v@.subrange(i as int, i + p@.len()));
            assert(rest.skip(p@.len() as int) =~= v@.skip(i + p@.len()));
            i = i + p.len();
        } else {
            proof {
                if p@.len() > 0 && starts_with(rest, p@) {
                    assert(rest.subrange(0, p@.len() as int) =~= v@.subrange(i as int, i + p@.len()));
                }
            }
            assert(rest.skip(1) =~= v@.skip(i + 1));
            let ghost before = out@;
            crate::text::push_char(&mut out, v[i]);
            assert(out@ + remove_all(v@.skip(i + 1), p@) =~= before + remove_all(rest, p@));
            i = i + 1;
        }
    }
    assert(v@.skip(i as int) =~= Seq::<char>::empty());
    assert(out@ + remove_all(v@.skip(i as int), p@) =~= out@);
    out
}

/// The track a direct file link becomes.
pub open spec fn file_track(url: Seq<char>) -> TrackView {
    let fmt = match audio_format_from(url, 0) {
        Some(f) => f,
        None => AudioFormat::Mp3,
    };
    TrackView {
        id: crate::utils::md5_hex_of(url),
        title: remove_all(last_segment(trim_end_char(url, '/')), extension_of(fmt)),
        download_url: url,
        cover: None,
        duration: None,
        format: Some(fmt),
        platform: Platform::File,
    }
}

impl FileExtractor {
    /// Whether this extractor recognizes the input.
    pub fn matches(&self, url: &str) -> (r: bool)
        ensures
            r == (is_http_url_spec(url@) && audio_format_from(url@, 0) is Some),
    {
        is_http_url(url) && is_audio(url).is_some()
    }

    pub fn platform(&self) -> (r: Platform)
        ensures
            r == Platform::File,
    {
        Platform::File
    }

    /// The last path segment of a URL, ignoring trailing slashes.
    pub fn basename(url: &str) -> (r: String)
        ensures
            r@ == last_segment(trim_end_char(url@, '/')),
    {
        let v = chars_of(url);
        let mut end = v.len();
        assert(v@.subrange(0, v@.len() as int) =~= v@);
        while end > 0 && v[end - 1] == '/'
            invariant
                end <= v.len(),
                trim_end_char(v@, '/') == trim_end_char(v@.subrange(0, end as int), '/'),
            decreases end,
        {
            assert(v@.subrange(0, end as int).drop_last() =~= v@.subrange(0, end - 1));
            end = end - 1;
        }
        assert(v@.subrange(0, v@.len() as int) =~= v@);
        let ghost t = v@.subrange(0, end as int);
        assert(trim_end_char(t, '/') == t);
        let mut start = end;
        while start > 0 && v[start - 1] != '/'
            invariant
                start <= end <= v.len(),
                t == v@.subrange(0, end as int),
                last_segment(t) == last_segment(v@.subrange(0, start as int)) + v@.subrange(start as int, end as int),
            decreases start,
        {
            let ghost u = v@.subrange(0, start as int);
            assert(u.drop_last() =~= v@.subrange(0, start - 1));
            assert(v@.subrange(start - 1, end as int) =~= seq![u.last()] + v@.subrange(start as int, end as int));
            assert(last_segment(u) == last_segment(u.drop_last()).push(u.last()));
            assert(last_segment(u.drop_last()).push(u.last()) + v@.subrange(start as int, end as int)
                =~= last_segment(u.drop_last()) + v@.subrange(start - 1, end as int));
            start = start - 1;
        }
        assert(last_segment(v@.subrange(0, start as int)) =~= Seq::<char>::empty());
        assert(last_segment(t) =~= v@.subrange(start as int, end as int));
        string_of(&v, start, end)
    }

    /// The one-track collection for a direct link, positioned at that track.
    pub fn extract(&self, url: &str) -> (r: (Playlist, Option<usize>))
        ensures
            tracks_of(r.0.audios@) == seq![file_track(url@)],
            r.0.id is None,
            r.0.title is None,
            r.0.cover is None,
            r.0.download_url is None,
            r.0.platform == Platform::File,
            r.1 == Some(0usize),
    {
        let fmt = match is_audio(url) {
            Some(f) => f,
            None => AudioFormat::Mp3,
        };
        let id = crate::utils::get_md5(url);
        let base = FileExtractor::basename(url);
        let bv = chars_of(base.as_str());
        let ext = chars_of(fmt.extension());
        let title = remove_all_exec(&bv, &ext);
        let audio = Audio::new(id, title, String::from_str(url), Platform::File).with_format(fmt);
        let mut audios: Vec<Audio> = Vec::new();
        audios.push(audio);
        assert(tracks_of(audios@) =~= seq![file_track(url@)]);
        let playlist = Playlist { id: None, download_url: None, title: None, audios, cover: None, platform: Platform::File };
        (playlist, Some(0))
    }
}

} // verus!
