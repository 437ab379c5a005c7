//! Turning YouTube page data into tracks and collections.

use vstd::prelude::*;
use crate::error::{message, MusicFreeError};
use crate::text::parse_u64_spec;
use crate::model::{quality_index, tracks_of, Audio, AudioFormat, Platform, Playlist, Quality, TrackView};
use crate::select::{select_by_rank, selected_spec};
use crate::text::{starts_with};
use crate::urls::opt_view;
use crate::youtube::types::{
    Format, ItemContent, PlayerResponse, PlaylistContent, PlaylistVideoContent,
    PlaylistVideoRendererTitleRun, Run, SectionContent, Tab, Title, VideoElement, YtInitialData,
};
use crate::youtube::utils::{
    build_playlist_url, build_thumbnail_url, build_watch_url, is_video_id, parse_id, parse_id_spec,
    parse_playlist_id, playlist_id_in, is_valid_video_id,
};

verus! {

/// A video listed in a playlist.
#[derive(Debug, Clone)]
pub struct PlaylistVideoInfo {
    pub title: String,
    pub url: String,
    pub video_id: String,
    pub duration: Option<u64>,
}

/// The abstract content of a [`PlaylistVideoInfo`].
pub struct VideoEntry {
    pub title: Seq<char>,
    pub url: Seq<char>,
    pub video_id: Seq<char>,
    pub duration: Option<u64>,
}

impl View for PlaylistVideoInfo {
    type V = VideoEntry;

    open spec fn view(&self) -> VideoEntry {
        VideoEntry { title: self.title@, url: self.url@, video_id: self.video_id@, duration: self.duration }
    }
}

pub open spec fn entries_of(s: Seq<PlaylistVideoInfo>) -> Seq<VideoEntry> {
    s.map_values(|x: PlaylistVideoInfo| x@)
}

/// The concatenated text of title runs.
pub open spec fn runs_text(runs: Seq<Run>) -> Seq<char>
    decreases runs.len(),
{
    if runs.len() == 0 {
        Seq::empty()
    } else {
        runs_text(runs.drop_last()) + runs.last().text@
    }
}

pub open spec fn title_runs_text(runs: Seq<PlaylistVideoRendererTitleRun>) -> Seq<char>
    decreases runs.len(),
{
    if runs.len() == 0 {
        Seq::empty()
    } else {
        title_runs_text(runs.drop_last()) + runs.last().text@
    }
}

pub open spec fn title_text(t: Title) -> Seq<char> {
    match t {
        Title::SimpleText { simple_text } => simple_text@,
        Title::Runs { runs } => runs_text(runs@),
    }
}

/// The entry a watch-page panel video stands for.
pub open spec fn panel_entry(v: PlaylistVideoContent) -> VideoEntry {
    let r = v.playlist_panel_video_renderer;
    VideoEntry {
        title: title_text(r.title),
        url: r.navigation_endpoint.command_metadata.web_command_metadata.url@,
        video_id: r.navigation_endpoint.watch_endpoint.video_id@,
        duration: None,
    }
}

/// The videos of a watch-page panel, in order, skipping non-video entries.
pub open spec fn panel_entries(c: Seq<PlaylistContent>) -> Seq<VideoEntry>
    decreases c.len(),
{
    if c.len() == 0 {
        Seq::empty()
    } else {
        let rest = panel_entries(c.drop_last());
        match c.last() {
            PlaylistContent::Video(v) => rest.push(panel_entry(v)),
            PlaylistContent::Other(_) => rest,
        }
    }
}

/// The entry a playlist-page video stands for.
pub open spec fn browse_entry(e: VideoElement) -> VideoEntry {
    let r = e.playlist_video_renderer;
    VideoEntry {
        title: title_runs_text(r.title.runs@),
        url: "/watch?v="@ + r.video_id@,
        video_id: r.video_id@,
        duration: parse_u64_spec(r.length_seconds@),
    }
}

pub open spec fn list_entries(l: Seq<VideoElement>) -> Seq<VideoEntry>
    decreases l.len(),
{
    if l.len() == 0 {
        Seq::empty()
    } else {
        list_entries(l.drop_last()).push(browse_entry(l.last()))
    }
}

pub open spec fn item_entries(items: Seq<ItemContent>) -> Seq<VideoEntry>
    decreases items.len(),
{
    if items.len() == 0 {
        Seq::empty()
    } else {
        item_entries(items.drop_last()) + list_entries(items.last().playlist_video_list_renderer.contents@)
    }
}

/// The videos of a playlist page's sections, depth first, skipping sections without items.
pub open spec fn section_entries(sections: Seq<SectionContent>) -> Seq<VideoEntry>
    decreases sections.len(),
{
    if sections.len() == 0 {
        Seq::empty()
    } else {
        let rest = section_entries(sections.drop_last());
        match sections.last().item_section_renderer {
            Some(r) => rest + item_entries(r.contents@),
            None => rest,
        }
    }
}

/// The index of the first selected tab at or after `i`.
pub open spec fn first_selected_from(tabs: Seq<Tab>, i: int) -> Option<int>
    decreases tabs.len() - i,
{
    if i < 0 || i >= tabs.len() {
        None
    } else if tabs[i].tab_renderer.selected {
        Some(i)
    } else {
        first_selected_from(tabs, i + 1)
    }
}

/// The videos of a playlist as the page data lists them, or `None` when neither layout is present.
pub open spec fn playlist_entries(d: YtInitialData) -> Option<Seq<VideoEntry>> {
    match d.contents.two_column_watch_next_results {
        Some(w) => Some(panel_entries(w.playlist.playlist.contents@)),
        None => match d.contents.two_column_browse_results_renderer {
            Some(b) => Some(
                match first_selected_from(b.tabs@, 0) {
                    Some(k) => section_entries(b.tabs@[k].tab_renderer.content.section_list_renderer.contents@),
                    None => Seq::empty(),
                },
            ),
            None => None,
        },
    }
}

fn concat_runs(runs: &Vec<Run>) -> (r: String)
    ensures
        r@ == runs_text(runs@),
{
    let mut r = String::new();
    let mut i: usize = 0;
    while i < runs.len()
        invariant
            i <= runs.len(),
            r@ == runs_text(runs@.take(i as int)),
        decreases runs.len() - i,
    {
        r.append(runs[i].text.as_str());
        i = i + 1;
        assert(runs@.take(i as int).drop_last() =~= runs@.take(i - 1));
    }
    assert(runs@.take(i as int) =~= runs@);
    r
}

fn concat_title_runs(runs: &Vec<PlaylistVideoRendererTitleRun>) -> (r: String)
    ensures
        r@ == title_runs_text(runs@),
{
    let mut r = String::new();
    let mut i: usize = 0;
    while i < runs.len()
        invariant
            i <= runs.len(),
            r@ == title_runs_text(runs@.take(i as int)),
        decreases runs.len() - i,
    {
        r.append(runs[i].text.as_str());
        i = i + 1;
        assert(runs@.take(i as int).drop_last() =~= runs@.take(i - 1));
    }
    assert(runs@.take(i as int) =~= runs@);
    r
}

fn title_string(t: &Title) -> (r: String)
    ensures
        r@ == title_text(*t),
{
    match t {
        Title::SimpleText { simple_text } => simple_text.clone(),
        Title::Runs { runs } => concat_runs(runs),
    }
}

fn panel_info(v: &PlaylistVideoContent) -> (r: PlaylistVideoInfo)
    ensures
        r@ == panel_entry(*v),
{
    let renderer = &v.playlist_panel_video_renderer;
    PlaylistVideoInfo {
        title: title_string(&renderer.title),
        url: renderer.navigation_endpoint.command_metadata.web_command_metadata.url.clone(),
        video_id: renderer.navigation_endpoint.watch_endpoint.video_id.clone(),
        duration: None,
    }
}

fn element_info(e: &VideoElement) -> (r: PlaylistVideoInfo)
    ensures
        r@ == browse_entry(*e),
{
    let renderer = &e.playlist_video_renderer;
    PlaylistVideoInfo {
        title: concat_title_runs(&renderer.title.runs),
        url: crate::error::message("/watch?v=", renderer.video_id.as_str()),
        video_id: renderer.video_id.clone(),
        duration: crate::text::parse_u64(renderer.length_seconds.as_str()),
    }
}

proof fn lemma_entries_push(s: Seq<PlaylistVideoInfo>, x: PlaylistVideoInfo)
    ensures
        entries_of(s.push(x)) == entries_of(s).push(x@),
{
    assert(entries_of(s.push(x)) =~= entries_of(s).push(x@));
}

fn push_list(out: &mut Vec<PlaylistVideoInfo>, l: &Vec<VideoElement>)
    ensures
        entries_of(final(out)@) == entries_of(old(out)@) + list_entries(l@),
{
    let ghost start = entries_of(out@);
    let mut i: usize = 0;
    while i < l.len()
        invariant
            i <= l.len(),
            entries_of(out@) == start + list_entries(l@.take(i as int)),
        decreases l.len() - i,
    {
        let info = element_info(&l[i]);
        proof { lemma_entries_push(out@, info); }
        out.push(info);
        i = i + 1;
        assert(l@.take(i as int).drop_last() =~= l@.take(i - 1));
        assert(entries_of(out@) =~= start + list_entries(l@.take(i as int)));
    }
    assert(l@.take(i as int) =~= l@);
}

fn push_items(out: &mut Vec<PlaylistVideoInfo>, items: &Vec<ItemContent>)
    ensures
        entries_of(final(out)@) == entries_of(old(out)@) + item_entries(items@),
{
    let ghost start = entries_of(out@);
    let mut i: usize = 0;
    while i < items.len()
        invariant
            i <= items.len(),
            entries_of(out@) == start + item_entries(items@.take(i as int)),
        decreases items.len() - i,
    {
        push_list(out, &items[i].playlist_video_list_renderer.contents);
        i = i + 1;
        assert(items@.take(i as int).drop_last() =~= items@.take(i - 1));
        assert(entries_of(out@) =~= start + item_entries(items@.take(i as int)));
    }
    assert(items@.take(i as int) =~= items@);
}

fn push_sections(out: &mut Vec<PlaylistVideoInfo>, sections: &Vec<SectionContent>)
    ensures
        entries_of(final(out)@) == entries_of(old(out)@) + section_entries(sections@),
{
    let ghost start = entries_of(out@);
    let mut i: usize = 0;
    while i < sections.len()
        invariant
            i <= sections.len(),
            entries_of(out@) == start + section_entries(sections@.take(i as int)),
        decreases sections.len() - i,
    {
        if let Some(r) = &sections[i].item_section_renderer {
            push_items(out, &r.contents);
        }
        i = i + 1;
        assert(sections@.take(i as int).drop_last() =~= sections@.take(i - 1));
        assert(entries_of(out@) =~= start + section_entries(sections@.take(i as int)));
    }
    assert(sections@.take(i as int) =~= sections@);
}

fn first_selected(tabs: &Vec<Tab>) -> (r: Option<usize>)
    ensures
        match r {
            Some(k) => k < tabs.len() && first_selected_from(tabs@, 0) == Some(k as int),
            None => first_selected_from(tabs@, 0) is None,
        },
{
    let mut i: usize = 0;
    while i < tabs.len()
        invariant
            i <= tabs.len(),
            first_selected_from(tabs@, 0) == first_selected_from(tabs@, i as int),
        decreases tabs.len() - i,
    {
        if tabs[i].tab_renderer.selected {
            return Some(i);
        }
        i = i + 1;
    }
    None
}

/// Lists the videos of a playlist from page data: the watch-page panel when present,
/// else the selected tab of a playlist page.
pub fn extract_playlist_videos(yt_data: &YtInitialData) -> (r: Result<Vec<PlaylistVideoInfo>, MusicFreeError>)
    ensures
        match playlist_entries(*yt_data) {
            Some(e) => r matches Ok(v) && entries_of(v@) == e,
            None => r matches Err(MusicFreeError::ConfigParseError(m))
                && m@ == "No valid playlist format found in ytInitialData"@,
        },
{
    if let Some(watch_next) = &yt_data.contents.two_column_watch_next_results {
        let contents = &watch_next.playlist.playlist.contents;
        let mut result: Vec<PlaylistVideoInfo> = Vec::new();
        let mut i: usize = 0;
        while i < contents.len()
            invariant
                i <= contents.len(),
                entries_of(result@) == panel_entries(contents@.take(i as int)),
            decreases contents.len() - i,
        {
            if let PlaylistContent::Video(video_content) = &contents[i] {
                let info = panel_info(video_content);
                proof { lemma_entries_push(result@, info); }
                result.push(info);
            }
            i = i + 1;
            assert(contents@.take(i as int).drop_last() =~= contents@.take(i - 1));
        }
        assert(contents@.take(i as int) =~= contents@);
        return Ok(result);
    }
    if let Some(browse_results) = &yt_data.contents.two_column_browse_results_renderer {
        let mut result: Vec<PlaylistVideoInfo> = Vec::new();
        if let Some(k) = first_selected(&browse_results.tabs) {
            push_sections(&mut result, &browse_results.tabs[k].tab_renderer.content.section_list_renderer.contents);
            assert(entries_of(result@) =~= section_entries(
                browse_results.tabs@[k as int].tab_renderer.content.section_list_renderer.contents@));
        } else {
            assert(entries_of(result@) =~= Seq::<VideoEntry>::empty());
        }
        return Ok(result);
    }
    Err(MusicFreeError::ConfigParseError(String::from_str("No valid playlist format found in ytInitialData")))
}

/// The title a playlist page announces, if any.
pub open spec fn playlist_title_spec(d: YtInitialData) -> Seq<char> {
    if d.header matches Some(h) && h.page_header_renderer is Some {
        d.header->Some_0.page_header_renderer->Some_0.page_title@
    } else if d.contents.two_column_watch_next_results matches Some(w)
        && w.playlist.playlist.title is Some {
        d.contents.two_column_watch_next_results->Some_0.playlist.playlist.title->Some_0@
    } else {
        "YouTube Playlist"@
    }
}

/// The playlist title: the page header, else the watch-page panel title, else a fixed default.
pub fn extract_playlist_title(yt_data: &YtInitialData) -> (r: Result<String, MusicFreeError>)
    ensures
        r matches Ok(t) && t@ == playlist_title_spec(*yt_data),
{
    if let Some(header) = &yt_data.header {
        if let Some(page_header) = &header.page_header_renderer {
            return Ok(page_header.page_title.clone());
        }
    }
    if let Some(watch_next) = &yt_data.contents.two_column_watch_next_results {
        if let Some(title) = &watch_next.playlist.playlist.title {
            return Ok(title.clone());
        }
    }
    Ok(String::from_str("YouTube Playlist"))
}

/// An audio encoding that can be fetched: an `audio/` mime type, and a URL or a cipher bundle.
pub open spec fn usable_audio(f: Format) -> bool {
    starts_with(f.mime_type@, "audio/"@) && (f.url is Some || f.signature_cipher is Some)
}

/// The audio encodings that can be fetched, in order.
pub open spec fn usable_formats(s: Seq<Format>) -> Seq<Format>
    decreases s.len(),
{
    if s.len() == 0 {
        Seq::empty()
    } else {
        let r = usable_formats(s.drop_last());
        if usable_audio(s.last()) { r.push(s.last()) } else { r }
    }
}

fn is_usable_audio(f: &Format) -> (r: bool)
    ensures
        r == usable_audio(*f),
{
    let mv = crate::text::chars_of(f.mime_type.as_str());
    let audio = crate::text::chars_of("audio/");
    crate::text::matches_at(&mv, &audio, 0) && (f.url.is_some() || f.signature_cipher.is_some())
}

pub open spec fn deref_formats(v: Seq<&Format>) -> Seq<Format> {
    v.map_values(|f: &Format| *f)
}

/// All fetchable audio encodings of a player answer, progressive list first, then adaptive.
pub fn extract_audio_formats_web(player_response: &PlayerResponse) -> (r: Result<Vec<&Format>, MusicFreeError>)
    ensures
        r matches Ok(v) && deref_formats(v@) == usable_formats(
            player_response.streaming_data.formats@ + player_response.streaming_data.adaptive_formats@),
{
    let formats = &player_response.streaming_data.formats;
    let adaptive = &player_response.streaming_data.adaptive_formats;
    let ghost all = formats@ + adaptive@;
    let mut out: Vec<&Format> = Vec::new();
    let mut i: usize = 0;
    while i < formats.len()
        invariant
            i <= formats@.len(),
            all == formats@ + adaptive@,
            deref_formats(out@) == usable_formats(all.take(i as int)),
        decreases formats.len() - i,
    {
        let f = &formats[i];
        assert(*f == all[i as int]);
        assert(all.take(i + 1).drop_last() =~= all.take(i as int));
        if is_usable_audio(f) {
            let ghost prev = out@;
            out.push(f);
            assert(deref_formats(out@) =~= deref_formats(prev).push(*f));
        }
        i = i + 1;
    }
    let mut j: usize = 0;
    while j < adaptive.len()
        invariant
            j <= adaptive@.len(),
            all == formats@ + adaptive@,
            deref_formats(out@) == usable_formats(all.take(formats@.len() + j)),
        decreases adaptive.len() - j,
    {
        let f = &adaptive[j];
        assert(*f == all[formats@.len() + j]);
        assert(all.take(formats@.len() + j + 1).drop_last() =~= all.take(formats@.len() + j));
        if is_usable_audio(f) {
            let ghost prev = out@;
            out.push(f);
            assert(deref_formats(out@) =~= deref_formats(prev).push(*f));
        }
        j = j + 1;
    }
    assert(all.take(formats@.len() + j) =~= all);
    Ok(out)
}

/// The page to fetch for an input, and whether it is a playlist page.
pub open spec fn fetch_url_spec(url: Seq<char>) -> (Seq<char>, bool) {
    match playlist_id_in(url) {
        Some(p) => ("https://www.youtube.com/playlist?list="@ + p, true),
        None => if is_video_id(url) {
            ("https://www.youtube.com/watch?v="@ + url, false)
        } else {
            (url, false)
        },
    }
}

pub fn get_fetch_url(url: &str) -> (r: (String, bool))
    ensures
        (r.0@, r.1) == fetch_url_spec(url@),
{
    if let Some(playlist_id) = parse_playlist_id(url) {
        return (build_playlist_url(playlist_id.as_str()), true);
    }
    if is_valid_video_id(url) {
        return (build_watch_url(url), false);
    }
    (String::from_str(url), false)
}

/// The whole seconds of a millisecond count given as text, when it parses.
pub open spec fn seconds_of_ms(ms: Option<String>) -> Option<u64> {
    match ms {
        Some(m) => match parse_u64_spec(m@) {
            Some(v) => Some((v / 1000) as u64),
            None => None,
        },
        None => None,
    }
}

/// The track an encoding of a single video becomes.
pub open spec fn video_track(video_id: Seq<char>, title: Seq<char>, f: Format) -> TrackView {
    TrackView {
        id: video_id,
        title,
        download_url: "https://www.youtube.com/watch?v="@ + video_id,
        cover: Some("https://i.ytimg.com/vi/"@ + video_id + "/hq720.jpg"@),
        duration: seconds_of_ms(f.approx_duration_ms),
        format: Some(if starts_with(f.mime_type@, "audio/webm"@) { AudioFormat::Webm } else { AudioFormat::Mp4 }),
        platform: Platform::Youtube,
    }
}

/// The exact shape of a single video's collection.
pub open spec fn single_video_matches(r: (Playlist, Option<usize>), video_id: Seq<char>, pr: PlayerResponse) -> bool {
    let fs = usable_formats(pr.streaming_data.formats@ + pr.streaming_data.adaptive_formats@);
    let title = pr.video_details.title@;
    &&& tracks_of(r.0.audios@).len() == fs.len()
    &&& forall|i: int| 0 <= i < fs.len() ==> tracks_of(r.0.audios@)[i] == #[trigger] video_track(video_id, title, fs[i])
    &&& r.0.id is None
    &&& opt_view(r.0.title) == Some(title)
    &&& opt_view(r.0.cover) == Some("https://i.ytimg.com/vi/"@ + video_id + "/hq720.jpg"@)
    &&& opt_view(r.0.download_url) == (if fs.len() > 0 { Some("https://www.youtube.com/watch?v="@ + video_id) } else { None })
    &&& r.0.platform == Platform::Youtube
    &&& r.1 == (if fs.len() > 0 { Some(0usize) } else { None })
}

/// Builds the collection for a single video: one track per fetchable encoding, positioned at
/// the first when there is any.
pub fn single_video_playlist(video_id: &str, player_response: &PlayerResponse) -> (r: (Playlist, Option<usize>))
    ensures
        single_video_matches(r, video_id@, *player_response),
{
    let formats = match extract_audio_formats_web(player_response) {
        Ok(f) => f,
        Err(_) => Vec::new(),
    };
    let ghost fs = deref_formats(formats@);
    let title = &player_response.video_details.title;
    let mut audios: Vec<Audio> = Vec::new();
    let mut i: usize = 0;
    while i < formats.len()
        invariant
            i <= formats.len(),
            fs == deref_formats(formats@),
            tracks_of(audios@).len() == i,
            forall|k: int| 0 <= k < i ==> tracks_of(audios@)[k] == #[trigger] video_track(video_id@, title@, fs[k]),
        decreases formats.len() - i,
    {
        let f = formats[i];
        let mut audio = Audio::new(String::from_str(video_id), title.clone(), build_watch_url(video_id), Platform::Youtube)
            .with_format(AudioFormat::from_youtube(f.mime_type.as_str()))
            .with_cover(build_thumbnail_url(video_id));
        if let Some(ms) = &f.approx_duration_ms {
            if let Some(v) = crate::text::parse_u64(ms.as_str()) {
                audio.duration = Some(v / 1000);
            }
        }
        let ghost prev = audios@;
        audios.push(audio);
        assert(tracks_of(audios@) =~= tracks_of(prev).push(audio@));
        i = i + 1;
    }
    let download_url = if audios.len() > 0 {
        assert(tracks_of(audios@)[0] == audios@[0]@);
        assert(tracks_of(audios@)[0] == video_track(video_id@, title@, fs[0]));
        Some(audios[0].download_url.clone())
    } else {
        None
    };
    let n = audios.len();
    assert(fs.len() == formats@.len());
    assert(tracks_of(audios@).len() == audios@.len());
    let playlist = Playlist {
        id: None,
        download_url,
        title: Some(title.clone()),
        audios,
        cover: Some(build_thumbnail_url(video_id)),
        platform: Platform::Youtube,
    };
    let pos: Option<usize> = if n == 0 { None } else { Some(0) };
    (playlist, pos)
}

/// The track a playlist entry becomes.
pub open spec fn entry_track(e: VideoEntry) -> TrackView {
    TrackView {
        id: e.video_id,
        title: e.title,
        download_url: "https://www.youtube.com"@ + e.url,
        cover: Some("https://i.ytimg.com/vi/"@ + e.video_id + "/hq720.jpg"@),
        duration: e.duration,
        format: None,
        platform: Platform::Youtube,
    }
}

/// The last position whose video is `id`, among the first `n` entries.
pub open spec fn last_with_id(es: Seq<VideoEntry>, id: Option<Seq<char>>, n: int) -> Option<int>
    decreases n,
{
    if n <= 0 || n > es.len() {
        None
    } else if id == Some(es[n - 1].video_id) {
        Some(n - 1)
    } else {
        last_with_id(es, id, n - 1)
    }
}

/// Builds a playlist's collection from page data; the position is the last entry showing the
/// video the URL names, if any.
pub fn extract_playlist_audio(url: &str, yt_data: &YtInitialData) -> (r: Result<(Playlist, Option<usize>), MusicFreeError>)
    ensures
        match playlist_id_in(url@) {
            None => r matches Err(MusicFreeError::InvalidUrl(msg)) && msg@ == "Cannot extract playlist ID"@,
            Some(pid) => match playlist_entries(*yt_data) {
                None => r matches Err(MusicFreeError::ConfigParseError(m))
                    && m@ == "No valid playlist format found in ytInitialData"@,
                Some(es) => r matches Ok(out) && ({
            let pl = out.0;
            &&& tracks_of(pl.audios@).len() == es.len()
            &&& forall|i: int| 0 <= i < es.len() ==> tracks_of(pl.audios@)[i] == #[trigger] entry_track(es[i])
            &&& opt_view(pl.id) == Some(pid)
            &&& opt_view(pl.download_url) == Some("https://www.youtube.com/playlist?list="@ + pid)
            &&& opt_view(pl.title) == Some(playlist_title_spec(*yt_data))
            &&& opt_view(pl.cover) == (if es.len() > 0 { Some("https://i.ytimg.com/vi/"@ + es[0].video_id + "/hq720.jpg"@) } else { None })
            &&& pl.platform == Platform::Youtube
            &&& match out.1 {
                Some(k) => last_with_id(es, parse_id_spec(url@), es.len() as int) == Some(k as int),
                None => last_with_id(es, parse_id_spec(url@), es.len() as int) is None,
            }
        }),
            },
        },
{
    let playlist_id = match parse_playlist_id(url) {
        Some(p) => p,
        None => return Err(MusicFreeError::InvalidUrl(String::from_str("Cannot extract playlist ID"))),
    };
    let requested = match parse_id(url) {
        Ok(id) => Some(id),
        Err(_) => None,
    };
    let ghost req = parse_id_spec(url@);
    let videos = match extract_playlist_videos(yt_data) {
        Ok(v) => v,
        Err(e) => return Err(e),
    };
    let playlist_title = match extract_playlist_title(yt_data) {
        Ok(t) => t,
        Err(e) => return Err(e),
    };
    let ghost es = entries_of(videos@);
    let mut audios: Vec<Audio> = Vec::new();
    let mut position: Option<usize> = None;
    let mut i: usize = 0;
    while i < videos.len()
        invariant
            i <= videos.len(),
            es == entries_of(videos@),
            opt_view(requested) == req,
            tracks_of(audios@).len() == i,
            forall|k: int| 0 <= k < i ==> tracks_of(audios@)[k] == #[trigger] entry_track(es[k]),
            match position {
                Some(k) => last_with_id(es, req, i as int) == Some(k as int),
                None => last_with_id(es, req, i as int) is None,
            },
        decreases videos.len() - i,
    {
        let video = &videos[i];
        assert(es[i as int] == video@);
        if let Some(req_id) = &requested {
            if video.video_id == *req_id {
                position = Some(i);
            }
        }
        let mut audio = Audio::new(video.video_id.clone(), video.title.clone(),
            message("https://www.youtube.com", video.url.as_str()), Platform::Youtube)
            .with_cover(build_thumbnail_url(video.video_id.as_str()));
        audio.duration = video.duration;
        let ghost prev = audios@;
        audios.push(audio);
        assert(tracks_of(audios@) =~= tracks_of(prev).push(audio@));
        i = i + 1;
    }
    let cover = if audios.len() > 0 {
        assert(tracks_of(audios@)[0] == audios@[0]@);
        assert(tracks_of(audios@)[0] == entry_track(es[0]));
        match &audios[0].cover {
            Some(c) => Some(c.clone()),
            None => None,
        }
    } else {
        None
    };
    let n = audios.len();
    let playlist = Playlist {
        id: Some(playlist_id.clone()),
        download_url: Some(build_playlist_url(playlist_id.as_str())),
        title: Some(playlist_title),
        audios,
        cover,
        platform: Platform::Youtube,
    };
    let final_position = if n > 0 && position.is_some() { position } else { None };
    proof {
        if n == 0 {
            assert(last_with_id(es, req, 0) is None);
        }
    }
    Ok((playlist, final_position))
}

/// The selection keys that order encodings by ascending bitrate, unknown bitrates lowest.
pub open spec fn ascending_bitrate_keys(s: Seq<Format>) -> Seq<i128> {
    s.map_values(|f: Format| match f.bitrate { Some(b) => b as i128, None => 0i128 })
}

/// The encoding a tier selects: its index among the encodings in stable ascending bitrate
/// order, the highest when the index is past the end.
pub open spec fn pick_spec(s: Seq<Format>, q: Quality) -> Option<int> {
    selected_spec(ascending_bitrate_keys(s), quality_index(q))
}

pub fn pick_format(formats: &Vec<&Format>, quality: Quality) -> (r: Option<usize>)
    ensures
        match pick_spec(deref_formats(formats@), quality) {
            Some(k) => r == Some(k as usize) && 0 <= k < formats@.len(),
            None => r is None,
        },
{
    let ghost s = deref_formats(formats@);
    let mut keys: Vec<i128> = Vec::new();
    let mut k: usize = 0;
    while k < formats.len()
        invariant
            k <= formats.len(),
            s == deref_formats(formats@),
            keys@ == ascending_bitrate_keys(s).take(k as int),
        decreases formats.len() - k,
    {
        assert(s[k as int] == *formats@[k as int]);
        let key: i128 = match formats[k].bitrate {
            Some(b) => b as i128,
            None => 0,
        };
        keys.push(key);
        k = k + 1;
        assert(keys@ =~= ascending_bitrate_keys(s).take(k as int));
    }
    assert(keys@ =~= ascending_bitrate_keys(s));
    select_by_rank(&keys, quality.index())
}

/// Whether the client API reported the video playable: no status at all, or status `OK`.
pub fn check_playability(status: Option<(Option<String>, Option<String>)>) -> (r: Result<(), MusicFreeError>)
    ensures
        match status {
            None => r is Ok,
            Some(st) => if opt_view(st.0) == Some("OK"@) {
                r is Ok
            } else {
                r matches Err(MusicFreeError::YoutubeError(m)) && m@ == "Video unavailable: "@ + match st.1 {
                    Some(reason) => reason@,
                    None => "Unknown error"@,
                }
            },
        },
{
    match status {
        None => Ok(()),
        Some((code, reason)) => {
            let ok = match &code {
                Some(c) => *c == String::from_str("OK"),
                None => false,
            };
            if ok {
                Ok(())
            } else {
                let why = match reason {
                    Some(x) => x,
                    None => String::from_str("Unknown error"),
                };
                Err(MusicFreeError::YoutubeError(message("Video unavailable: ", why.as_str())))
            }
        },
    }
}

/// The selection key that orders encodings by descending bitrate, unknown bitrates last.
pub open spec fn bitrate_key(b: Option<u64>) -> i128 {
    match b {
        Some(x) => (-(x as int)) as i128,
        None => 1,
    }
}

/// An adaptive encoding the client API offers directly: audio with a plain URL.
pub open spec fn direct_audio(f: Format) -> bool {
    starts_with(f.mime_type@, "audio/"@) && f.url is Some
}

/// The directly fetchable audio encodings, in order.
pub open spec fn direct_audio_formats(s: Seq<Format>) -> Seq<Format>
    decreases s.len(),
{
    if s.len() == 0 {
        Seq::empty()
    } else {
        let r = direct_audio_formats(s.drop_last());
        if direct_audio(s.last()) { r.push(s.last()) } else { r }
    }
}

pub open spec fn as_audio_format(f: Format) -> (i64, Seq<char>, Option<i64>, Option<Seq<char>>, Option<Seq<char>>, Seq<char>) {
    (
        if f.itag <= i64::MAX as u64 { f.itag as i64 } else { 0 },
        f.mime_type@,
        match f.bitrate { Some(b) => if b <= i64::MAX as u64 { Some(b as i64) } else { None }, None => None },
        opt_view(f.content_length),
        opt_view(f.audio_quality),
        f.url->Some_0@,
    )
}

pub open spec fn audio_format_view(a: crate::youtube::AudioFormat) -> (i64, Seq<char>, Option<i64>, Option<Seq<char>>, Option<Seq<char>>, Seq<char>) {
    (a.itag, a.mime_type@, a.bitrate, opt_view(a.content_length), opt_view(a.audio_quality), a.url@)
}

pub open spec fn selection_keys(s: Seq<Format>) -> Seq<i128> {
    s.map_values(|f: Format| bitrate_key(f.bitrate))
}

/// The audio encodings the client API offers with plain URLs, highest bitrate first (ties in
/// list order); no such encoding is an error.
pub fn extract_audio_formats_android(adaptive: &Vec<Format>) -> (r: Result<Vec<crate::youtube::AudioFormat>, MusicFreeError>)
    ensures
        ({
            let d = direct_audio_formats(adaptive@);
            let o = crate::select::order_of(selection_keys(d), d.len() as int);
            &&& d.len() == 0 ==> (r matches Err(e) && e is AudioNotFound)
            &&& d.len() > 0 ==> (r matches Ok(v) && v@.len() == d.len()
                && forall|i: int| 0 <= i < d.len() ==> audio_format_view(#[trigger] v@[i]) == as_audio_format(d[o[i]]))
        }),
{
    let mut direct: Vec<&Format> = Vec::new();
    let mut i: usize = 0;
    let audio = crate::text::chars_of("audio/");
    while i < adaptive.len()
        invariant
            i <= adaptive.len(),
            audio@ == "audio/"@,
            deref_formats(direct@) == direct_audio_formats(adaptive@.take(i as int)),
            forall|a: int| 0 <= a < direct@.len() ==> direct_audio(*#[trigger] direct@[a]),
        decreases adaptive.len() - i,
    {
        let f = &adaptive[i];
        assert(adaptive@.take(i + 1).drop_last() =~= adaptive@.take(i as int));
        let mv = crate::text::chars_of(f.mime_type.as_str());
        assert(mv@ == f.mime_type@);
        if crate::text::matches_at(&mv, &audio, 0) && f.url.is_some() {
            let ghost prev = direct@;
            direct.push(f);
            assert(deref_formats(direct@) =~= deref_formats(prev).push(*f));
        }
        i = i + 1;
    }
    assert(adaptive@.take(i as int) =~= adaptive@);
    let ghost d = deref_formats(direct@);
    assert forall|a: int| 0 <= a < d.len() implies direct_audio(#[trigger] d[a]) by {
        assert(d[a] == *direct@[a]);
    }
    if direct.len() == 0 {
        return Err(MusicFreeError::AudioNotFound);
    }
    let mut keys: Vec<i128> = Vec::new();
    let mut k: usize = 0;
    while k < direct.len()
        invariant
            k <= direct.len(),
            d == deref_formats(direct@),
            keys@ == selection_keys(d).take(k as int),
        decreases direct.len() - k,
    {
        let key: i128 = match direct[k].bitrate {
            Some(x) => -(x as i128),
            None => 1,
        };
        keys.push(key);
        k = k + 1;
        assert(keys@ =~= selection_keys(d).take(k as int));
    }
    assert(keys@ =~= selection_keys(d));
    let order = crate::select::stable_order(&keys);
    proof { crate::select::lemma_order_of(keys@, keys@.len() as int); }
    let ghost o = crate::select::order_of(selection_keys(d), d.len() as int);
    let mut out: Vec<crate::youtube::AudioFormat> = Vec::new();
    let mut j: usize = 0;
    while j < order.len()
        invariant
            j <= order.len(),
            order@.len() == d.len(),
            d == deref_formats(direct@),
            crate::select::as_ints(order@) == o,
            forall|a: int| 0 <= a < d.len() ==> 0 <= #[trigger] o[a] < d.len(),
            forall|a: int| 0 <= a < d.len() ==> direct_audio(#[trigger] d[a]),
            out@.len() == j,
            forall|a: int| 0 <= a < j ==> audio_format_view(#[trigger] out@[a]) == as_audio_format(d[o[a]]),
        decreases order.len() - j,
    {
        assert(crate::select::as_ints(order@)[j as int] == order@[j as int] as int);
        let f = direct[order[j]];
        let itag: i64 = if f.itag <= i64::MAX as u64 { f.itag as i64 } else { 0 };
        let bitrate: Option<i64> = match f.bitrate {
            Some(b) => if b <= i64::MAX as u64 { Some(b as i64) } else { None },
            None => None,
        };
        let url = match &f.url {
            Some(u) => u.clone(),
            None => String::new(),
        };
        out.push(crate::youtube::AudioFormat {
            itag,
            mime_type: f.mime_type.clone(),
            bitrate,
            content_length: f.content_length.clone(),
            audio_quality: f.audio_quality.clone(),
            url,
        });
        j = j + 1;
    }
    Ok(out)
}

} // verus!

verus! {

/// The headers a watch-page request carries: a desktop user agent and the consent cookies that
/// keep the page free of interstitials.
pub fn watch_page_headers() -> (r: Vec<(String, String)>)
    ensures
        crate::urls::pairs_view(r@) == seq![
            ("user-agent"@, crate::youtube::utils::WEB_USER_AGENT@),
            ("cookie"@, "CONSENT=YES+cb; SOCS=CAI"@),
        ],
{
    let mut r: Vec<(String, String)> = Vec::new();
    r.push((String::from_str("user-agent"), String::from_str(crate::youtube::utils::WEB_USER_AGENT)));
    r.push((String::from_str("cookie"), String::from_str("CONSENT=YES+cb; SOCS=CAI")));
    assert(crate::urls::pairs_view(r@) =~= seq![
        ("user-agent"@, crate::youtube::utils::WEB_USER_AGENT@),
        ("cookie"@, "CONSENT=YES+cb; SOCS=CAI"@),
    ]);
    r
}

/// The headers a stream download carries: the user agent of the persona that obtained the URL,
/// and an open range.
pub fn media_headers(is_web: bool) -> (r: Vec<(String, String)>)
    ensures
        crate::urls::pairs_view(r@) == seq![
            ("user-agent"@, if is_web { crate::youtube::utils::WEB_USER_AGENT@ } else { crate::youtube::utils::ANDROID_USER_AGENT@ }),
            ("range"@, "bytes=0-"@),
        ],
{
    let ua = if is_web { crate::youtube::utils::WEB_USER_AGENT } else { crate::youtube::utils::ANDROID_USER_AGENT };
    let mut r: Vec<(String, String)> = Vec::new();
    r.push((String::from_str("user-agent"), String::from_str(ua)));
    r.push((String::from_str("range"), String::from_str("bytes=0-")));
    assert(crate::urls::pairs_view(r@) =~= seq![("user-agent"@, ua@), ("range"@, "bytes=0-"@)]);
    r
}

} // verus!
