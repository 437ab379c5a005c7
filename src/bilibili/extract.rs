//! Turning Bilibili API answers into tracks, collections and stream URLs.

use vstd::prelude::*;
use crate::bilibili::types::{AudioInfo, Episode, EpisodePage, PlayData, Section, ViewResponse};
use crate::error::{message, MusicFreeError};
use crate::model::{quality_index, tracks_of, Audio, AudioFormat, Platform, Playlist, Quality, TrackView};
use crate::select::{select_by_rank, selected_spec};
use crate::text::{decimal, parse_usize_spec};
use crate::urls::{first_value, first_value_of, query_pairs, query_pairs_of};

verus! {

/// The abstract content of an [`AudioInfo`].
pub struct InfoEntry {
    pub cid: u64,
    pub title: Seq<char>,
    pub bvid: Seq<char>,
    pub cover: Seq<char>,
    pub duration: u64,
}

impl View for AudioInfo {
    type V = InfoEntry;

    open spec fn view(&self) -> InfoEntry {
        InfoEntry { cid: self.cid, title: self.title@, bvid: self.bvid@, cover: self.cover@, duration: self.duration }
    }
}

pub open spec fn infos_of(s: Seq<AudioInfo>) -> Seq<InfoEntry> {
    s.map_values(|x: AudioInfo| x@)
}

pub open spec fn page_entry(p: EpisodePage, bvid: Seq<char>, title: Seq<char>, cover: Seq<char>) -> InfoEntry {
    InfoEntry { cid: p.cid, title, bvid, cover, duration: p.duration }
}

/// An episode's pages, each titled by its part name and covered by the episode's picture.
pub open spec fn episode_pages(e: Episode, pages: Seq<EpisodePage>) -> Seq<InfoEntry>
    decreases pages.len(),
{
    if pages.len() == 0 {
        Seq::empty()
    } else {
        episode_pages(e, pages.drop_last()).push(page_entry(pages.last(), e.bvid@, pages.last().part@, e.arc.pic@))
    }
}

pub open spec fn episodes_entries(es: Seq<Episode>) -> Seq<InfoEntry>
    decreases es.len(),
{
    if es.len() == 0 {
        Seq::empty()
    } else {
        episodes_entries(es.drop_last()) + episode_pages(es.last(), es.last().pages@)
    }
}

/// A season flattened depth first: section, then episode, then page.
pub open spec fn sections_entries(ss: Seq<Section>) -> Seq<InfoEntry>
    decreases ss.len(),
{
    if ss.len() == 0 {
        Seq::empty()
    } else {
        sections_entries(ss.drop_last()) + episodes_entries(ss.last().episodes@)
    }
}

/// The pages of a plain upload, each titled by its part name.
pub open spec fn upload_pages(pages: Seq<EpisodePage>, bvid: Seq<char>, cover: Seq<char>) -> Seq<InfoEntry>
    decreases pages.len(),
{
    if pages.len() == 0 {
        Seq::empty()
    } else {
        upload_pages(pages.drop_last(), bvid, cover).push(page_entry(pages.last(), bvid, pages.last().part@, cover))
    }
}

/// The playable pages a view answer describes, in playback order: a season flattened, a single
/// page titled by the video, or a page list as declared.
pub open spec fn audio_infos(view: ViewResponse) -> Seq<InfoEntry> {
    let d = view.data;
    match d.ugc_season {
        Some(u) => sections_entries(u.sections@),
        None => if d.pages@.len() == 1 {
            seq![page_entry(d.pages@[0], d.bvid@, d.title@, d.pic@)]
        } else {
            upload_pages(d.pages@, d.bvid@, d.pic@)
        },
    }
}

proof fn lemma_infos_push(s: Seq<AudioInfo>, x: AudioInfo)
    ensures
        infos_of(s.push(x)) == infos_of(s).push(x@),
{
    assert(infos_of(s.push(x)) =~= infos_of(s).push(x@));
}

fn push_page(out: &mut Vec<AudioInfo>, p: &EpisodePage, bvid: &String, title: &String, cover: &String)
    ensures
        infos_of(final(out)@) == infos_of(old(out)@).push(page_entry(*p, bvid@, title@, cover@)),
{
    let info = AudioInfo { cid: p.cid, title: title.clone(), bvid: bvid.clone(), cover: cover.clone(), duration: p.duration };
    proof { lemma_infos_push(out@, info); }
    out.push(info);
}

fn push_episode(out: &mut Vec<AudioInfo>, e: &Episode)
    ensures
        infos_of(final(out)@) == infos_of(old(out)@) + episode_pages(*e, e.pages@),
{
    let ghost base = infos_of(out@);
    let mut i: usize = 0;
    while i < e.pages.len()
        invariant
            i <= e.pages.len(),
            infos_of(out@) == base + episode_pages(*e, e.pages@.take(i as int)),
        decreases e.pages.len() - i,
    {
        push_page(out, &e.pages[i], &e.bvid, &e.pages[i].part, &e.arc.pic);
        i = i + 1;
        assert(e.pages@.take(i as int).drop_last() =~= e.pages@.take(i - 1));
        assert(infos_of(out@) =~= base + episode_pages(*e, e.pages@.take(i as int)));
    }
    assert(e.pages@.take(i as int) =~= e.pages@);
}

fn push_sections(out: &mut Vec<AudioInfo>, ss: &Vec<Section>)
    ensures
        infos_of(final(out)@) == infos_of(old(out)@) + sections_entries(ss@),
{
    let ghost base = infos_of(out@);
    let mut i: usize = 0;
    while i < ss.len()
        invariant
            i <= ss.len(),
            infos_of(out@) == base + sections_entries(ss@.take(i as int)),
        decreases ss.len() - i,
    {
        let es = &ss[i].episodes;
        let ghost mid = infos_of(out@);
        let mut k: usize = 0;
        while k < es.len()
            invariant
                k <= es.len(),
                infos_of(out@) == mid + episodes_entries(es@.take(k as int)),
            decreases es.len() - k,
        {
            push_episode(out, &es[k]);
            k = k + 1;
            assert(es@.take(k as int).drop_last() =~= es@.take(k - 1));
            assert(infos_of(out@) =~= mid + episodes_entries(es@.take(k as int)));
        }
        assert(es@.take(k as int) =~= es@);
        i = i + 1;
        assert(ss@.take(i as int).drop_last() =~= ss@.take(i - 1));
        assert(infos_of(out@) =~= base + sections_entries(ss@.take(i as int)));
    }
    assert(ss@.take(i as int) =~= ss@);
}

/// Lists the playable pages of a view answer in playback order.
pub fn get_audio_info(view: &ViewResponse) -> (r: Vec<AudioInfo>)
    ensures
        infos_of(r@) == audio_infos(*view),
{
    let mut v: Vec<AudioInfo> = Vec::new();
    let d = &view.data;
    if let Some(ugc) = &d.ugc_season {
        push_sections(&mut v, &ugc.sections);
        assert(infos_of(v@) =~= audio_infos(*view));
    } else if d.pages.len() == 1 {
        push_page(&mut v, &d.pages[0], &d.bvid, &d.title, &d.pic);
        assert(infos_of(v@) =~= audio_infos(*view));
    } else {
        let mut i: usize = 0;
        while i < d.pages.len()
            invariant
                i <= d.pages.len(),
                infos_of(v@) == upload_pages(d.pages@.take(i as int), d.bvid@, d.pic@),
            decreases d.pages.len() - i,
        {
            push_page(&mut v, &d.pages[i], &d.bvid, &d.pages[i].part, &d.pic);
            i = i + 1;
            assert(d.pages@.take(i as int).drop_last() =~= d.pages@.take(i - 1));
        }
        assert(d.pages@.take(i as int) =~= d.pages@);
    }
    v
}

/// The page number a URL's `p` query parameter asks for.
pub open spec fn requested_page_spec(url: Seq<char>) -> Option<usize> {
    match query_pairs_of(url) {
        Some(p) => match first_value(p, "p"@) {
            Some(v) => parse_usize_spec(v),
            None => None,
        },
        None => None,
    }
}

/// Reads the 1-based page number from a URL's `p` query parameter.
pub fn requested_page(url: &str) -> (r: Option<usize>)
    ensures
        r == requested_page_spec(url@),
{
    match query_pairs(url) {
        None => None,
        Some(p) => match first_value_of(&p, "p") {
            None => None,
            Some(v) => match crate::text::parse_u64(v.as_str()) {
                None => None,
                Some(n) => if n <= usize::MAX as u64 { Some(n as usize) } else { None },
            },
        },
    }
}

/// The watch page of a video.
pub open spec fn video_url(bvid: Seq<char>) -> Seq<char> {
    "https://www.bilibili.com/video/"@ + bvid
}

/// The track a page becomes; with several pages its URL names the page.
pub open spec fn track_spec(info: InfoEntry, bvid: Seq<char>, index: int, has_p: bool) -> TrackView {
    TrackView {
        id: decimal(info.cid as nat),
        title: info.title,
        download_url: if has_p { video_url(bvid) + "?p="@ + decimal((index + 1) as nat) } else { video_url(bvid) },
        cover: Some(info.cover),
        duration: Some(info.duration),
        format: Some(AudioFormat::M4A),
        platform: Platform::Bilibili,
    }
}

/// The first position whose page belongs to `bvid`.
pub open spec fn first_with_bvid(infos: Seq<InfoEntry>, bvid: Seq<char>, i: int) -> Option<int>
    decreases infos.len() - i,
{
    if i < 0 || i >= infos.len() {
        None
    } else if infos[i].bvid == bvid {
        Some(i)
    } else {
        first_with_bvid(infos, bvid, i + 1)
    }
}

/// The position the caller's URL points at: the requested page when it exists, else the first
/// page of the requested video.
pub open spec fn position_spec(infos: Seq<InfoEntry>, bvid: Seq<char>, page: Option<usize>) -> Option<int> {
    if page matches Some(p) && 1 <= p <= infos.len() {
        Some(page->Some_0 - 1)
    } else {
        first_with_bvid(infos, bvid, 0)
    }
}

/// The exact shape of the collection built from a view answer.
pub open spec fn playlist_matches(pl: Playlist, view: ViewResponse, bvid: Seq<char>) -> bool {
    let infos = audio_infos(view);
    let has_p = infos.len() > 1;
    &&& tracks_of(pl.audios@).len() == infos.len()
    &&& forall|i: int| 0 <= i < infos.len() ==> tracks_of(pl.audios@)[i] == #[trigger] track_spec(infos[i], bvid, i, has_p)
    &&& pl.platform == Platform::Bilibili
    &&& crate::urls::opt_view(pl.title) == Some(match view.data.ugc_season { Some(u) => u.title@, None => view.data.title@ })
    &&& crate::urls::opt_view(pl.cover) == Some(match view.data.ugc_season { Some(u) => u.cover@, None => view.data.pic@ })
    &&& crate::urls::opt_view(pl.download_url) == Some(
        if infos.len() > 0 { track_spec(infos[0], bvid, 0, has_p).download_url } else { video_url(view.data.bvid@) })
    &&& crate::urls::opt_view(pl.id) == Some(match view.data.ugc_season {
        Some(u) => decimal(u.id as nat),
        None => match view.data.season_id { Some(s) => decimal(s as nat), None => view.data.bvid@ },
    })
}

fn track_for(info: &AudioInfo, bvid: &str, index: usize, has_p: bool) -> (a: Audio)
    requires
        index < usize::MAX,
    ensures
        a@ == track_spec(info@, bvid@, index as int, has_p),
{
    let base = message("https://www.bilibili.com/video/", bvid);
    let url = if has_p {
        let mut u = base.concat("?p=");
        crate::text::push_decimal(&mut u, (index + 1) as u64);
        u
    } else {
        base
    };
    let id = crate::text::decimal_string(info.cid);
    Audio::new(id, info.title.clone(), url, Platform::Bilibili)
        .with_format(AudioFormat::M4A)
        .with_duration(info.duration)
        .with_cover(info.cover.clone())
}

/// Builds the collection for a view answer and the position the caller's URL points at
/// (`page` is its 1-based `p` parameter); no position for an empty collection.
pub fn build_playlist(view: &ViewResponse, bvid: &str, page: Option<usize>) -> (r: (Playlist, Option<usize>))
    ensures
        playlist_matches(r.0, *view, bvid@),
        match r.1 {
            Some(k) => audio_infos(*view).len() > 0 && position_spec(audio_infos(*view), bvid@, page) == Some(k as int),
            None => audio_infos(*view).len() == 0 || position_spec(audio_infos(*view), bvid@, page) is None,
        },
{
    let infos = get_audio_info(view);
    let ghost iv = infos_of(infos@);
    let has_p = infos.len() > 1;
    let bvid_s = String::from_str(bvid);
    let mut audios: Vec<Audio> = Vec::new();
    let mut position: Option<usize> = None;
    let mut index: usize = 0;
    while index < infos.len()
        invariant
            index <= infos.len(),
            iv == infos_of(infos@),
            iv == audio_infos(*view),
            has_p == (iv.len() > 1),
            bvid_s@ == bvid@,
            tracks_of(audios@).len() == index,
            forall|i: int| 0 <= i < index ==> tracks_of(audios@)[i] == #[trigger] track_spec(iv[i], bvid@, i, has_p),
            match position {
                Some(k) => k < index && (if page matches Some(p) && 1 <= p <= index {
                    k == page->Some_0 - 1
                } else {
                    first_with_bvid(iv, bvid@, 0) == Some(k as int)
                }),
                None => !(page matches Some(p) && 1 <= p <= index)
                    && forall|j: int| 0 <= j < index ==> iv[j].bvid != bvid@,
            },
        decreases infos.len() - index,
    {
        let info = &infos[index];
        let ghost before = position;
        proof {
            if before is None {
                lemma_first_with_bvid(iv, bvid@, index as int);
            }
        }
        if page == Some(index + 1) || (infos[index].bvid == bvid_s && position.is_none()) {
            position = Some(index);
        }
        let a = track_for(info, bvid, index, has_p);
        let ghost prev = audios@;
        audios.push(a);
        assert(tracks_of(audios@) =~= tracks_of(prev).push(a@));
        index = index + 1;
    }
    let (title, cover) = match &view.data.ugc_season {
        Some(ugc) => (ugc.title.clone(), ugc.cover.clone()),
        None => (view.data.title.clone(), view.data.pic.clone()),
    };
    let download_url = if audios.len() > 0 {
        assert(tracks_of(audios@)[0] == audios@[0]@);
        audios[0].download_url.clone()
    } else {
        message("https://www.bilibili.com/video/", view.data.bvid.as_str())
    };
    let id = match &view.data.ugc_season {
        Some(ugc) => crate::text::decimal_string(ugc.id),
        None => match view.data.season_id {
            Some(s) => crate::text::decimal_string(s),
            None => view.data.bvid.clone(),
        },
    };
    proof {
        if position is None {
            lemma_first_with_bvid(iv, bvid@, index as int);
        }
    }
    let empty = audios.len() == 0;
    let playlist = Playlist {
        id: Some(id),
        download_url: Some(download_url),
        title: Some(title),
        audios,
        cover: Some(cover),
        platform: Platform::Bilibili,
    };
    let final_position = if empty { None } else { position };
    (playlist, final_position)
}

proof fn lemma_first_with_bvid(infos: Seq<InfoEntry>, bvid: Seq<char>, index: int)
    requires
        0 <= index <= infos.len(),
        forall|j: int| 0 <= j < index ==> infos[j].bvid != bvid,
    ensures
        first_with_bvid(infos, bvid, 0) == first_with_bvid(infos, bvid, index),
    decreases index,
{
    if index > 0 {
        assert(infos[index - 1].bvid != bvid);
        lemma_first_with_bvid_step(infos, bvid, index - 1);
        lemma_first_with_bvid(infos, bvid, index - 1);
    }
}

proof fn lemma_first_with_bvid_step(infos: Seq<InfoEntry>, bvid: Seq<char>, j: int)
    requires
        0 <= j < infos.len(),
        infos[j].bvid != bvid,
    ensures
        first_with_bvid(infos, bvid, j) == first_with_bvid(infos, bvid, j + 1),
{
}

/// The bandwidths of adaptive streams as selection keys.
pub open spec fn bandwidth_keys(s: Seq<crate::bilibili::types::Audio>) -> Seq<i128> {
    s.map_values(|a: crate::bilibili::types::Audio| a.bandwidth as i128)
}

/// The stream a tier selects: among adaptive streams the tier's index in ascending bandwidth
/// (the highest when past the end); without adaptive streams the first legacy URL.
pub open spec fn media_url_spec(play: PlayData, q: Quality) -> Option<Seq<char>> {
    match play.dash {
        Some(d) => match selected_spec(bandwidth_keys(d.audio@), quality_index(q)) {
            Some(k) => Some(d.audio@[k].base_url@),
            None => None,
        },
        None => match play.durl {
            Some(v) => if v@.len() > 0 { Some(v@[0].url@) } else { None },
            None => None,
        },
    }
}

/// Picks the stream URL for a quality tier.
pub fn select_media_url(play: &PlayData, quality: Quality) -> (r: Option<String>)
    ensures
        crate::urls::opt_view(r) == media_url_spec(*play, quality),
{
    match &play.dash {
        Some(dash) => {
            let mut keys: Vec<i128> = Vec::new();
            let mut i: usize = 0;
            while i < dash.audio.len()
                invariant
                    i <= dash.audio.len(),
                    keys@ == bandwidth_keys(dash.audio@).take(i as int),
                decreases dash.audio.len() - i,
            {
                keys.push(dash.audio[i].bandwidth as i128);
                i = i + 1;
                assert(keys@ =~= bandwidth_keys(dash.audio@).take(i as int));
            }
            assert(keys@ =~= bandwidth_keys(dash.audio@));
            match select_by_rank(&keys, quality.index()) {
                Some(k) => Some(dash.audio[k].base_url.clone()),
                None => None,
            }
        },
        None => match &play.durl {
            Some(v) => if v.len() > 0 { Some(v[0].url.clone()) } else { None },
            None => None,
        },
    }
}

/// The stream a tier selects among adaptive streams, as a position in the list.
pub open spec fn dash_choice(s: Seq<crate::bilibili::types::Audio>, q: Quality) -> Option<int> {
    selected_spec(bandwidth_keys(s), quality_index(q))
}

/// Requesting a higher tier never yields a lower-bandwidth stream than a lower tier.
pub proof fn lemma_higher_tier_not_lower_bandwidth(s: Seq<crate::bilibili::types::Audio>, low: Quality, high: Quality)
    requires
        s.len() > 0,
        quality_index(low) <= quality_index(high),
    ensures
        dash_choice(s, low) is Some,
        dash_choice(s, high) is Some,
        s[dash_choice(s, low)->Some_0].bandwidth <= s[dash_choice(s, high)->Some_0].bandwidth,
{
    let keys = bandwidth_keys(s);
    crate::select::lemma_selection_monotonic(keys, quality_index(low), quality_index(high));
    crate::select::lemma_selection_past_end_is_max(keys, keys.len());
    crate::select::lemma_order_of(keys, keys.len() as int);
    let n = keys.len() as int;
    let o = crate::select::order_of(keys, n);
    let a = crate::select::tier_position(quality_index(low), keys.len());
    let b = crate::select::tier_position(quality_index(high), keys.len());
    assert(0 <= o[a] < n);
    assert(0 <= o[b] < n);
}

/// A tier whose index is past the end of a non-empty list yields the highest-bandwidth stream.
pub proof fn lemma_tier_past_end_yields_max(s: Seq<crate::bilibili::types::Audio>, q: Quality)
    requires
        s.len() > 0,
        quality_index(q) >= s.len(),
    ensures
        dash_choice(s, q) is Some,
        0 <= dash_choice(s, q)->Some_0 < s.len(),
        forall|j: int| 0 <= j < s.len() ==> (#[trigger] s[j]).bandwidth <= s[dash_choice(s, q)->Some_0].bandwidth,
{
    let keys = bandwidth_keys(s);
    crate::select::lemma_selection_past_end_is_max(keys, quality_index(q));
    assert forall|j: int| 0 <= j < s.len() implies (#[trigger] s[j]).bandwidth <= s[dash_choice(s, q)->Some_0].bandwidth by {
        assert(keys[j] <= keys[dash_choice(s, q)->Some_0]);
    }
}

/// The view API address for a video.
pub fn view_api_url(bvid: &str) -> (r: String)
    ensures
        r@ == "https://api.bilibili.com/x/web-interface/view?bvid="@ + bvid@,
{
    message("https://api.bilibili.com/x/web-interface/view?bvid=", bvid)
}

/// The play-address API for one page, asking for the adaptive (DASH) shape.
pub fn play_url_api(bvid: &str, cid: u64) -> (r: String)
    ensures
        r@ == "https://api.bilibili.com/x/player/playurl?bvid="@ + bvid@ + "&cid="@ + decimal(cid as nat) + "&fnval=16"@,
{
    let mut u = message("https://api.bilibili.com/x/player/playurl?bvid=", bvid).concat("&cid=");
    crate::text::push_decimal(&mut u, cid);
    u.concat("&fnval=16")
}

/// The page a download asks for (1-based), or the error naming it.
pub fn select_page(infos: &Vec<AudioInfo>, page: usize, bvid: &str) -> (r: Result<usize, MusicFreeError>)
    ensures
        1 <= page <= infos@.len() ==> r == Ok::<usize, MusicFreeError>((page - 1) as usize),
        !(1 <= page <= infos@.len()) ==> (r matches Err(MusicFreeError::DownloadFailed(m))
            && m@ == "Not found cid of page("@ + decimal(page as nat) + ") from bvid("@ + bvid@ + ")"@),
{
    if page >= 1 && page <= infos.len() {
        Ok(page - 1)
    } else {
        let mut m = String::from_str("Not found cid of page(");
        crate::text::push_decimal(&mut m, page as u64);
        let m = m.concat(") from bvid(").concat(bvid).concat(")");
        Err(MusicFreeError::DownloadFailed(m))
    }
}

/// The headers a stream download must carry: the video page as referer, and an open range.
pub fn media_headers(bvid: &str) -> (r: Vec<(String, String)>)
    ensures
        crate::urls::pairs_view(r@) == seq![
            ("accept"@, "*/*"@),
            ("accept-encoding"@, "gzip, deflate, br"@),
            ("connection"@, "keep-alive"@),
            ("referer"@, video_url(bvid@)),
            ("range"@, "bytes=0-"@),
        ],
{
    let mut r: Vec<(String, String)> = Vec::new();
    r.push((String::from_str("accept"), String::from_str("*/*")));
    r.push((String::from_str("accept-encoding"), String::from_str("gzip, deflate, br")));
    r.push((String::from_str("connection"), String::from_str("keep-alive")));
    r.push((String::from_str("referer"), message("https://www.bilibili.com/video/", bvid)));
    r.push((String::from_str("range"), String::from_str("bytes=0-")));
    assert(crate::urls::pairs_view(r@) =~= seq![
        ("accept"@, "*/*"@),
        ("accept-encoding"@, "gzip, deflate, br"@),
        ("connection"@, "keep-alive"@),
        ("referer"@, video_url(bvid@)),
        ("range"@, "bytes=0-"@),
    ]);
    r
}

} // verus!

verus! {

/// The position relation `build_playlist` states for its second result.
pub open spec fn position_matches(r: Option<usize>, view: ViewResponse, bvid: Seq<char>, page: Option<usize>) -> bool {
    match r {
        Some(k) => audio_infos(view).len() > 0 && position_spec(audio_infos(view), bvid, page) == Some(k as int),
        None => audio_infos(view).len() == 0 || position_spec(audio_infos(view), bvid, page) is None,
    }
}

/// An identifier given directly needs no lookup, and when its view answer reports a single
/// page the collection holds exactly that one track, positioned at it.
pub proof fn lemma_direct_id_single_page(bvid: Seq<char>, view: ViewResponse, pl: Playlist, pos: Option<usize>)
    requires
        crate::bilibili::is_bvid(bvid),
        view.data.ugc_season is None,
        view.data.pages@.len() == 1,
        view.data.bvid@ == bvid,
        playlist_matches(pl, view, bvid),
        position_matches(pos, view, bvid, None),
    ensures
        crate::bilibili::utils::begin_spec(bvid) == crate::bilibili::utils::BeginSpec::Found(bvid),
        tracks_of(pl.audios@).len() == 1,
        tracks_of(pl.audios@)[0].id == decimal(view.data.pages@[0].cid as nat),
        tracks_of(pl.audios@)[0].download_url == video_url(bvid),
        pos == Some(0usize),
{
    let infos = audio_infos(view);
    assert(tracks_of(pl.audios@)[0] == track_spec(infos[0], bvid, 0, false));
    assert(first_with_bvid(infos, bvid, 0) == Some(0int));
}

} // verus!
