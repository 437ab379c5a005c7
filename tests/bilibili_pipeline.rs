use musicfree::bilibili::extract::{
    build_playlist, get_audio_info, media_headers, play_url_api, requested_page, select_media_url,
    select_page, view_api_url,
};
use musicfree::bilibili::types::{
    Audio as DashAudio, Dash, Durl, Episode, EpisodeArc, EpisodePage, Owner, PlayData, Section,
    UgcSession, ViewData, ViewResponse,
};
use musicfree::bilibili::utils::{begin_parse_id, finish_parse_id, is_bilibili_short_url, ParseStep};
use musicfree::bilibili::{extract_bvid, is_bilibili_url};
use musicfree::error::MusicFreeError;
use musicfree::model::{AudioFormat, Platform, Quality};

fn page(cid: u64, part: &str, duration: u64) -> EpisodePage {
    EpisodePage { cid, part: part.to_string(), duration }
}

fn view(bvid: &str, title: &str, pages: Vec<EpisodePage>) -> ViewResponse {
    ViewResponse {
        data: ViewData {
            cid: pages.first().map(|p| p.cid).unwrap_or(0),
            bvid: bvid.to_string(),
            title: title.to_string(),
            aid: None,
            videos: pages.len() as u64,
            desc: String::new(),
            duration: 0,
            pages,
            ugc_season: None,
            owner: Owner { mid: 1, name: "up".to_string(), face: String::new() },
            pic: "https://i0.hdslb.com/cover.jpg".to_string(),
            season_id: None,
        },
    }
}

fn dash(bandwidths: &[u64]) -> PlayData {
    PlayData {
        dash: Some(Dash {
            audio: bandwidths
                .iter()
                .map(|b| DashAudio { bandwidth: *b, base_url: format!("https://cdn/{b}.m4s") })
                .collect(),
        }),
        durl: None,
    }
}

#[test]
fn direct_id_resolves_without_lookup() {
    match begin_parse_id("BV1xxxxxxxxx") {
        Ok(ParseStep::Done(id)) => assert_eq!(id, "BV1xxxxxxxxx"),
        other => panic!("unexpected: {:?}", other),
    }
}

#[test]
fn direct_id_single_page_gives_one_track() {
    let v = view("BV1xxxxxxxxx", "Song", vec![page(11, "Intro", 200)]);
    let (pl, pos) = build_playlist(&v, "BV1xxxxxxxxx", None);
    assert_eq!(pl.audios.len(), 1);
    assert_eq!(pl.audios[0].title, "Song");
    assert_eq!(pl.audios[0].id, "11");
    assert_eq!(pl.audios[0].download_url, "https://www.bilibili.com/video/BV1xxxxxxxxx");
    assert_eq!(pl.audios[0].format, Some(AudioFormat::M4A));
    assert_eq!(pl.audios[0].duration, Some(200));
    assert_eq!(pl.id.as_deref(), Some("BV1xxxxxxxxx"));
    assert_eq!(pos, Some(0));
}

#[test]
fn three_pages_flatten_in_order_with_requested_position() {
    let v = view("BV1xx411c7mD", "Album", vec![page(1, "one", 10), page(2, "two", 20), page(3, "three", 30)]);
    let url = "https://www.bilibili.com/video/BV1xx411c7mD?p=2";
    let p = requested_page(url);
    assert_eq!(p, Some(2));
    let (pl, pos) = build_playlist(&v, "BV1xx411c7mD", p);
    let titles: Vec<&str> = pl.audios.iter().map(|a| a.title.as_str()).collect();
    assert_eq!(titles, vec!["one", "two", "three"]);
    assert_eq!(pos, Some(1));
    assert_eq!(pl.audios[1].download_url, "https://www.bilibili.com/video/BV1xx411c7mD?p=2");
    assert_eq!(pl.download_url.as_deref(), Some("https://www.bilibili.com/video/BV1xx411c7mD?p=1"));
    assert_eq!(pl.platform, Platform::Bilibili);
}

#[test]
fn position_falls_back_to_first_page_of_video() {
    let v = view("BV1xx411c7mD", "Album", vec![page(1, "one", 10), page(2, "two", 20)]);
    let (_, pos) = build_playlist(&v, "BV1xx411c7mD", Some(9));
    assert_eq!(pos, Some(0));
    let (_, none) = build_playlist(&v, "BV1yy411c7mD", None);
    assert_eq!(none, None);
}

#[test]
fn season_flattens_depth_first() {
    let ep = |bvid: &str, pages: Vec<EpisodePage>| Episode {
        id: 1,
        aid: 1,
        cid: 1,
        title: bvid.to_string(),
        page: page(0, "", 0),
        pages,
        bvid: bvid.to_string(),
        arc: EpisodeArc { title: bvid.to_string(), pic: format!("pic-{bvid}") },
    };
    let mut v = view("BV1aa411c7mD", "Season", vec![page(9, "x", 1)]);
    v.data.ugc_season = Some(UgcSession {
        id: 77,
        title: "Collection".to_string(),
        cover: "season.jpg".to_string(),
        mid: 1,
        intro: String::new(),
        sections: vec![
            Section { season_id: 1, id: 1, title: "s1".into(), episodes: vec![ep("BV1aa411c7mD", vec![page(1, "a1", 1), page(2, "a2", 2)])] },
            Section { season_id: 1, id: 2, title: "s2".into(), episodes: vec![ep("BV1bb411c7mD", vec![page(3, "b1", 3)])] },
        ],
    });
    let infos = get_audio_info(&v);
    let cids: Vec<u64> = infos.iter().map(|i| i.cid).collect();
    assert_eq!(cids, vec![1, 2, 3]);
    assert_eq!(infos[2].cover, "pic-BV1bb411c7mD");
    let (pl, pos) = build_playlist(&v, "BV1bb411c7mD", None);
    assert_eq!(pl.id.as_deref(), Some("77"));
    assert_eq!(pl.title.as_deref(), Some("Collection"));
    assert_eq!(pos, Some(2));
}

#[test]
fn quality_tiers_index_ascending_bandwidth() {
    let play = dash(&[100, 300, 200]);
    assert_eq!(select_media_url(&play, Quality::Low).as_deref(), Some("https://cdn/100.m4s"));
    assert_eq!(select_media_url(&play, Quality::Standard).as_deref(), Some("https://cdn/200.m4s"));
    assert_eq!(select_media_url(&play, Quality::High).as_deref(), Some("https://cdn/300.m4s"));
}

#[test]
fn super_never_below_standard() {
    let play = dash(&[500, 100, 900, 300, 700]);
    let bw = |u: Option<String>| u.unwrap().trim_start_matches("https://cdn/").trim_end_matches(".m4s").parse::<u64>().unwrap();
    assert!(bw(select_media_url(&play, Quality::Super)) >= bw(select_media_url(&play, Quality::Standard)));
    assert_eq!(select_media_url(&play, Quality::Super).as_deref(), Some("https://cdn/700.m4s"));
}

#[test]
fn tier_past_end_returns_max() {
    let play = dash(&[128, 64]);
    assert_eq!(select_media_url(&play, Quality::Super).as_deref(), Some("https://cdn/128.m4s"));
    assert_eq!(select_media_url(&play, Quality::High).as_deref(), Some("https://cdn/128.m4s"));
}

#[test]
fn equal_bandwidths_keep_list_order() {
    let mut play = dash(&[100, 100]);
    if let Some(d) = play.dash.as_mut() {
        d.audio[0].base_url = "first".into();
        d.audio[1].base_url = "second".into();
    }
    assert_eq!(select_media_url(&play, Quality::Low).as_deref(), Some("first"));
    assert_eq!(select_media_url(&play, Quality::Standard).as_deref(), Some("second"));
}

#[test]
fn legacy_url_used_without_adaptive_streams() {
    let play = PlayData { dash: None, durl: Some(vec![Durl { url: "https://legacy/a.flv".into() }]) };
    assert_eq!(select_media_url(&play, Quality::Low).as_deref(), Some("https://legacy/a.flv"));
    let empty = PlayData { dash: None, durl: None };
    assert_eq!(select_media_url(&empty, Quality::Super), None);
    assert_eq!(select_media_url(&dash(&[]), Quality::Super), None);
}

#[test]
fn extract_bvid_finds_id_in_url() {
    assert_eq!(extract_bvid("https://www.bilibili.com/video/BV1xx411c7mD/?spm=1").unwrap(), "BV1xx411c7mD");
    assert_eq!(extract_bvid("BV1xx411c7mDextra").unwrap(), "BV1xx411c7mD");
    match extract_bvid("https://example.com/BVshort") {
        Err(MusicFreeError::InvalidUrl(m)) => assert_eq!(m, "Cannot extract BV ID from: https://example.com/BVshort"),
        other => panic!("unexpected: {:?}", other),
    }
}

#[test]
fn loose_and_strict_site_checks() {
    assert!(is_bilibili_url("https://www.bilibili.com/video/x"));
    assert!(is_bilibili_url("BVanything"));
    assert!(!is_bilibili_url("https://youtube.com"));
    assert!(musicfree::bilibili::utils::is_bilibili_url("https://m.bilibili.com/video/BV1xx411c7mD"));
    assert!(musicfree::bilibili::utils::is_bilibili_url("BV1xx411c7mD"));
    assert!(!musicfree::bilibili::utils::is_bilibili_url("https://notbilibili.com/video"));
    assert!(is_bilibili_short_url("https://b23.tv/abc1234"));
    assert!(is_bilibili_short_url("https://b23.tv/av170001"));
    assert!(!is_bilibili_short_url("https://b23.tv/ab"));
    assert!(!is_bilibili_short_url("https://www.bilibili.com/abc1234"));
}

#[test]
fn short_link_token_asks_for_one_lookup() {
    match begin_parse_id("https://b23.tv/abc1234") {
        Ok(ParseStep::Resolve(u)) => assert_eq!(u, "https://b23.tv/abc1234"),
        other => panic!("unexpected: {:?}", other),
    }
    let short = "https://b23.tv/abc1234";
    assert_eq!(finish_parse_id(short, "https://www.bilibili.com/video/BV1xx411c7mD?share=1").unwrap(), "BV1xx411c7mD");
    assert_eq!(finish_parse_id(short, "https://www.bilibili.com/watch?a=1&bvid=BV1xx411c7mD").unwrap(), "BV1xx411c7mD");
    match finish_parse_id(short, "https://www.bilibili.com/watch?x=1") {
        Err(MusicFreeError::InvalidUrl(m)) => assert_eq!(m, "Cannot extract BV ID from: https://b23.tv/abc1234"),
        other => panic!("unexpected: {:?}", other),
    }
    match finish_parse_id(short, "not a url") {
        Err(MusicFreeError::InvalidUrl(m)) => assert_eq!(m, "Failed to parse the resolved URL of: https://b23.tv/abc1234"),
        other => panic!("unexpected: {:?}", other),
    }
}

#[test]
fn legacy_numeric_id_converts_without_lookup() {
    match begin_parse_id("https://b23.tv/av170001") {
        Ok(ParseStep::Done(id)) => assert_eq!(id, "BV17x411w7KC"),
        other => panic!("unexpected: {:?}", other),
    }
}

#[test]
fn site_url_path_gives_id() {
    match begin_parse_id("https://www.bilibili.com/video/BV1xx411c7mD?p=3") {
        Ok(ParseStep::Done(id)) => assert_eq!(id, "BV1xx411c7mD"),
        other => panic!("unexpected: {:?}", other),
    }
    match begin_parse_id("https://www.bilibili.com/") {
        Err(MusicFreeError::InvalidUrl(m)) => assert_eq!(m, "Cannot extract BV ID from: https://www.bilibili.com/"),
        other => panic!("unexpected: {:?}", other),
    }
}

#[test]
fn api_addresses_and_headers() {
    assert_eq!(view_api_url("BV1xx411c7mD"), "https://api.bilibili.com/x/web-interface/view?bvid=BV1xx411c7mD");
    assert_eq!(play_url_api("BV1xx411c7mD", 4242), "https://api.bilibili.com/x/player/playurl?bvid=BV1xx411c7mD&cid=4242&fnval=16");
    let h = media_headers("BV1xx411c7mD");
    assert!(h.contains(&("referer".to_string(), "https://www.bilibili.com/video/BV1xx411c7mD".to_string())));
    assert!(h.contains(&("range".to_string(), "bytes=0-".to_string())));
}

#[test]
fn page_selection_is_one_based() {
    let v = view("BV1xx411c7mD", "A", vec![page(1, "one", 1), page(2, "two", 2)]);
    let infos = get_audio_info(&v);
    assert_eq!(select_page(&infos, 2, "BV1xx411c7mD").unwrap(), 1);
    match select_page(&infos, 0, "BV1xx411c7mD") {
        Err(MusicFreeError::DownloadFailed(m)) => assert_eq!(m, "Not found cid of page(0) from bvid(BV1xx411c7mD)"),
        other => panic!("unexpected: {:?}", other),
    }
    assert!(select_page(&infos, 3, "BV1xx411c7mD").is_err());
}

#[test]
fn redirect_to_another_short_link_is_not_followed() {
    let short = "https://b23.tv/abc1234";
    match finish_parse_id(short, "https://b23.tv/abcdefg") {
        Err(MusicFreeError::InvalidUrl(m)) => assert_eq!(m, "Cannot extract BV ID from: https://b23.tv/abc1234"),
        other => panic!("unexpected: {:?}", other),
    }
    assert!(finish_parse_id(short, "https://www.bilibili.com/watch?bvid=notanid").is_err());
}
