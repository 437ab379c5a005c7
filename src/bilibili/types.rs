//! The shapes of Bilibili's view and play-address API responses.

use vstd::prelude::*;

verus! {

#[derive(Debug, Clone)]
pub struct ViewResponse {
    pub data: ViewData,
}

#[derive(Debug, Clone)]
pub struct ViewData {
    pub cid: u64,
    pub bvid: String,
    pub title: String,
    pub aid: Option<u64>,
    pub videos: u64,
    pub desc: String,
    pub duration: u64,
    pub pages: Vec<EpisodePage>,
    pub ugc_season: Option<UgcSession>,
    pub owner: Owner,
    pub pic: String,
    pub season_id: Option<u64>,
}

#[derive(Debug, Clone)]
pub struct Owner {
    pub mid: u64,
    pub name: String,
    pub face: String,
}

#[derive(Debug, Clone)]
pub struct EpisodePage {
    pub cid: u64,
    pub part: String,
    pub duration: u64,
}

#[derive(Debug, Clone)]
pub struct EpisodeArc {
    pub title: String,
    pub pic: String,
}

#[derive(Debug, Clone)]
pub struct Episode {
    pub id: u64,
    pub aid: u64,
    pub cid: u64,
    pub title: String,
    pub page: EpisodePage,
    pub pages: Vec<EpisodePage>,
    pub bvid: String,
    pub arc: EpisodeArc,
}

#[derive(Debug, Clone)]
pub struct Section {
    pub season_id: u64,
    pub id: u64,
    pub title: String,
    pub episodes: Vec<Episode>,
}

#[derive(Debug, Clone)]
pub struct UgcSession {
    pub id: u64,
    pub title: String,
    pub cover: String,
    pub mid: u64,
    pub intro: String,
    pub sections: Vec<Section>,
}

#[derive(Debug, Clone)]
pub struct PlayUrlResponse {
    pub data: PlayData,
}

/// A play-address answer: adaptive audio streams, or legacy single URLs.
#[derive(Debug, Clone)]
pub struct PlayData {
    pub dash: Option<Dash>,
    pub durl: Option<Vec<Durl>>,
}

#[derive(Debug, Clone)]
pub struct Dash {
    pub audio: Vec<Audio>,
}

/// One adaptive audio stream.
#[derive(Debug, Clone)]
pub struct Audio {
    pub bandwidth: u64,
    pub base_url: String,
}

#[derive(Debug, Clone)]
pub struct Durl {
    pub url: String,
}

/// One playable page of a video, season episode or multi-page upload.
#[derive(Debug, Clone)]
pub struct AudioInfo {
    pub cid: u64,
    pub title: String,
    pub bvid: String,
    pub cover: String,
    pub duration: u64,
}

} // verus!
