//! The shapes of YouTube's player and page data that the library reads.

use vstd::prelude::*;

verus! {

/// Declares `serde_json::Value` so that JSON the library does not read can be carried through.
#[verifier::external_type_specification]
#[verifier::external_body]
pub struct ExJsonValue(serde_json::Value);

#[derive(Debug, Clone)]
pub struct PlayerResponse {
    pub streaming_data: StreamingData,
    pub video_details: VideoDetails,
}

#[derive(Debug, Clone)]
pub struct VideoDetails {
    pub video_id: String,
    pub title: String,
    pub length_seconds: String,
}

#[derive(Debug, Clone)]
pub struct StreamingData {
    pub formats: Vec<Format>,
    pub adaptive_formats: Vec<Format>,
}

/// One encoding of a video: a plain `url`, or a `signature_cipher` bundle to descramble.
#[derive(Debug, Clone)]
pub struct Format {
    pub itag: u64,
    pub mime_type: String,
    pub last_modified: String,
    pub quality: String,
    pub signature_cipher: Option<String>,
    pub url: Option<String>,
    pub bitrate: Option<u64>,
    pub content_length: Option<String>,
    pub audio_quality: Option<String>,
    pub approx_duration_ms: Option<String>,
}

/// The page configuration blob (`ytcfg.set({...})`).
#[derive(Debug)]
pub struct YtConfig {
    pub innertube_context: InnertubeContext,
    pub visitor_data: Option<String>,
    pub innertube_api_key: String,
    pub player_js_url: String,
    pub innertube_client_version: String,
    pub innertube_api_version: String,
    pub innertube_client_name: String,
}

#[derive(Debug)]
pub struct InnertubeContext {
    pub client: serde_json::Value,
}

#[derive(Debug)]
pub struct InnertubeRequest {
    pub video_id: String,
    pub context: InnertubeContext,
    pub playback_context: PlaybackContext,
    pub content_check_ok: bool,
    pub racy_check_ok: bool,
}

#[derive(Debug)]
pub struct PlaybackContext {
    pub content_playback_context: ContentPlaybackContext,
}

#[derive(Debug)]
pub struct ContentPlaybackContext {
    pub pcm2: String,
}

/// The page data blob (`var ytInitialData = {...};`).
#[derive(Debug)]
pub struct YtInitialData {
    pub contents: Contents,
    pub header: Option<PlaylistHeader>,
}

#[derive(Debug)]
pub struct Contents {
    pub two_column_watch_next_results: Option<TwoColumnWatchNextResults>,
    pub two_column_browse_results_renderer: Option<TwoColumnBrowseResultsRenderer>,
}

#[derive(Debug, Clone)]
pub struct TwoColumnBrowseResultsRenderer {
    pub tabs: Vec<Tab>,
}

#[derive(Debug, Clone)]
pub struct PlaylistHeader {
    pub playlist_header_renderer: Option<PlaylistHeaderRenderer>,
    pub page_header_renderer: Option<PageHeaderRenderer>,
}

#[derive(Debug, Clone)]
pub struct PlaylistHeaderRenderer {
    pub title: Option<Title>,
}

#[derive(Debug, Clone)]
pub struct PageHeaderRenderer {
    pub page_title: String,
}

#[derive(Debug, Clone)]
pub struct Tab {
    pub tab_renderer: TabRenderer,
}

#[derive(Debug, Clone)]
pub struct TabRenderer {
    pub selected: bool,
    pub content: TabContent,
}

#[derive(Debug, Clone)]
pub struct TabContent {
    pub section_list_renderer: SectionListRenderer,
}

#[derive(Debug, Clone)]
pub struct SectionListRenderer {
    pub contents: Vec<SectionContent>,
}

#[derive(Debug, Clone)]
pub struct SectionContent {
    pub item_section_renderer: Option<ItemSectionRenderer>,
}

#[derive(Debug, Clone)]
pub struct ItemSectionRenderer {
    pub contents: Vec<ItemContent>,
}

#[derive(Debug, Clone)]
pub struct ItemContent {
    pub playlist_video_list_renderer: PlaylistVideoListRenderer,
}

#[derive(Debug, Clone)]
pub struct PlaylistVideoListRenderer {
    pub contents: Vec<VideoElement>,
}

#[derive(Debug, Clone)]
pub struct VideoElement {
    pub playlist_video_renderer: PlaylistVideoRenderer,
}

#[derive(Debug, Clone)]
pub struct PlaylistVideoRenderer {
    pub video_id: String,
    pub length_seconds: String,
    pub title: PlaylistVideoRendererTitle,
}

#[derive(Debug, Clone)]
pub struct PlaylistVideoRendererTitle {
    pub runs: Vec<PlaylistVideoRendererTitleRun>,
}

#[derive(Debug, Clone)]
pub struct PlaylistVideoRendererTitleRun {
    pub text: String,
}

#[derive(Debug)]
pub struct TwoColumnWatchNextResults {
    pub playlist: Playlist,
}

#[derive(Debug)]
pub struct Playlist {
    pub playlist: PlaylistData,
}

#[derive(Debug)]
pub struct PlaylistData {
    pub title: Option<String>,
    pub contents: Vec<PlaylistContent>,
}

/// An entry of a watch-page playlist panel: a video, or anything else.
#[derive(Debug)]
pub enum PlaylistContent {
    Video(PlaylistVideoContent),
    Other(serde_json::Value),
}

#[derive(Debug, Clone)]
pub struct PlaylistVideoContent {
    pub playlist_panel_video_renderer: PlaylistPanelVideoRenderer,
}

#[derive(Debug, Clone)]
pub struct PlaylistPanelVideoRenderer {
    pub title: Title,
    pub navigation_endpoint: NavigationEndpoint,
}

#[derive(Debug, Clone)]
pub enum Title {
    SimpleText { simple_text: String },
    Runs { runs: Vec<Run> },
}

#[derive(Debug, Clone)]
pub struct Run {
    pub text: String,
}

#[derive(Debug, Clone)]
pub struct NavigationEndpoint {
    pub command_metadata: CommandMetadata,
    pub watch_endpoint: WatchEndpoint,
}

#[derive(Debug, Clone)]
pub struct CommandMetadata {
    pub web_command_metadata: WebCommandMetadata,
}

#[derive(Debug, Clone)]
pub struct WebCommandMetadata {
    pub url: String,
}

#[derive(Debug, Clone)]
pub struct WatchEndpoint {
    pub video_id: String,
}

} // verus!
