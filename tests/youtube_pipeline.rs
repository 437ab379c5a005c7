use musicfree::error::MusicFreeError;
use musicfree::model::{AudioFormat, Platform, Playlist, Quality};
use musicfree::youtube::ejs::{apply_challenge_answers, build_job, descramble, plan_candidate, update_url_query, CipherTask};
use musicfree::youtube::extract::{
    check_playability, extract_audio_formats_android, media_headers, watch_page_headers, extract_audio_formats_web, extract_playlist_audio,
    extract_playlist_title, extract_playlist_videos, get_fetch_url, pick_format, single_video_playlist,
};
use musicfree::youtube::page::{get_player_url, player_response_candidates, yt_initial_data_json, ytcfg_json};
use musicfree::youtube::types::{
    CommandMetadata, Contents, Format, NavigationEndpoint, PlayerResponse, Playlist as PanelPlaylist,
    PlaylistContent, PlaylistData, PlaylistPanelVideoRenderer, PlaylistVideoContent, Run, StreamingData,
    Title, TwoColumnWatchNextResults, VideoDetails, WatchEndpoint, WebCommandMetadata, YtInitialData,
};
use musicfree::youtube::utils::{
    build_playlist_url, build_thumbnail_url, build_watch_url, build_watch_url_with_playlist, is_playlist_url,
    is_valid_playlist_id, is_valid_video_id, parse_id, parse_playlist_id,
};
use musicfree::youtube::{extract_video_id, is_youtube_url, next_attempt, Attempt, FallbackStep};

fn format(itag: u64, mime: &str, url: Option<&str>, cipher: Option<&str>, bitrate: Option<u64>) -> Format {
    Format {
        itag,
        mime_type: mime.to_string(),
        last_modified: String::new(),
        quality: String::new(),
        signature_cipher: cipher.map(|c| c.to_string()),
        url: url.map(|u| u.to_string()),
        bitrate,
        content_length: None,
        audio_quality: None,
        approx_duration_ms: Some("215000".to_string()),
    }
}

fn panel_video(id: &str, title: Title) -> PlaylistContent {
    PlaylistContent::Video(PlaylistVideoContent {
        playlist_panel_video_renderer: PlaylistPanelVideoRenderer {
            title,
            navigation_endpoint: NavigationEndpoint {
                command_metadata: CommandMetadata { web_command_metadata: WebCommandMetadata { url: format!("/watch?v={id}") } },
                watch_endpoint: WatchEndpoint { video_id: id.to_string() },
            },
        },
    })
}

fn watch_page_data() -> YtInitialData {
    YtInitialData {
        contents: Contents {
            two_column_watch_next_results: Some(TwoColumnWatchNextResults {
                playlist: PanelPlaylist {
                    playlist: PlaylistData {
                        title: Some("Mix".to_string()),
                        contents: vec![
                            panel_video("aaaaaaaaaaa", Title::SimpleText { simple_text: "First".into() }),
                            PlaylistContent::Other(serde_json::Value::Null),
                            panel_video("bbbbbbbbbbb", Title::Runs { runs: vec![Run { text: "Sec".into() }, Run { text: "ond".into() }] }),
                        ],
                    },
                },
            }),
            two_column_browse_results_renderer: None,
        },
        header: None,
    }
}

#[test]
fn rich_failure_falls_back_to_simple() {
    let rich: Result<Playlist, MusicFreeError> = Err(MusicFreeError::ConfigParseError("ytcfg.set not found".into()));
    assert!(matches!(next_attempt(Attempt::Rich, rich), FallbackStep::Retry(Attempt::Simple)));
    let mut pl = Playlist::new("t".into(), Platform::Youtube);
    pl.audios.push(musicfree::model::Audio::new("id".into(), "t".into(), "u".into(), Platform::Youtube));
    match next_attempt(Attempt::Simple, Ok(pl)) {
        FallbackStep::Finished(p) => assert!(!p.audios.is_empty()),
        other => panic!("unexpected: {:?}", other),
    }
    let failed: Result<Playlist, MusicFreeError> = Err(MusicFreeError::AudioNotFound);
    assert!(matches!(next_attempt(Attempt::Simple, failed), FallbackStep::Failed(MusicFreeError::AudioNotFound)));
}

#[test]
fn omitted_signature_fails_only_that_candidate() {
    let ciphered = CipherTask {
        url: "https://r.example.com/videoplayback?id=1&n=tok1".into(),
        n: Some("tok1".into()),
        sig: Some(("scrambled".into(), "sig".into())),
    };
    let throttled = CipherTask {
        url: "https://r.example.com/videoplayback?n=tok2&sig=x&id=2".into(),
        n: Some("tok2".into()),
        sig: None,
    };
    let answers = vec![("tok1".to_string(), "N1".to_string()), ("tok2".to_string(), "N2".to_string())];
    match apply_challenge_answers(&ciphered, &answers) {
        Err(MusicFreeError::JsDecryptionFailed(m)) => assert_eq!(m, "Failed to decrypt s parameter"),
        other => panic!("unexpected: {:?}", other),
    }
    assert_eq!(
        apply_challenge_answers(&throttled, &answers).unwrap(),
        "https://r.example.com/videoplayback?sig=x&id=2&n=N2"
    );
}

#[test]
fn solved_signature_is_written_back() {
    let ciphered = CipherTask {
        url: "https://r.example.com/videoplayback?id=1&n=tok1".into(),
        n: Some("tok1".into()),
        sig: Some(("scrambled".into(), "sig".into())),
    };
    let answers = vec![("tok1".to_string(), "N1".to_string()), ("scrambled".to_string(), "clear".to_string())];
    assert_eq!(apply_challenge_answers(&ciphered, &answers).unwrap(), "https://r.example.com/videoplayback?id=1&n=N1&sig=clear");
    let missing_n = vec![("scrambled".to_string(), "clear".to_string())];
    match apply_challenge_answers(&ciphered, &missing_n) {
        Err(MusicFreeError::JsDecryptionFailed(m)) => assert_eq!(m, "Failed to decrypt n parameter"),
        other => panic!("unexpected: {:?}", other),
    }
}

#[test]
fn same_token_is_requested_once() {
    let cipher = "s=scr&sp=sig&url=https%3A%2F%2Fr.example.com%2Fv%3Fn%3Dshared";
    let fs = vec![
        format(251, "audio/webm", None, Some(cipher), None),
        format(140, "audio/mp4", Some("https://r.example.com/w?n=shared&sig=1"), None, None),
        format(18, "video/mp4", Some("https://r.example.com/plain"), None, None),
    ];
    let tasks: Vec<_> = fs.iter().map(plan_candidate).collect();
    let job = build_job(&tasks);
    assert_eq!(job.n_tokens, vec!["shared".to_string()]);
    assert_eq!(job.sig_tokens, vec!["scr".to_string()]);
}

#[test]
fn candidate_plans() {
    let t = plan_candidate(&format(1, "audio/mp4", Some("https://r.example.com/plain?id=1"), None, None)).unwrap();
    assert_eq!(t.url, "https://r.example.com/plain?id=1");
    assert!(t.n.is_none());
    let c = plan_candidate(&format(1, "audio/mp4", None, Some("s=abc&url=https%3A%2F%2Fr.example.com%2Fv%3Fn%3Dq"), None)).unwrap();
    assert_eq!(c.url, "https://r.example.com/v?n=q");
    assert_eq!(c.n.as_deref(), Some("q"));
    assert_eq!(c.sig, Some(("abc".to_string(), "sig".to_string())));
    match plan_candidate(&format(1, "audio/mp4", None, Some("s=abc"), None)) {
        Err(MusicFreeError::CipherParseError(m)) => assert_eq!(m, "Missing url in cipher"),
        other => panic!("unexpected: {:?}", other),
    }
    match plan_candidate(&format(1, "audio/mp4", None, Some("url=https%3A%2F%2Fr.example.com%2Fv"), None)) {
        Err(MusicFreeError::CipherParseError(m)) => assert_eq!(m, "Missing s in cipher"),
        other => panic!("unexpected: {:?}", other),
    }
    match plan_candidate(&format(1, "audio/mp4", None, Some("s=1&url=https%3A%2F%2Fr.example.com%2Fv"), None)) {
        Err(MusicFreeError::CipherParseError(m)) => assert_eq!(m, "Parameter 'n' not found in URL"),
        other => panic!("unexpected: {:?}", other),
    }
    assert!(matches!(plan_candidate(&format(1, "audio/mp4", None, None, None)), Err(MusicFreeError::AudioNotFound)));
}

#[test]
fn plain_candidates_need_no_solver() {
    let fs = vec![format(140, "audio/mp4", Some("https://r.example.com/plain"), None, None)];
    let out = descramble(&fs, String::new());
    assert_eq!(out.len(), 1);
    assert_eq!(out[0].as_ref().unwrap(), "https://r.example.com/plain");
}

#[test]
fn query_rewrite_drops_and_appends() {
    let r = update_url_query("https://h.example/p?a=1&b=2&a=3", &vec!["a".to_string()], &vec![("c".to_string(), "x y".to_string())]);
    assert_eq!(r.unwrap(), "https://h.example/p?b=2&c=x+y");
    match update_url_query("nope", &vec![], &vec![]) {
        Err(MusicFreeError::CipherParseError(m)) => assert_eq!(m, "Failed to parse URL: nope"),
        other => panic!("unexpected: {:?}", other),
    }
}

#[test]
fn playlist_videos_from_watch_panel() {
    let data = watch_page_data();
    let v = extract_playlist_videos(&data).unwrap();
    assert_eq!(v.len(), 2);
    assert_eq!(v[0].title, "First");
    assert_eq!(v[1].title, "Second");
    assert_eq!(v[1].url, "/watch?v=bbbbbbbbbbb");
    assert_eq!(extract_playlist_title(&data).unwrap(), "Mix");
    let empty = YtInitialData { contents: Contents { two_column_watch_next_results: None, two_column_browse_results_renderer: None }, header: None };
    match extract_playlist_videos(&empty) {
        Err(MusicFreeError::ConfigParseError(m)) => assert_eq!(m, "No valid playlist format found in ytInitialData"),
        other => panic!("unexpected: {:?}", other),
    }
    assert_eq!(extract_playlist_title(&empty).unwrap(), "YouTube Playlist");
}

#[test]
fn playlist_position_points_at_requested_video() {
    let data = watch_page_data();
    let (pl, pos) = extract_playlist_audio("https://www.youtube.com/watch?v=bbbbbbbbbbb&list=PLabcdefghijklmnop", &data).unwrap();
    assert_eq!(pos, Some(1));
    assert_eq!(pl.id.as_deref(), Some("PLabcdefghijklmnop"));
    assert_eq!(pl.audios[0].download_url, "https://www.youtube.com/watch?v=aaaaaaaaaaa");
    assert_eq!(pl.cover.as_deref(), Some("https://i.ytimg.com/vi/aaaaaaaaaaa/hq720.jpg"));
    assert!(extract_playlist_audio("https://www.youtube.com/watch?v=bbbbbbbbbbb", &data).is_err());
}

#[test]
fn single_video_tracks() {
    let pr = PlayerResponse {
        streaming_data: StreamingData {
            formats: vec![format(18, "video/mp4", Some("https://r/18"), None, Some(900000))],
            adaptive_formats: vec![
                format(251, "audio/webm; codecs=\"opus\"", None, Some("s=1"), Some(160000)),
                format(0, "audio/mp4", None, None, None),
                format(140, "audio/mp4", Some("https://r/140"), None, Some(128000)),
                format(137, "video/mp4", Some("https://r/137"), None, Some(4000000)),
            ],
        },
        video_details: VideoDetails { video_id: "dQw4w9WgXcQ".into(), title: "Song".into(), length_seconds: "215".into() },
    };
    let usable = extract_audio_formats_web(&pr).unwrap();
    let itags: Vec<u64> = usable.iter().map(|f| f.itag).collect();
    assert_eq!(itags, vec![251, 140]);
    let (pl, pos) = single_video_playlist("dQw4w9WgXcQ", &pr);
    assert_eq!(pl.audios.len(), 2);
    assert_eq!(pl.audios[0].format, Some(AudioFormat::Webm));
    assert_eq!(pl.audios[1].format, Some(AudioFormat::Mp4));
    assert_eq!(pl.audios[0].duration, Some(215));
    assert_eq!(pos, Some(0));
}

#[test]
fn format_pick_follows_quality_tier() {
    let a = format(1, "audio/mp4", Some("a"), None, Some(48000));
    let b = format(2, "audio/webm", Some("b"), None, Some(160000));
    let c = format(3, "audio/mp4", Some("c"), None, Some(128000));
    let list = vec![&a, &b, &c];
    assert_eq!(pick_format(&list, Quality::Low), Some(0));
    assert_eq!(pick_format(&list, Quality::Standard), Some(2));
    assert_eq!(pick_format(&list, Quality::High), Some(1));
    assert_eq!(pick_format(&list, Quality::Super), Some(1));
    assert_eq!(pick_format(&vec![], Quality::Super), None);
}

#[test]
fn client_formats_sorted_by_bitrate() {
    let fs = vec![
        format(139, "audio/mp4", Some("u139"), None, Some(48000)),
        format(251, "audio/webm", Some("u251"), None, Some(160000)),
        format(250, "audio/webm", None, None, Some(999999)),
        format(18, "video/mp4", Some("u18"), None, Some(500000)),
        format(600, "audio/webm", Some("u600"), None, None),
    ];
    let out = extract_audio_formats_android(&fs).unwrap();
    let itags: Vec<i64> = out.iter().map(|f| f.itag).collect();
    assert_eq!(itags, vec![251, 139, 600]);
    assert!(matches!(extract_audio_formats_android(&vec![]), Err(MusicFreeError::AudioNotFound)));
}

#[test]
fn playability_status() {
    assert!(check_playability(None).is_ok());
    assert!(check_playability(Some((Some("OK".into()), None))).is_ok());
    match check_playability(Some((Some("ERROR".into()), None))) {
        Err(MusicFreeError::YoutubeError(m)) => assert_eq!(m, "Video unavailable: Unknown error"),
        other => panic!("unexpected: {:?}", other),
    }
}

#[test]
fn video_ids() {
    assert_eq!(extract_video_id("dQw4w9WgXcQ").unwrap(), "dQw4w9WgXcQ");
    assert_eq!(extract_video_id("https://www.youtube.com/watch?v=dQw4w9WgXcQ&t=1").unwrap(), "dQw4w9WgXcQ");
    assert_eq!(extract_video_id("https://youtu.be/dQw4w9WgXcQ?si=x").unwrap(), "dQw4w9WgXcQ");
    assert!(extract_video_id("https://www.youtube.com/watch?v=short").is_err());
    assert_eq!(parse_id("dQw4w9WgXcQ").unwrap(), "dQw4w9WgXcQ");
    match parse_id("https://example.com/watch?v=dQw4w9WgXcQ") {
        Err(MusicFreeError::InvalidUrl(m)) => assert_eq!(m, "Not a valid YouTube URL: https://example.com/watch?v=dQw4w9WgXcQ"),
        other => panic!("unexpected: {:?}", other),
    }
    assert!(is_valid_video_id("abc-def_123"));
    assert!(!is_valid_video_id("abc def 123"));
}

#[test]
fn playlist_ids_and_urls() {
    assert!(is_valid_playlist_id("PLabc_-1"));
    assert!(!is_valid_playlist_id("XXabc"));
    assert!(!is_valid_playlist_id("P"));
    assert_eq!(parse_playlist_id("https://www.youtube.com/watch?v=x&list=RDabc123&index=2").as_deref(), Some("RDabc123"));
    assert!(is_playlist_url("https://www.youtube.com/playlist?list=PLxyz"));
    assert!(!is_playlist_url("https://example.com/playlist?list=PLxyz"));
    assert!(is_youtube_url("music.youtube.com/watch?v=1"));
    assert!(musicfree::youtube::utils::is_youtube_url("music.youtube.com/watch?v=1"));
    assert!(musicfree::youtube::utils::is_youtube_url("https://m.youtube.com/x"));
    assert!(!musicfree::youtube::utils::is_youtube_url("https://notyoutube.com/x"));
    assert_eq!(get_fetch_url("PLxyz123"), ("https://www.youtube.com/playlist?list=PLxyz123".to_string(), true));
    assert_eq!(get_fetch_url("dQw4w9WgXcQ"), ("https://www.youtube.com/watch?v=dQw4w9WgXcQ".to_string(), false));
    assert_eq!(build_watch_url("a"), "https://www.youtube.com/watch?v=a");
    assert_eq!(build_playlist_url("p"), "https://www.youtube.com/playlist?list=p");
    assert_eq!(build_watch_url_with_playlist("a", "p"), "https://www.youtube.com/watch?v=a&list=p");
    assert_eq!(build_thumbnail_url("a"), "https://i.ytimg.com/vi/a/hq720.jpg");
}

#[test]
fn page_blocks_are_brace_balanced() {
    let html = r#"<script>ytcfg.set({"A":{"B":"x}y"},"C":"q\"}"});var ytInitialData = {"k":[{}]};</script>"#;
    assert_eq!(ytcfg_json(html).unwrap(), r#"{"A":{"B":"x}y"},"C":"q\"}"}"#);
    assert_eq!(yt_initial_data_json(html).unwrap(), r#"{"k":[{}]}"#);
    match ytcfg_json("nothing here") {
        Err(MusicFreeError::ConfigParseError(m)) => assert_eq!(m, "ytcfg.set not found"),
        other => panic!("unexpected: {:?}", other),
    }
    match ytcfg_json("ytcfg.set({\"a\":1") {
        Err(MusicFreeError::ConfigParseError(m)) => assert_eq!(m, "ytcfg end not found"),
        other => panic!("unexpected: {:?}", other),
    }
    let page = "var ytInitialPlayerResponse = null; var ytInitialPlayerResponse = {\"a\":{}}; x";
    assert_eq!(player_response_candidates(page), vec!["{\"a\":{}}".to_string()]);
}

#[test]
fn player_script_url() {
    let html = r#"<script src="/s/player/abc/base.js" nonce="x" name="player/base"></script>"#;
    assert_eq!(get_player_url(html).as_deref(), Some("https://www.youtube.com/s/player/abc/base.js"));
    assert_eq!(get_player_url("<script></script>"), None);
}

#[test]
fn stream_headers_follow_persona() {
    let web = media_headers(true);
    assert_eq!(web[0].0, "user-agent");
    assert!(web[0].1.contains("Chrome"));
    assert_eq!(web[1], ("range".to_string(), "bytes=0-".to_string()));
    assert_eq!(watch_page_headers()[1], ("cookie".to_string(), "CONSENT=YES+cb; SOCS=CAI".to_string()));
    let android = media_headers(false);
    assert!(android[0].1.starts_with("com.google.android.youtube"));
}
