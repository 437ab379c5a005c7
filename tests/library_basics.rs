use musicfree::cli::{
    filter_playlist_items, format_display_format, format_duration, get_cover_filename, get_filename, parse_format,
    parse_playlist_items,
};
use musicfree::error::{check_media_status, check_status, MusicFreeError};
use musicfree::file::FileExtractor;
use musicfree::model::{Audio, AudioFormat, Platform, Playlist, Quality};
use musicfree::utils::get_md5;
use musicfree::{detect_site, platform_for, sanitize_filename, Site};

#[test]
fn sites_are_detected_in_order() {
    assert_eq!(detect_site("https://www.bilibili.com/video/BV1xx411c7mD").unwrap(), Site::Bilibili);
    assert_eq!(detect_site("https://youtu.be/dQw4w9WgXcQ").unwrap(), Site::YouTube);
    match detect_site("https://example.com") {
        Err(MusicFreeError::UnsupportedSite(u)) => assert_eq!(u, "https://example.com"),
        other => panic!("unexpected: {:?}", other),
    }
}

#[test]
fn registry_first_match_wins() {
    assert_eq!(platform_for("BV1xx411c7mD").unwrap(), Platform::Bilibili);
    assert_eq!(platform_for("https://www.youtube.com/watch?v=dQw4w9WgXcQ").unwrap(), Platform::Youtube);
    assert_eq!(platform_for("https://cdn.example.com/a/song.flac").unwrap(), Platform::File);
    assert!(matches!(platform_for("https://example.com/page"), Err(MusicFreeError::ExtractorNotFound(_))));
}

#[test]
fn filenames_are_sanitized() {
    assert_eq!(sanitize_filename("a/b\\c:d*e?f\"g<h>i|j"), "a_b_c_d_e_f_g_h_i_j");
    assert_eq!(sanitize_filename("plain"), "plain");
}

#[test]
fn formats_and_extensions() {
    assert_eq!(AudioFormat::Flac.extension(), ".flac");
    assert_eq!(AudioFormat::from_youtube("audio/webm; codecs=opus"), AudioFormat::Webm);
    assert_eq!(AudioFormat::from_youtube("audio/mp4"), AudioFormat::Mp4);
    assert_eq!(parse_format("MP3"), Some(AudioFormat::Mp3));
    assert_eq!(parse_format("Ogg"), Some(AudioFormat::Ogg));
    assert_eq!(parse_format("webm"), None);
    assert_eq!(format_display_format(&Some(AudioFormat::M4A)), "M4A");
    assert_eq!(format_display_format(&None), "Unknown");
    assert_eq!(Quality::default(), Quality::Super);
}

#[test]
fn durations_are_minutes_and_padded_seconds() {
    assert_eq!(format_duration(0), "0:00");
    assert_eq!(format_duration(65), "1:05");
    assert_eq!(format_duration(3600), "60:00");
}

#[test]
fn track_builders() {
    let a = Audio::new("id".into(), "t".into(), "u".into(), Platform::File)
        .with_format(AudioFormat::Wav)
        .with_cover("c".into())
        .with_duration(9);
    assert_eq!(a.format, Some(AudioFormat::Wav));
    assert_eq!(a.cover.as_deref(), Some("c"));
    assert_eq!(a.duration, Some(9));
    let p = Playlist::new("list".into(), Platform::Youtube);
    assert!(p.audios.is_empty());
    assert_eq!(p.title.as_deref(), Some("list"));
}

#[test]
fn output_file_names() {
    let a = Audio::new("42".into(), "A/B".into(), "u".into(), Platform::File).with_format(AudioFormat::M4A);
    assert_eq!(get_filename(&a, &Some("song.mp3".to_string())), "song.m4a");
    assert_eq!(get_filename(&a, &None), "AB.m4a");
    assert_eq!(get_cover_filename(&a, &Some("dir/pic.png".to_string())), "pic.jpg");
    assert_eq!(get_cover_filename(&a, &None), "AB_42.jpg");
}

#[test]
fn md5_identifiers() {
    assert_eq!(get_md5(""), "d41d8cd98f00b204e9800998ecf8427e");
    assert_eq!(get_md5("hello"), "5d41402abc4b2a76b9719d911017c592");
}

#[test]
fn direct_files() {
    let f = FileExtractor;
    assert!(f.matches("https://cdn.example.com/a/song.mp3"));
    assert!(!f.matches("ftp://cdn.example.com/a/song.mp3"));
    assert!(!f.matches("https://cdn.example.com/a/page.html"));
    assert_eq!(FileExtractor::basename("https://cdn.example.com/a/song.ogg//"), "song.ogg");
    let (pl, pos) = f.extract("https://cdn.example.com/a/song.ogg");
    assert_eq!(pl.audios[0].title, "song");
    assert_eq!(pl.audios[0].format, Some(AudioFormat::Ogg));
    assert_eq!(pl.audios[0].id, get_md5("https://cdn.example.com/a/song.ogg"));
    assert_eq!(pos, Some(0));
}

#[test]
fn status_checks() {
    assert!(check_status(204, "u").is_ok());
    assert!(matches!(check_status(404, "u"), Err(MusicFreeError::HttpError { status: 404, .. })));
    assert!(check_media_status(206, "u").is_ok());
    assert!(matches!(check_media_status(204, "u"), Err(MusicFreeError::HttpError { status: 204, .. })));
}

#[test]
fn playlist_item_selection() {
    assert_eq!(parse_playlist_items("1,3-5,7").unwrap(), vec![1, 3, 4, 5, 7]);
    assert_eq!(parse_playlist_items(" 2 , 2-3 ").unwrap(), vec![2, 3]);
    assert_eq!(parse_playlist_items("0").unwrap_err(), "Playlist indices must start from 1");
    assert_eq!(parse_playlist_items("5-3").unwrap_err(), "Invalid range: 5 > 3");
    assert_eq!(parse_playlist_items("1-2-3").unwrap_err(), "Invalid range format: 1-2-3");
    assert_eq!(parse_playlist_items("a").unwrap_err(), "Invalid number: a");
    assert_eq!(parse_playlist_items("x - 2").unwrap_err(), "Invalid number in range: x ");
    assert_eq!(parse_playlist_items("").unwrap_err(), "Invalid number: ");
}

#[test]
fn playlist_item_filtering() {
    let audios: Vec<Audio> = (1..=3)
        .map(|i| Audio::new(i.to_string(), format!("t{i}"), "u".into(), Platform::File))
        .collect();
    let (kept, skipped) = filter_playlist_items(audios.clone(), "3,2,9").unwrap();
    let ids: Vec<&str> = kept.iter().map(|a| a.id.as_str()).collect();
    assert_eq!(ids, vec!["2", "3"]);
    assert_eq!(skipped, vec![9]);
    assert_eq!(filter_playlist_items(audios, "8").unwrap_err(), "No valid items selected from playlist");
}
