use youtuibe::formats::SearchFormatChoice;
use youtuibe::model::{DownloadOptions, MediaMode, Quality, Settings};
use youtuibe::search::{
    configured_search_options, failure_message, has_subtitles, inspect_args, preferred_subtitle,
    probe_timeout, search_args, search_result, search_results, subtitle_label, SearchEntry,
    SearchThumbnail, SubtitleKeys,
};

fn entry() -> SearchEntry {
    SearchEntry {
        id: "abc123".into(),
        title: "A result".into(),
        uploader: String::new(),
        channel: "Channel".into(),
        duration: Some(91),
        url: "abc123".into(),
        webpage_url: String::new(),
        thumbnails: vec![
            SearchThumbnail { url: "https://img.test/s.jpg".into(), width: Some(120), height: Some(90) },
            SearchThumbnail { url: "https://img.test/l.jpg".into(), width: Some(480), height: Some(360) },
        ],
        view_count: Some(1200),
        live_status: String::new(),
    }
}

#[test]
fn search_maps_flat_playlist_results() {
    let results = search_results(&vec![entry()]);
    assert_eq!(results.len(), 1);
    assert_eq!(results[0].url, "https://www.youtube.com/watch?v=abc123");
    assert_eq!(results[0].uploader, "Channel");
    assert_eq!(results[0].thumbnail_url, "https://img.test/l.jpg");
    assert_eq!(results[0].duration, Some(91));
}

#[test]
fn entries_without_details_get_fallbacks() {
    let e = SearchEntry { title: String::new(), thumbnails: vec![], url: "https://other.test/v".into(), ..entry() };
    let r = search_result(&e);
    assert_eq!(r.title, "Video abc123");
    assert_eq!(r.thumbnail_url, "https://i.ytimg.com/vi/abc123/hqdefault.jpg");
    assert_eq!(r.url, "https://other.test/v");
    let page = SearchEntry { webpage_url: "https://page.test".into(), ..entry() };
    assert_eq!(search_result(&page).url, "https://page.test");
}

#[test]
fn search_and_inspect_command_lines() {
    let settings = Settings { proxy: "socks5://p".into(), ..Settings::default() };
    let args = search_args(&settings, "  rust tui ", 80);
    assert_eq!(args.last().unwrap(), "ytsearch50:rust tui");
    assert_eq!(args[0], "--proxy");
    assert!(args.windows(2).any(|w| w[0] == "--socket-timeout" && w[1] == "30"));
    assert_eq!(search_args(&settings, "q", 0).last().unwrap(), "ytsearch1:q");
    let inspect = inspect_args(&Settings::default(), "https://x.test");
    assert_eq!(
        inspect,
        vec!["--ignore-config", "--dump-single-json", "--no-warnings", "--playlist-items", "1", "--", "https://x.test"]
    );
    assert_eq!(probe_timeout(30), 60);
    assert_eq!(probe_timeout(3), 20);
    assert_eq!(probe_timeout(u64::MAX), 60);
    assert_eq!(failure_message("  boom \n", "yt-dlp exited with ", "exit status: 1"), "boom");
    assert_eq!(failure_message(" ", "yt-dlp exited with ", "exit status: 1"), "yt-dlp exited with exit status: 1");
}

fn keys(manual: &[&str], automatic: &[&str]) -> SubtitleKeys {
    SubtitleKeys {
        manual: manual.iter().map(|s| s.to_string()).collect(),
        automatic: automatic.iter().map(|s| s.to_string()).collect(),
    }
}

#[test]
fn subtitles_prefer_manual_english() {
    let k = keys(&["de", "en-US", "live_chat"], &["en"]);
    assert!(has_subtitles(&k));
    assert_eq!(subtitle_label(Some(&k)), "2 manual + 1 auto languages");
    assert_eq!(preferred_subtitle(Some(&k)), (true, false, "en-US".to_string()));
    let auto = keys(&["live_chat"], &["fr", "es"]);
    assert_eq!(preferred_subtitle(Some(&auto)), (false, true, "fr".to_string()));
    assert_eq!(subtitle_label(Some(&auto)), "2 auto languages");
    let none = keys(&["live_chat"], &[]);
    assert!(!has_subtitles(&none));
    assert_eq!(subtitle_label(Some(&none)), "unavailable");
    assert_eq!(subtitle_label(None), "unavailable");
}

fn choice(id: &str) -> SearchFormatChoice {
    SearchFormatChoice { format_id: id.into(), label: id.into(), detail: String::new() }
}

#[test]
fn chosen_levels_set_mode_and_format() {
    let base = DownloadOptions::default();
    let k = keys(&["en"], &[]);
    let video = vec![choice(""), choice("137")];
    let audio = vec![choice(""), choice("251")];
    let both = configured_search_options(&base, Some(&k), &video, 1, &audio, 1, true).unwrap();
    assert_eq!(both.mode, MediaMode::Video);
    assert!(matches!(both.quality, Quality::Custom(ref q) if q == "137+251/137"));
    assert!(both.subtitles);
    assert_eq!(both.subtitle_languages, "en");
    let video_only = configured_search_options(&base, Some(&k), &video, 1, &audio, 0, false).unwrap();
    assert_eq!(video_only.mode, MediaMode::VideoOnly);
    assert!(!video_only.subtitles);
    let audio_only = configured_search_options(&base, Some(&k), &video, 0, &audio, 1, false).unwrap();
    assert_eq!(audio_only.mode, MediaMode::Audio);
    assert_eq!(audio_only.audio_format, "best");
    assert_eq!(
        configured_search_options(&base, Some(&k), &video, 0, &audio, 0, false).unwrap_err(),
        "Choose at least video or audio before downloading"
    );
    let untouched = configured_search_options(&base, None, &video, 0, &audio, 0, true).unwrap();
    assert_eq!(untouched.mode, MediaMode::Video);
    assert!(matches!(untouched.quality, Quality::Best));
}
