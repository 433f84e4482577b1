use youtuibe::builder::{
    adjust_builder, adjust_setting, builder_edit, builder_values, commit_option_edit,
    option_edit_value, parse_seconds_ms, set_setting_text, setting_edit, setting_values,
    BuilderAction, SettingAction,
};
use youtuibe::model::{DownloadOptions, MediaMode, Quality, Settings};
use youtuibe::screen::EditTarget;

#[test]
fn audio_mode_embeds_cover_and_metadata() {
    let mut o = DownloadOptions { embed_thumbnail: false, metadata: false, ..Default::default() };
    let action = adjust_builder(&mut o, 0, true, &Quality::Best);
    assert_eq!(o.mode, MediaMode::Audio);
    assert!(o.embed_thumbnail && o.metadata);
    assert!(matches!(action, BuilderAction::Notice(n) if n.starts_with("Audio mode")));
    let action = adjust_builder(&mut o, 9, true, &Quality::Best);
    assert!(o.embed_thumbnail);
    assert!(matches!(action, BuilderAction::Notice("Cover art is automatic for audio-only downloads")));
}

#[test]
fn quality_row_offers_the_screen_cap_first() {
    let mut o = DownloadOptions { quality: Quality::Smallest, ..Default::default() };
    let screen = Quality::Screen { width: 2560, height: 1440 };
    adjust_builder(&mut o, 1, true, &screen);
    assert!(matches!(o.quality, Quality::Screen { width: 2560, height: 1440 }));
    adjust_builder(&mut o, 1, true, &screen);
    assert!(matches!(o.quality, Quality::Best));
    adjust_builder(&mut o, 1, false, &Quality::Best);
    assert!(matches!(o.quality, Quality::Smallest));
}

#[test]
fn builder_rows_toggle_cycle_and_open_dialogs() {
    let mut o = DownloadOptions::default();
    adjust_builder(&mut o, 2, true, &Quality::Best);
    assert_eq!(o.video_container, "mp4");
    adjust_builder(&mut o, 3, false, &Quality::Best);
    assert_eq!(o.audio_format, "vorbis");
    adjust_builder(&mut o, 4, true, &Quality::Best);
    assert!(o.playlist);
    assert!(matches!(adjust_builder(&mut o, 20, true, &Quality::Best), BuilderAction::Edit("Advanced yt-dlp arguments", EditTarget::RawArgs)));
    assert!(matches!(adjust_builder(&mut o, 21, true, &Quality::Best), BuilderAction::Explorer));
    assert!(matches!(builder_edit(6), Some(("Subtitle languages", EditTarget::SubtitleLanguages))));
    assert!(builder_edit(0).is_none());
    let values = builder_values(&o);
    assert_eq!(values.len(), 22);
    assert_eq!(values[0], ("Media", "Video".to_string()));
    assert_eq!(values[4].1, "on");
    assert_eq!(values[20].1, "none");
    assert_eq!(values[21].1, "search reference…");
}

#[test]
fn dialogs_edit_options() {
    let mut o = DownloadOptions::default();
    assert!(commit_option_edit(&mut o, EditTarget::DateAfter, "20240101".into()));
    assert_eq!(option_edit_value(&o, EditTarget::DateAfter).unwrap(), "20240101");
    assert!(!commit_option_edit(&mut o, EditTarget::Url, "x".into()));
    assert!(option_edit_value(&o, EditTarget::Setting(3)).is_none());
}

#[test]
fn typed_settings_are_parsed_and_clamped() {
    let mut s = Settings::default();
    set_setting_text(&mut s, 2, "20".into());
    assert_eq!(s.max_parallel_downloads, 8);
    set_setting_text(&mut s, 3, "zero".into());
    assert_eq!(s.concurrent_fragments, 4);
    set_setting_text(&mut s, 19, "none".into());
    assert_eq!(s.proxy, "");
    set_setting_text(&mut s, 19, "http://p".into());
    assert_eq!(s.proxy, "http://p");
    set_setting_text(&mut s, 9, "Yes".into());
    assert!(s.use_aria2);
    set_setting_text(&mut s, 26, "45".into());
    assert_eq!(s.socket_timeout, 45);
    set_setting_text(&mut s, 27, "1.5".into());
    assert_eq!(s.sleep_requests_ms, 1500);
    set_setting_text(&mut s, 0, "/data/videos".into());
    assert_eq!(s.output_dir, "/data/videos");
    assert_eq!(parse_seconds_ms("0.25"), Some(250));
    assert_eq!(parse_seconds_ms(".5"), Some(500));
    assert_eq!(parse_seconds_ms("+2"), Some(2000));
    assert_eq!(parse_seconds_ms("1.23456"), Some(1234));
    assert_eq!(parse_seconds_ms("."), None);
    assert_eq!(parse_seconds_ms("1e3"), None);
}

#[test]
fn stepping_settings_respects_bounds_and_tools() {
    let mut s = Settings { max_parallel_downloads: 8, ..Settings::default() };
    assert!(matches!(adjust_setting(&mut s, 2, true, true), SettingAction::Done));
    assert_eq!(s.max_parallel_downloads, 8);
    let mut s = Settings { use_aria2: false, ..Settings::default() };
    assert!(matches!(adjust_setting(&mut s, 9, true, false), SettingAction::Error(_)));
    assert!(!s.use_aria2);
    assert!(matches!(adjust_setting(&mut s, 9, true, true), SettingAction::Done));
    assert!(s.use_aria2);
    assert!(matches!(adjust_setting(&mut s, 0, true, true), SettingAction::Edit));
    let values = setting_values(&s);
    assert_eq!(values.len(), 28);
    assert_eq!(values[27], ("Sleep requests", "0.25".to_string()));
    assert_eq!(values[7].1, "none");
    let (title, initial, secret) = setting_edit(&s, 18).unwrap();
    assert_eq!(title, "Cookies file");
    assert_eq!(initial, "");
    assert!(secret);
    assert!(setting_edit(&s, 28).is_none());
}

#[test]
fn stepping_a_row_forward_then_back_restores_the_options() {
    let screen = Quality::Screen { width: 1920, height: 1080 };
    for row in 1..=16 {
        let mut o = DownloadOptions { audio_format: "flac".into(), video_container: "mkv".into(), ..Default::default() };
        adjust_builder(&mut o, row, true, &screen);
        adjust_builder(&mut o, row, false, &screen);
        assert_eq!(builder_values(&o), builder_values(&DownloadOptions { audio_format: "flac".into(), video_container: "mkv".into(), ..Default::default() }), "row {row}");
        adjust_builder(&mut o, row, false, &screen);
        adjust_builder(&mut o, row, true, &screen);
        assert_eq!(builder_values(&o), builder_values(&DownloadOptions { audio_format: "flac".into(), video_container: "mkv".into(), ..Default::default() }), "row {row}");
    }
}
