use youtuibe::formats::{format_choices, none_choice, text_lt, FormatFacts};

/// An integer that orders floating-point numbers as `f64::total_cmp` does.
fn order_key(x: f64) -> u64 {
    let b = x.to_bits();
    if b >> 63 == 1 {
        !b
    } else {
        b | (1 << 63)
    }
}

fn facts(id: &str, ext: &str, vcodec: &str, acodec: &str, width: Option<u32>, height: Option<u32>, fps: Option<f64>, tbr: Option<f64>, abr: Option<f64>) -> FormatFacts {
    let rate = abr.or(tbr).unwrap_or(0.0);
    FormatFacts {
        format_id: id.into(),
        ext: ext.into(),
        vcodec: vcodec.into(),
        acodec: acodec.into(),
        width,
        height,
        language: String::new(),
        note: String::new(),
        audio_channels: None,
        video_score: order_key(tbr.unwrap_or(0.0) + fps.unwrap_or(0.0)),
        fps_label: fps.filter(|f| *f > 30.0).map_or_else(String::new, |f| format!("{}fps", f.round())),
        bitrate_text: tbr.map_or_else(|| "bitrate unknown".into(), |r| format!("{r:.0}k")),
        size_text: "size unknown".into(),
        audio_rate: order_key(rate),
        rate_label: if rate > 0.0 { Some(format!("{}k", rate.round())) } else { None },
    }
}

#[test]
fn search_sliders_use_only_available_media_levels() {
    let formats = vec![
        facts("v720", "webm", "vp9", "none", Some(1280), Some(720), Some(30.0), Some(1200.0), None),
        facts("v1080", "webm", "av01.0", "none", Some(1920), Some(1080), Some(60.0), Some(2200.0), None),
        facts("a128", "m4a", "none", "mp4a.40.2", None, None, None, None, Some(128.0)),
    ];
    let (video, audio) = format_choices(&formats);
    assert_eq!(video[0].label, "None");
    assert_eq!(video[1].format_id, "v720");
    assert_eq!(video[2].format_id, "v1080");
    assert_eq!(audio[0].label, "None");
    assert_eq!(audio[1].format_id, "a128");
}

#[test]
fn video_levels_are_labelled_and_detailed() {
    let formats = vec![
        facts("v1080", "webm", "av01.0", "none", Some(1920), Some(1080), Some(60.0), Some(2200.0), None),
        facts("v1080b", "mp4", "avc1.64", "none", Some(1920), Some(1080), Some(30.0), Some(1000.0), None),
        facts("muxed", "mp4", "avc1", "mp4a", Some(640), Some(360), Some(30.0), Some(700.0), None),
    ];
    let (video, _) = format_choices(&formats);
    assert_eq!(video.len(), 2);
    assert_eq!(video[1].format_id, "v1080");
    assert_eq!(video[1].label, "1080p60fps");
    assert_eq!(video[1].detail, "1920×1080 · AV1 · 2200k · size unknown");
}

#[test]
fn muxed_formats_count_when_no_video_only_stream_exists() {
    let formats = vec![
        facts("b", "mp4", "avc1", "mp4a", Some(1280), Some(720), Some(30.0), Some(900.0), None),
        facts("a", "mp4", "avc1", "mp4a", Some(640), Some(360), Some(30.0), Some(500.0), None),
    ];
    let (video, _) = format_choices(&formats);
    assert_eq!(video.len(), 3);
    assert_eq!(video[1].format_id, "a");
    assert_eq!(video[2].format_id, "b");
    assert_eq!(video[2].detail, "1280×720 · H.264 · 900k · size unknown");
}

#[test]
fn audio_levels_sort_by_rate_and_skip_duplicate_labels() {
    let mut original = facts("o", "webm", "none", "opus", None, None, None, None, Some(160.0));
    original.language = "en".into();
    original.note = "English (Original)".into();
    let mut dubbed = facts("d", "webm", "none", "opus", None, None, None, None, Some(70.0));
    dubbed.language = "de".into();
    let mut low = facts("l", "m4a", "none", "mp4a.40.5", None, None, None, None, Some(48.0));
    low.language = "en".into();
    let mut twin = facts("t", "webm", "none", "opus", None, None, None, None, Some(160.0));
    twin.language = "en".into();
    twin.audio_channels = Some(6);
    let (_, audio) = format_choices(&vec![original, dubbed, low, twin]);
    let ids: Vec<&str> = audio.iter().map(|c| c.format_id.as_str()).collect();
    assert_eq!(ids, vec!["", "l", "o"]);
    assert_eq!(audio[1].label, "48k AAC");
    assert_eq!(audio[1].detail, "m4a · en · 2 channels · size unknown");
    assert_eq!(audio[2].label, "160k Opus");
}

#[test]
fn none_stop_comes_first() {
    let v = none_choice();
    assert_eq!(v.len(), 1);
    assert_eq!(v[0].format_id, "");
    assert_eq!(v[0].detail, "Do not download this stream");
}

#[test]
fn text_order_is_by_character_code() {
    assert!(text_lt("a", "b"));
    assert!(text_lt("ab", "abc"));
    assert!(!text_lt("b", "abc"));
    assert!(!text_lt("x", "x"));
    assert!(text_lt("Z", "a"));
}
