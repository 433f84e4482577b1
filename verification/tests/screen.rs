use youtuibe::labels::{
    codec, codec_name, compact_error, cycle_mode, cycle_quality, cycle_str, duration_of, mode_name,
    quality_name,
};
use youtuibe::model::{MediaMode, Quality};
use youtuibe::screen::{
    boolish, builder_rows, clip, empty, none, on, setting_rows, slider_position, slider_step, step,
    tab_caption, Tab,
};

#[test]
fn tabs_know_their_position_and_neighbours() {
    for (i, t) in Tab::ALL.iter().enumerate() {
        assert_eq!(t.index(), i);
        assert_eq!(t.next().previous(), *t);
    }
    assert_eq!(Tab::Help.next(), Tab::Download);
    assert_eq!(Tab::Download.previous(), Tab::Help);
    assert_eq!(Tab::for_digit('3'), Some(Tab::Queue));
    assert_eq!(Tab::for_digit('9'), Some(Tab::Help));
    assert_eq!(Tab::for_digit('x'), None);
    assert_eq!(tab_caption(Tab::Search), "⌕ Search");
}

#[test]
fn table_rows_are_labelled() {
    assert_eq!(builder_rows().len(), 22);
    assert_eq!(builder_rows()[20], "Extra arguments");
    assert_eq!(setting_rows().len(), 28);
    assert_eq!(setting_rows()[27], "Sleep requests");
}

#[test]
fn sliders_stay_on_their_track() {
    assert_eq!(slider_step(0, 0, true), 0);
    assert_eq!(slider_step(2, 3, true), 2);
    assert_eq!(slider_step(0, 3, false), 0);
    assert_eq!(slider_step(1, 3, false), 0);
    assert_eq!(slider_position(0, 5, 41), 0);
    assert_eq!(slider_position(4, 5, 41), 40);
    assert_eq!(slider_position(2, 5, 41), 20);
    assert_eq!(slider_position(3, 1, 41), 0);
    assert_eq!(step(8, 1, 8, true), 8);
    assert_eq!(step(1, 1, 8, false), 1);
    assert_eq!(step(0, 1, 8, false), 1);
}

#[test]
fn values_show_switches_and_blanks() {
    assert_eq!(on(true), "on");
    assert_eq!(on(false), "off");
    assert_eq!(empty(""), "none");
    assert_eq!(empty("x"), "x");
    assert_eq!(none("none".into()), "");
    assert_eq!(none("5M".into()), "5M");
    assert!(boolish("YES"));
    assert!(boolish("1"));
    assert!(!boolish("nope"));
    assert_eq!(clip("abcdef", 4), "abc…");
    assert_eq!(clip("abc", 4), "abc");
}

#[test]
fn names_of_values() {
    assert_eq!(quality_name(&Quality::Screen { width: 1920, height: 1080 }), "screen ≤1920×1080");
    assert_eq!(quality_name(&Quality::P720), "≤720p");
    assert_eq!(quality_name(&Quality::Custom("251".into())), "251");
    assert_eq!(mode_name(MediaMode::VideoOnly), "VideoOnly");
    assert_eq!(codec_name("av01.0.08M"), "AV1");
    assert_eq!(codec_name("mp4a.40.2"), "AAC");
    assert_eq!(codec_name(""), "unknown");
    assert_eq!(codec_name("theora"), "THEORA");
    assert_eq!(codec("none", "opus"), "audio opus");
    assert_eq!(codec("vp9", "none"), "video vp9");
    assert_eq!(codec("vp9", "opus"), "vp9 + opus");
    assert_eq!(duration_of(0), "unknown duration");
    assert_eq!(duration_of(3725), "1:02:05");
}

#[test]
fn errors_are_compacted_to_one_short_line() {
    assert_eq!(compact_error("  a \n b\tc  "), "a b c");
    let long = "x".repeat(200);
    let c = compact_error(&long);
    assert_eq!(c.chars().count(), 181);
    assert!(c.ends_with('…'));
}

#[test]
fn cycling_wraps_around() {
    let modes = [MediaMode::Video, MediaMode::Audio, MediaMode::VideoOnly, MediaMode::MetadataOnly];
    assert_eq!(cycle_mode(&modes, MediaMode::MetadataOnly, true), MediaMode::Video);
    assert_eq!(cycle_mode(&modes, MediaMode::Video, false), MediaMode::MetadataOnly);
    assert_eq!(cycle_str(&["auto", "mp4", "mkv"], "mkv", true), "auto");
    assert_eq!(cycle_str(&["auto", "mp4", "mkv"], "other", true), "mp4");
    let qs = vec![Quality::Best, Quality::P720, Quality::P360];
    assert!(matches!(cycle_quality(&qs, &Quality::P720, true), Quality::P360));
    assert!(matches!(cycle_quality(&qs, &Quality::Custom("x".into()), false), Quality::P360));
}
