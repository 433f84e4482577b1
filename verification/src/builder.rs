//! The download builder and the settings table: what stepping or editing a
//! row does to the options or settings, and how each row's value is shown.
use crate::labels::{
    cycle_mode, cycle_position, cycle_quality, cycle_str, first_match, mode_name, mode_text,
    quality_name, quality_text,
};
use crate::model::{
    DownloadOptions, MediaMode, OptionsView, Quality, QualityView, Settings, SettingsView,
};
use crate::ytdlp::{seconds_string, seconds_text};
use crate::argv::clamp;
use crate::screen::{
    boolish, builder_labels, builder_rows, empty, empty_text, none, none_text, on, on_text,
    setting_labels, setting_rows, spec_boolish, spec_step, step, EditTarget,
};
use crate::text::{
    all_digits, chars_of, decimal, digits_value, find_char, find_char_in, lemma_find_char, owned,
    parse_u64, spec_decimal, spec_parse_u64, string_between,
};
use vstd::prelude::*;

verus! {

/// What stepping a builder row asks of the screen besides changing options.
#[derive(Clone, Copy, Debug)]
pub enum BuilderAction {
    /// Nothing more.
    Done,
    /// Show this notice.
    Notice(&'static str),
    /// Open a text dialog with this title for this value.
    Edit(&'static str, EditTarget),
    /// Open the yt-dlp option reference.
    Explorer,
}

/// The media modes the builder cycles through.
pub open spec fn mode_cycle() -> Seq<MediaMode> {
    seq![MediaMode::Video, MediaMode::Audio, MediaMode::VideoOnly, MediaMode::MetadataOnly]
}

/// The fixed qualities the builder cycles through.
pub open spec fn fixed_qualities() -> Seq<QualityView> {
    seq![
        QualityView::Best,
        QualityView::P2160,
        QualityView::P1440,
        QualityView::P1080,
        QualityView::P720,
        QualityView::P480,
        QualityView::P360,
        QualityView::Smallest,
    ]
}

/// The qualities offered: the screen-capped one first when the screen
/// preset has a size, then the fixed ones.
pub open spec fn quality_cycle(screen: QualityView) -> Seq<QualityView> {
    if screen is Screen {
        seq![screen] + fixed_qualities()
    } else {
        fixed_qualities()
    }
}

/// The containers the builder cycles through.
pub open spec fn container_cycle() -> Seq<Seq<char>> {
    seq!["auto"@, "mp4"@, "mkv"@, "webm"@]
}

/// The audio formats the builder cycles through.
pub open spec fn audio_format_cycle() -> Seq<Seq<char>> {
    seq!["best"@, "mp3"@, "m4a"@, "opus"@, "flac"@, "wav"@, "aac"@, "vorbis"@]
}

/// The choice after (or before) `current` among `items`.
pub open spec fn cycled<T>(items: Seq<T>, current: T, next: bool) -> T {
    items[cycle_position(first_match(items, current), items.len() as int, next)]
}

/// The text dialog a builder row opens for editing, if any: its title and
/// the value it edits.
pub open spec fn builder_edit_spec(row: int) -> Option<(Seq<char>, EditTarget)> {
    if row == 3 {
        Some(("Audio quality (0 best, 10 worst, or bitrate e.g. 192K)"@, EditTarget::AudioQuality))
    } else if row == 4 {
        Some(("Playlist items (e.g. 1:10,15,-1)"@, EditTarget::PlaylistItems))
    } else if 5 <= row <= 7 {
        Some(("Subtitle languages"@, EditTarget::SubtitleLanguages))
    } else if row == 12 {
        Some(("SponsorBlock categories"@, EditTarget::SponsorCategories))
    } else if row == 17 {
        Some(("Only items after date (YYYYMMDD / today-Nweeks)"@, EditTarget::DateAfter))
    } else if row == 18 {
        Some(("Only items before date (YYYYMMDD / today-Nweeks)"@, EditTarget::DateBefore))
    } else if row == 19 {
        Some(("Match filter expression"@, EditTarget::MatchFilter))
    } else if row == 20 {
        Some(("Advanced yt-dlp arguments"@, EditTarget::RawArgs))
    } else {
        None
    }
}

/// The text dialog of a builder row.
pub fn builder_edit(row: usize) -> (r: Option<(&'static str, EditTarget)>)
    ensures
        match builder_edit_spec(row as int) {
            None => r is None,
            Some((title, target)) => r matches Some((t, g)) && t@ == title && g == target,
        },
{
    if row == 3 {
        Some(("Audio quality (0 best, 10 worst, or bitrate e.g. 192K)", EditTarget::AudioQuality))
    } else if row == 4 {
        Some(("Playlist items (e.g. 1:10,15,-1)", EditTarget::PlaylistItems))
    } else if 5 <= row && row <= 7 {
        Some(("Subtitle languages", EditTarget::SubtitleLanguages))
    } else if row == 12 {
        Some(("SponsorBlock categories", EditTarget::SponsorCategories))
    } else if row == 17 {
        Some(("Only items after date (YYYYMMDD / today-Nweeks)", EditTarget::DateAfter))
    } else if row == 18 {
        Some(("Only items before date (YYYYMMDD / today-Nweeks)", EditTarget::DateBefore))
    } else if row == 19 {
        Some(("Match filter expression", EditTarget::MatchFilter))
    } else if row == 20 {
        Some(("Advanced yt-dlp arguments", EditTarget::RawArgs))
    } else {
        None
    }
}

/// The switch a builder row toggles, as the options after the toggle, for
/// the plain switch rows.
#[verifier::opaque]
pub open spec fn toggled(o: OptionsView, row: int) -> OptionsView {
    if row == 4 {
        OptionsView { playlist: !o.playlist, ..o }
    } else if row == 5 {
        OptionsView { subtitles: !o.subtitles, ..o }
    } else if row == 6 {
        OptionsView { auto_subtitles: !o.auto_subtitles, ..o }
    } else if row == 7 {
        OptionsView { embed_subtitles: !o.embed_subtitles, ..o }
    } else if row == 8 {
        OptionsView { thumbnail: !o.thumbnail, ..o }
    } else if row == 9 {
        OptionsView { embed_thumbnail: !o.embed_thumbnail, ..o }
    } else if row == 10 {
        OptionsView { metadata: !o.metadata, ..o }
    } else if row == 11 {
        OptionsView { chapters: !o.chapters, ..o }
    } else if row == 12 {
        OptionsView { sponsorblock: !o.sponsorblock, ..o }
    } else if row == 13 {
        OptionsView { comments: !o.comments, ..o }
    } else if row == 14 {
        OptionsView { info_json: !o.info_json, ..o }
    } else if row == 15 {
        OptionsView { description: !o.description, ..o }
    } else {
        OptionsView { live_from_start: !o.live_from_start, ..o }
    }
}

#[verifier::spinoff_prover]
#[verifier::rlimit(80)]
fn toggle(o: &mut DownloadOptions, row: usize)
    requires
        4 <= row <= 16,
    ensures
        final(o)@ == toggled(old(o)@, row as int),
{
    proof {
        reveal(toggled);
    }
    if row == 4 {
        o.playlist = !o.playlist;
    } else if row == 5 {
        o.subtitles = !o.subtitles;
    } else if row == 6 {
        o.auto_subtitles = !o.auto_subtitles;
    } else if row == 7 {
        o.embed_subtitles = !o.embed_subtitles;
    } else if row == 8 {
        o.thumbnail = !o.thumbnail;
    } else if row == 9 {
        o.embed_thumbnail = !o.embed_thumbnail;
    } else if row == 10 {
        o.metadata = !o.metadata;
    } else if row == 11 {
        o.chapters = !o.chapters;
    } else if row == 12 {
        o.sponsorblock = !o.sponsorblock;
    } else if row == 13 {
        o.comments = !o.comments;
    } else if row == 14 {
        o.info_json = !o.info_json;
    } else if row == 15 {
        o.description = !o.description;
    } else {
        o.live_from_start = !o.live_from_start;
    }
}

/// The options after stepping builder row `row` (forward when `next`);
/// `screen` is the quality of the screen preset.
pub open spec fn stepped_options(o: OptionsView, row: int, next: bool, screen: QualityView) -> OptionsView {
    if row == 0 {
        let m = cycled(mode_cycle(), o.mode, next);
        if m == MediaMode::Audio {
            OptionsView { mode: m, embed_thumbnail: true, metadata: true, ..o }
        } else {
            OptionsView { mode: m, ..o }
        }
    } else if row == 1 {
        OptionsView { quality: cycled(quality_cycle(screen), o.quality, next), ..o }
    } else if row == 2 {
        OptionsView { video_container: cycled(container_cycle(), o.video_container, next), ..o }
    } else if row == 3 {
        OptionsView { audio_format: cycled(audio_format_cycle(), o.audio_format, next), ..o }
    } else if 4 <= row <= 16 && !((row == 9 || row == 10) && o.mode == MediaMode::Audio) {
        toggled(o, row)
    } else {
        o
    }
}

#[verifier::spinoff_prover]
#[verifier::rlimit(80)]
fn step_mode(o: &mut DownloadOptions, next: bool) -> (r: BuilderAction)
    ensures
        final(o)@ == stepped_options(old(o)@, 0, next, QualityView::Best),
        final(o).mode == MediaMode::Audio ==> (r matches BuilderAction::Notice(n) && n@
            == "Audio mode automatically embeds the best thumbnail as cover art"@),
        final(o).mode != MediaMode::Audio ==> r == BuilderAction::Done,
{
    let modes = [MediaMode::Video, MediaMode::Audio, MediaMode::VideoOnly, MediaMode::MetadataOnly];
    assert(modes@ =~= mode_cycle());
    o.mode = cycle_mode(&modes, o.mode, next);
    if o.mode == MediaMode::Audio {
        o.embed_thumbnail = true;
        o.metadata = true;
        BuilderAction::Notice("Audio mode automatically embeds the best thumbnail as cover art")
    } else {
        BuilderAction::Done
    }
}

fn step_quality(o: &mut DownloadOptions, next: bool, screen: &Quality)
    ensures
        final(o)@ == stepped_options(old(o)@, 1, next, screen@),
{
    let mut qualities: Vec<Quality> = Vec::new();
    if let Quality::Screen { .. } = screen {
        qualities.push(screen.duplicate());
    }
    qualities.push(Quality::Best);
    qualities.push(Quality::P2160);
    qualities.push(Quality::P1440);
    qualities.push(Quality::P1080);
    qualities.push(Quality::P720);
    qualities.push(Quality::P480);
    qualities.push(Quality::P360);
    qualities.push(Quality::Smallest);
    assert(qualities@.map_values(|q: Quality| q@) =~= quality_cycle(screen@));
    o.quality = cycle_quality(&qualities, &o.quality, next);
}

fn step_text(o: &mut DownloadOptions, row: usize, next: bool)
    requires
        row == 2 || row == 3,
    ensures
        final(o)@ == stepped_options(old(o)@, row as int, next, QualityView::Best),
{
    if row == 2 {
        let items = ["auto", "mp4", "mkv", "webm"];
        assert(items@.map_values(|s: &str| s@) =~= container_cycle()) by {
            reveal_strlit("auto");
        }
        o.video_container = cycle_str(&items, o.video_container.as_str(), next);
    } else {
        let items = ["best", "mp3", "m4a", "opus", "flac", "wav", "aac", "vorbis"];
        assert(items@.map_values(|s: &str| s@) =~= audio_format_cycle());
        o.audio_format = cycle_str(&items, o.audio_format.as_str(), next);
    }
}

/// Steps builder row `row` forward (or back), given the quality of the
/// screen preset, and says what else the screen should do.
pub fn adjust_builder(options: &mut DownloadOptions, row: usize, next: bool, screen: &Quality) -> (r:
    BuilderAction)
    ensures
        final(options)@ == stepped_options(old(options)@, row as int, next, screen@),
        (row == 0 && final(options).mode == MediaMode::Audio) ==> (r matches BuilderAction::Notice(n)
            && n@ == "Audio mode automatically embeds the best thumbnail as cover art"@),
        (row == 0 && final(options).mode != MediaMode::Audio) ==> r == BuilderAction::Done,
        (row == 9 && old(options).mode == MediaMode::Audio) ==> (r matches BuilderAction::Notice(n)
            && n@ == "Cover art is automatic for audio-only downloads"@),
        (row == 10 && old(options).mode == MediaMode::Audio) ==> (r matches BuilderAction::Notice(n)
            && n@ == "Metadata is automatic for audio-only downloads"@),
        (1 <= row <= 16 && !((row == 9 || row == 10) && old(options).mode == MediaMode::Audio))
            ==> r == BuilderAction::Done,
        17 <= row <= 20 ==> match builder_edit_spec(row as int) {
            Some((title, target)) => r matches BuilderAction::Edit(t, g) && t@ == title && g
                == target,
            None => false,
        },
        row == 21 ==> r == BuilderAction::Explorer,
        row > 21 ==> r == BuilderAction::Done,
{
    if row == 0 {
        step_mode(options, next)
    } else if row == 1 {
        step_quality(options, next, screen);
        BuilderAction::Done
    } else if row == 2 || row == 3 {
        step_text(options, row, next);
        BuilderAction::Done
    } else if row == 9 && options.mode == MediaMode::Audio {
        BuilderAction::Notice("Cover art is automatic for audio-only downloads")
    } else if row == 10 && options.mode == MediaMode::Audio {
        BuilderAction::Notice("Metadata is automatic for audio-only downloads")
    } else if row <= 16 {
        toggle(options, row);
        BuilderAction::Done
    } else if row <= 20 {
        match builder_edit(row) {
            Some((t, g)) => BuilderAction::Edit(t, g),
            None => BuilderAction::Done,
        }
    } else if row == 21 {
        BuilderAction::Explorer
    } else {
        BuilderAction::Done
    }
}


/// What `str::parse::<usize>` returns.
pub open spec fn spec_parse_usize(s: Seq<char>) -> Option<usize> {
    match spec_parse_u64(s) {
        Some(n) => if n <= usize::MAX {
            Some(n as usize)
        } else {
            None
        },
        None => None,
    }
}

/// Reads an unsigned count, as `str::parse::<usize>` does.
pub fn parse_usize(s: &str) -> (r: Option<usize>)
    ensures
        r == spec_parse_usize(s@),
{
    match parse_u64(s) {
        Some(n) => if n <= usize::MAX as u64 {
            Some(n as usize)
        } else {
            None
        },
        None => None,
    }
}

/// The milliseconds in the first three fractional digits `f` of a number of
/// seconds (later digits are dropped).
pub open spec fn fraction_ms(f: Seq<char>) -> nat {
    if f.len() == 0 {
        0
    } else if f.len() == 1 {
        digits_value(f) * 100
    } else if f.len() == 2 {
        digits_value(f) * 10
    } else {
        digits_value(f.take(3))
    }
}

/// A number of seconds written in decimal notation (an optional `+`,
/// digits, and optionally a point and more digits, with at least one digit),
/// as whole milliseconds; `None` for any other text or a value too large.
pub open spec fn spec_seconds_ms(s: Seq<char>) -> Option<u64> {
    let body = if s.len() > 0 && s[0] == '+' {
        s.drop_first()
    } else {
        s
    };
    let (ip, fp, has_point) = match find_char(body, '.') {
        Some(i) => (body.take(i), body.skip(i + 1), true),
        None => (body, Seq::<char>::empty(), false),
    };
    if (ip.len() > 0 || fp.len() > 0) && all_digits(ip) && all_digits(fp) && digits_value(ip)
        * 1000 + fraction_ms(fp) <= u64::MAX {
        Some((digits_value(ip) * 1000 + fraction_ms(fp)) as u64)
    } else {
        None
    }
}

fn digits_only(v: &Vec<char>, from: usize, to: usize) -> (r: Option<u64>)
    requires
        from <= to <= v@.len(),
    ensures
        ({
            let t = v@.subrange(from as int, to as int);
            match r {
                Some(n) => all_digits(t) && n == digits_value(t),
                None => !all_digits(t) || digits_value(t) > u64::MAX,
            }
        }),
{
    let w = string_between(v, from, to);
    if from < to && v[from] == '+' {
        assert(!crate::text::is_digit(v@.subrange(from as int, to as int)[0]));
        return None;
    }
    if from == to {
        assert(v@.subrange(from as int, to as int) =~= Seq::<char>::empty());
        return Some(0);
    }
    parse_u64(w.as_str())
}

/// Reads a number of seconds as whole milliseconds.
pub fn parse_seconds_ms(s: &str) -> (r: Option<u64>)
    ensures
        r == spec_seconds_ms(s@),
{
    let v = chars_of(s);
    let start: usize = if v.len() > 0 && v[0] == '+' {
        1
    } else {
        0
    };
    let ghost body = if s@.len() > 0 && s@[0] == '+' {
        s@.drop_first()
    } else {
        s@
    };
    assert(body =~= v@.subrange(start as int, v@.len() as int));
    let b = string_between(&v, start, v.len());
    let bv = chars_of(b.as_str());
    proof {
        lemma_find_char(bv@, '.');
    }
    let (ie, fs, fe) = match find_char_in(&bv, '.') {
        Some(i) => (i, i + 1, bv.len()),
        None => (bv.len(), bv.len(), bv.len()),
    };
    let ghost ip = bv@.subrange(0, ie as int);
    let ghost fp = bv@.subrange(fs as int, fe as int);
    proof {
        match find_char(body, '.') {
            Some(i) => {
                assert(ip =~= body.take(i));
                assert(fp =~= body.skip(i + 1));
            },
            None => {
                assert(ip =~= body);
                assert(fp =~= Seq::<char>::empty());
            },
        }
    }
    if ie == 0 && fe == fs {
        return None;
    }
    let iv = match digits_only(&bv, 0, ie) {
        Some(n) => n,
        None => {
            return None;
        },
    };
    if !all_digits_in(&bv, fs, fe) {
        return None;
    }
    let fstr = string_between(&bv, fs, fe);
    let fv = chars_of(fstr.as_str());
    let frac = fraction_of(&fv);
    if iv > (u64::MAX - frac) / 1000 {
        proof {
            assert(iv * 1000 + frac > u64::MAX) by (nonlinear_arith)
                requires
                    iv > (u64::MAX - frac) / 1000,
                    frac <= u64::MAX,
            ;
        }
        return None;
    }
    proof {
        assert(iv * 1000 + frac <= u64::MAX) by (nonlinear_arith)
            requires
                iv <= (u64::MAX - frac) / 1000,
                frac <= u64::MAX,
        ;
    }
    Some(iv * 1000 + frac)
}

fn all_digits_in(v: &Vec<char>, from: usize, to: usize) -> (r: bool)
    requires
        from <= to <= v@.len(),
    ensures
        r == all_digits(v@.subrange(from as int, to as int)),
{
    let mut k = from;
    while k < to
        invariant
            from <= k <= to <= v@.len(),
            forall|j: int| from <= j < k ==> crate::text::is_digit(#[trigger] v@[j]),
        decreases to - k,
    {
        if !('0' <= v[k] && v[k] <= '9') {
            assert(!crate::text::is_digit(v@.subrange(from as int, to as int)[k - from]));
            return false;
        }
        k = k + 1;
    }
    assert forall|j: int| 0 <= j < to - from implies crate::text::is_digit(#[trigger] v@.subrange(from as int, to as int)[j]) by {
        assert(v@.subrange(from as int, to as int)[j] == v@[from + j]);
    }
    true
}

fn fraction_of(fp: &Vec<char>) -> (r: u64)
    requires
        all_digits(fp@),
    ensures
        r == fraction_ms(fp@),
        r < 1000,
{
    let flen = fp.len();
    let ghost f = fp@;
    if flen == 0 {
        0
    } else if flen == 1 {
        let d0 = digit_at(fp, 0);
        proof {
            assert(f.drop_last() =~= Seq::<char>::empty());
            assert(digits_value(Seq::<char>::empty()) == 0);
            assert(digits_value(f) == d0);
            assert(f.len() == 1);
            assert(d0 * 100 == fraction_ms(f));
        }
        d0 * 100
    } else if flen == 2 {
        let d0 = digit_at(fp, 0);
        let d1 = digit_at(fp, 1);
        proof {
            let d = f.drop_last();
            assert(d.drop_last() =~= Seq::<char>::empty());
            assert(digits_value(Seq::<char>::empty()) == 0);
            assert(d.last() == f[0]);
            assert(digits_value(d) == d0);
            assert(digits_value(f) == d0 * 10 + d1);
            assert(d0 * 100 + d1 * 10 == fraction_ms(f));
        }
        d0 * 100 + d1 * 10
    } else {
        let d0 = digit_at(fp, 0);
        let d1 = digit_at(fp, 1);
        let d2 = digit_at(fp, 2);
        proof {
            let t = f.take(3);
            let d = t.drop_last();
            let e = d.drop_last();
            assert(e.drop_last() =~= Seq::<char>::empty());
            assert(digits_value(Seq::<char>::empty()) == 0);
            assert(e.last() == f[0]);
            assert(d.last() == f[1]);
            assert(t.last() == f[2]);
            assert(digits_value(e) == d0);
            assert(digits_value(d) == d0 * 10 + d1);
            assert(digits_value(t) == (d0 * 10 + d1) * 10 + d2);
            assert(d0 * 100 + d1 * 10 + d2 == fraction_ms(f));
        }
        d0 * 100 + d1 * 10 + d2
    }
}

fn digit_at(v: &Vec<char>, k: usize) -> (r: u64)
    requires
        k < v@.len(),
        all_digits(v@),
    ensures
        r == crate::text::digit_value(v@[k as int]),
        r < 10,
{
    assert(crate::text::is_digit(v@[k as int]));
    (v[k] as u32 - '0' as u32) as u64
}

/// The settings after typing `v` into settings row `i`: text rows take the
/// text (optional ones clear on "none"), switch rows read it as on or off,
/// number rows take it when it reads as a number; the download and fragment
/// limits are then kept within 1 to 8 and 1 to 32.
pub open spec fn settings_after_text(s: SettingsView, i: int, v: Seq<char>) -> SettingsView {
    let t = if i == 0 {
        SettingsView { output_dir: v, ..s }
    } else if i == 1 {
        SettingsView { output_template: v, ..s }
    } else if i == 2 {
        match spec_parse_usize(v) {
            Some(n) => SettingsView { max_parallel_downloads: n, ..s },
            None => s,
        }
    } else if i == 3 {
        match spec_parse_usize(v) {
            Some(n) => SettingsView { concurrent_fragments: n, ..s },
            None => s,
        }
    } else if i == 4 {
        SettingsView { retries: v, ..s }
    } else if i == 5 {
        SettingsView { fragment_retries: v, ..s }
    } else if i == 6 {
        SettingsView { retry_sleep: v, ..s }
    } else if i == 7 {
        SettingsView { rate_limit: none_text(v), ..s }
    } else if i == 8 {
        SettingsView { throttled_rate: none_text(v), ..s }
    } else if i == 9 {
        SettingsView { use_aria2: spec_boolish(v), ..s }
    } else if i == 10 {
        match spec_parse_usize(v) {
            Some(n) => SettingsView { aria2_connections: n, ..s },
            None => s,
        }
    } else if i == 11 {
        SettingsView { continue_downloads: spec_boolish(v), ..s }
    } else if i == 12 {
        SettingsView { no_overwrites: spec_boolish(v), ..s }
    } else if i == 13 {
        SettingsView { archive: spec_boolish(v), ..s }
    } else if i == 14 {
        SettingsView { archive_path: v, ..s }
    } else if i == 15 {
        SettingsView { restrict_filenames: spec_boolish(v), ..s }
    } else if i == 16 {
        SettingsView { write_playlist_metafiles: spec_boolish(v), ..s }
    } else if i == 17 {
        SettingsView { cookies_browser: none_text(v), ..s }
    } else if i == 18 {
        SettingsView { cookies_file: none_text(v), ..s }
    } else if i == 19 {
        SettingsView { proxy: none_text(v), ..s }
    } else if i == 20 {
        SettingsView { impersonate: none_text(v), ..s }
    } else if i == 21 {
        SettingsView { geo_bypass_country: none_text(v), ..s }
    } else if i == 22 {
        SettingsView { user_agent: none_text(v), ..s }
    } else if i == 23 {
        SettingsView { ffmpeg_location: none_text(v), ..s }
    } else if i == 24 {
        SettingsView { yt_dlp_path: v, ..s }
    } else if i == 25 {
        SettingsView { notifications: spec_boolish(v), ..s }
    } else if i == 26 {
        match spec_parse_u64(v) {
            Some(n) => SettingsView { socket_timeout: n, ..s },
            None => s,
        }
    } else if i == 27 {
        match spec_seconds_ms(v) {
            Some(n) => SettingsView { sleep_requests_ms: n, ..s },
            None => s,
        }
    } else {
        s
    };
    SettingsView {
        max_parallel_downloads: clamp(t.max_parallel_downloads as int, 1, 8) as usize,
        concurrent_fragments: clamp(t.concurrent_fragments as int, 1, 32) as usize,
        ..t
    }
}

#[verifier::spinoff_prover]
#[verifier::rlimit(80)]
fn set_text_field(settings: &mut Settings, i: usize, v: String)
    requires
        i <= 1 || 4 <= i <= 6 || i == 14 || i == 24,
    ensures
        final(settings)@ == (if i == 0 {
            SettingsView { output_dir: v@, ..old(settings)@ }
        } else if i == 1 {
            SettingsView { output_template: v@, ..old(settings)@ }
        } else if i == 4 {
            SettingsView { retries: v@, ..old(settings)@ }
        } else if i == 5 {
            SettingsView { fragment_retries: v@, ..old(settings)@ }
        } else if i == 6 {
            SettingsView { retry_sleep: v@, ..old(settings)@ }
        } else if i == 14 {
            SettingsView { archive_path: v@, ..old(settings)@ }
        } else {
            SettingsView { yt_dlp_path: v@, ..old(settings)@ }
        }),
{
    if i == 0 {
        settings.output_dir = v;
    } else if i == 1 {
        settings.output_template = v;
    } else if i == 4 {
        settings.retries = v;
    } else if i == 5 {
        settings.fragment_retries = v;
    } else if i == 6 {
        settings.retry_sleep = v;
    } else if i == 14 {
        settings.archive_path = v;
    } else {
        settings.yt_dlp_path = v;
    }
}

#[verifier::spinoff_prover]
#[verifier::rlimit(80)]
fn set_optional_field(settings: &mut Settings, i: usize, v: String)
    requires
        7 <= i <= 8 || 17 <= i <= 23,
    ensures
        final(settings)@ == (if i == 7 {
            SettingsView { rate_limit: none_text(v@), ..old(settings)@ }
        } else if i == 8 {
            SettingsView { throttled_rate: none_text(v@), ..old(settings)@ }
        } else if i == 17 {
            SettingsView { cookies_browser: none_text(v@), ..old(settings)@ }
        } else if i == 18 {
            SettingsView { cookies_file: none_text(v@), ..old(settings)@ }
        } else if i == 19 {
            SettingsView { proxy: none_text(v@), ..old(settings)@ }
        } else if i == 20 {
            SettingsView { impersonate: none_text(v@), ..old(settings)@ }
        } else if i == 21 {
            SettingsView { geo_bypass_country: none_text(v@), ..old(settings)@ }
        } else if i == 22 {
            SettingsView { user_agent: none_text(v@), ..old(settings)@ }
        } else {
            SettingsView { ffmpeg_location: none_text(v@), ..old(settings)@ }
        }),
{
    let t = none(v);
    if i == 7 {
        settings.rate_limit = t;
    } else if i == 8 {
        settings.throttled_rate = t;
    } else if i == 17 {
        settings.cookies_browser = t;
    } else if i == 18 {
        settings.cookies_file = t;
    } else if i == 19 {
        settings.proxy = t;
    } else if i == 20 {
        settings.impersonate = t;
    } else if i == 21 {
        settings.geo_bypass_country = t;
    } else if i == 22 {
        settings.user_agent = t;
    } else {
        settings.ffmpeg_location = t;
    }
}

#[verifier::spinoff_prover]
#[verifier::rlimit(80)]
fn set_switch_field(settings: &mut Settings, i: usize, v: &str)
    requires
        i == 9 || 11 <= i <= 13 || i == 15 || i == 16 || i == 25,
    ensures
        final(settings)@ == (if i == 9 {
            SettingsView { use_aria2: spec_boolish(v@), ..old(settings)@ }
        } else if i == 11 {
            SettingsView { continue_downloads: spec_boolish(v@), ..old(settings)@ }
        } else if i == 12 {
            SettingsView { no_overwrites: spec_boolish(v@), ..old(settings)@ }
        } else if i == 13 {
            SettingsView { archive: spec_boolish(v@), ..old(settings)@ }
        } else if i == 15 {
            SettingsView { restrict_filenames: spec_boolish(v@), ..old(settings)@ }
        } else if i == 16 {
            SettingsView { write_playlist_metafiles: spec_boolish(v@), ..old(settings)@ }
        } else {
            SettingsView { notifications: spec_boolish(v@), ..old(settings)@ }
        }),
{
    let b = boolish(v);
    if i == 9 {
        settings.use_aria2 = b;
    } else if i == 11 {
        settings.continue_downloads = b;
    } else if i == 12 {
        settings.no_overwrites = b;
    } else if i == 13 {
        settings.archive = b;
    } else if i == 15 {
        settings.restrict_filenames = b;
    } else if i == 16 {
        settings.write_playlist_metafiles = b;
    } else {
        settings.notifications = b;
    }
}

#[verifier::spinoff_prover]
#[verifier::rlimit(80)]
fn set_number_field(settings: &mut Settings, i: usize, v: &str)
    requires
        2 <= i <= 3 || i == 10 || 26 <= i <= 27,
    ensures
        final(settings)@ == (if i == 2 {
            match spec_parse_usize(v@) {
                Some(n) => SettingsView { max_parallel_downloads: n, ..old(settings)@ },
                None => old(settings)@,
            }
        } else if i == 3 {
            match spec_parse_usize(v@) {
                Some(n) => SettingsView { concurrent_fragments: n, ..old(settings)@ },
                None => old(settings)@,
            }
        } else if i == 10 {
            match spec_parse_usize(v@) {
                Some(n) => SettingsView { aria2_connections: n, ..old(settings)@ },
                None => old(settings)@,
            }
        } else if i == 26 {
            match spec_parse_u64(v@) {
                Some(n) => SettingsView { socket_timeout: n, ..old(settings)@ },
                None => old(settings)@,
            }
        } else {
            match spec_seconds_ms(v@) {
                Some(n) => SettingsView { sleep_requests_ms: n, ..old(settings)@ },
                None => old(settings)@,
            }
        }),
{
    if i == 2 {
        if let Some(n) = parse_usize(v) {
            settings.max_parallel_downloads = n;
        }
    } else if i == 3 {
        if let Some(n) = parse_usize(v) {
            settings.concurrent_fragments = n;
        }
    } else if i == 10 {
        if let Some(n) = parse_usize(v) {
            settings.aria2_connections = n;
        }
    } else if i == 26 {
        if let Some(n) = parse_u64(v) {
            settings.socket_timeout = n;
        }
    } else {
        if let Some(n) = parse_seconds_ms(v) {
            settings.sleep_requests_ms = n;
        }
    }
}

/// Stores the text typed into settings row `i`.
#[verifier::spinoff_prover]
#[verifier::rlimit(80)]
pub fn set_setting_text(settings: &mut Settings, i: usize, v: String)
    ensures
        final(settings)@ == settings_after_text(old(settings)@, i as int, v@),
{
    if i <= 1 || (4 <= i && i <= 6) || i == 14 || i == 24 {
        set_text_field(settings, i, v);
    } else if (7 <= i && i <= 8) || (17 <= i && i <= 23) {
        set_optional_field(settings, i, v);
    } else if i == 9 || (11 <= i && i <= 13) || i == 15 || i == 16 || i == 25 {
        set_switch_field(settings, i, v.as_str());
    } else if (2 <= i && i <= 3) || i == 10 || (26 <= i && i <= 27) {
        set_number_field(settings, i, v.as_str());
    }
    let p = settings.max_parallel_downloads;
    settings.max_parallel_downloads = if p < 1 {
        1
    } else if p > 8 {
        8
    } else {
        p
    };
    let f = settings.concurrent_fragments;
    settings.concurrent_fragments = if f < 1 {
        1
    } else if f > 32 {
        32
    } else {
        f
    };
}


/// How settings row `i` shows its value.
pub open spec fn setting_value_text(s: SettingsView, i: int) -> Seq<char> {
    if i == 0 {
        s.output_dir
    } else if i == 1 {
        s.output_template
    } else if i == 2 {
        spec_decimal(s.max_parallel_downloads as nat)
    } else if i == 3 {
        spec_decimal(s.concurrent_fragments as nat)
    } else if i == 4 {
        s.retries
    } else if i == 5 {
        s.fragment_retries
    } else if i == 6 {
        s.retry_sleep
    } else if i == 7 {
        empty_text(s.rate_limit)
    } else if i == 8 {
        empty_text(s.throttled_rate)
    } else if i == 9 {
        on_text(s.use_aria2)
    } else if i == 10 {
        spec_decimal(s.aria2_connections as nat)
    } else if i == 11 {
        on_text(s.continue_downloads)
    } else if i == 12 {
        on_text(s.no_overwrites)
    } else if i == 13 {
        on_text(s.archive)
    } else if i == 14 {
        s.archive_path
    } else if i == 15 {
        on_text(s.restrict_filenames)
    } else if i == 16 {
        on_text(s.write_playlist_metafiles)
    } else if i == 17 {
        empty_text(s.cookies_browser)
    } else if i == 18 {
        empty_text(s.cookies_file)
    } else if i == 19 {
        empty_text(s.proxy)
    } else if i == 20 {
        empty_text(s.impersonate)
    } else if i == 21 {
        empty_text(s.geo_bypass_country)
    } else if i == 22 {
        empty_text(s.user_agent)
    } else if i == 23 {
        empty_text(s.ffmpeg_location)
    } else if i == 24 {
        s.yt_dlp_path
    } else if i == 25 {
        on_text(s.notifications)
    } else if i == 26 {
        spec_decimal(s.socket_timeout as nat)
    } else {
        seconds_text(s.sleep_requests_ms as nat)
    }
}

/// Shows the value of settings row `i`.
pub fn setting_value(s: &Settings, i: usize) -> (r: String)
    requires
        i < 28,
    ensures
        r@ == setting_value_text(s@, i as int),
{
    if i == 0 {
        owned(s.output_dir.as_str())
    } else if i == 1 {
        owned(s.output_template.as_str())
    } else if i == 2 {
        decimal(s.max_parallel_downloads as u64)
    } else if i == 3 {
        decimal(s.concurrent_fragments as u64)
    } else if i == 4 {
        owned(s.retries.as_str())
    } else if i == 5 {
        owned(s.fragment_retries.as_str())
    } else if i == 6 {
        owned(s.retry_sleep.as_str())
    } else if i == 7 {
        empty(s.rate_limit.as_str())
    } else if i == 8 {
        empty(s.throttled_rate.as_str())
    } else if i == 9 {
        on(s.use_aria2)
    } else if i == 10 {
        decimal(s.aria2_connections as u64)
    } else if i == 11 {
        on(s.continue_downloads)
    } else if i == 12 {
        on(s.no_overwrites)
    } else if i == 13 {
        on(s.archive)
    } else if i == 14 {
        owned(s.archive_path.as_str())
    } else if i == 15 {
        on(s.restrict_filenames)
    } else if i == 16 {
        on(s.write_playlist_metafiles)
    } else if i == 17 {
        empty(s.cookies_browser.as_str())
    } else if i == 18 {
        empty(s.cookies_file.as_str())
    } else if i == 19 {
        empty(s.proxy.as_str())
    } else if i == 20 {
        empty(s.impersonate.as_str())
    } else if i == 21 {
        empty(s.geo_bypass_country.as_str())
    } else if i == 22 {
        empty(s.user_agent.as_str())
    } else if i == 23 {
        empty(s.ffmpeg_location.as_str())
    } else if i == 24 {
        owned(s.yt_dlp_path.as_str())
    } else if i == 25 {
        on(s.notifications)
    } else if i == 26 {
        decimal(s.socket_timeout)
    } else {
        seconds_string(s.sleep_requests_ms)
    }
}

/// Every settings row with its label and shown value, in order.
pub fn setting_values(s: &Settings) -> (r: Vec<(&'static str, String)>)
    ensures
        r@.len() == 28,
        forall|i: int|
            0 <= i < 28 ==> (#[trigger] r@[i]).0@ == setting_labels()[i] && r@[i].1@
                == setting_value_text(s@, i),
{
    let rows = setting_rows();
    let mut r: Vec<(&'static str, String)> = Vec::new();
    let mut i: usize = 0;
    while i < 28
        invariant
            i <= 28,
            r@.len() == i,
            forall|k: int| 0 <= k < 28 ==> (#[trigger] rows@[k])@ == setting_labels()[k],
            forall|k: int|
                0 <= k < i ==> (#[trigger] r@[k]).0@ == setting_labels()[k] && r@[k].1@
                    == setting_value_text(s@, k),
        decreases 28 - i,
    {
        r.push((rows[i], setting_value(s, i)));
        i = i + 1;
    }
    r
}

/// The text dialog settings row `i` opens: its label as title, the shown
/// value as starting text ("none" starts empty), and whether the value is
/// hidden while typed (cookies and proxy rows).
pub fn setting_edit(s: &Settings, i: usize) -> (r: Option<(&'static str, String, bool)>)
    ensures
        i >= 28 ==> r is None,
        i < 28 ==> (r matches Some((title, initial, secret)) && title@ == setting_labels()[i as int]
            && initial@ == none_text(setting_value_text(s@, i as int)) && secret == (17 <= i <= 19)),
{
    if i >= 28 {
        return None;
    }
    let rows = setting_rows();
    let v = setting_value(s, i);
    Some((rows[i], none(v), 17 <= i && i <= 19))
}

/// What stepping a settings row asks of the screen besides changing
/// settings.
#[derive(Clone, Copy, Debug)]
pub enum SettingAction {
    /// Nothing more.
    Done,
    /// Show this error.
    Error(&'static str),
    /// Open the row's text dialog.
    Edit,
}

/// The settings after stepping row `i` forward (or back), given whether
/// `aria2c` is installed.
pub open spec fn settings_after_step(s: SettingsView, i: int, next: bool, aria2c: bool) -> SettingsView {
    if i == 2 {
        SettingsView { max_parallel_downloads: spec_step(s.max_parallel_downloads as nat, 1, 8, next) as usize, ..s }
    } else if i == 3 {
        SettingsView { concurrent_fragments: spec_step(s.concurrent_fragments as nat, 1, 32, next) as usize, ..s }
    } else if i == 9 {
        if !s.use_aria2 && !aria2c {
            s
        } else {
            SettingsView { use_aria2: !s.use_aria2, ..s }
        }
    } else if i == 10 {
        SettingsView { aria2_connections: spec_step(s.aria2_connections as nat, 1, 16, next) as usize, ..s }
    } else if i == 11 {
        SettingsView { continue_downloads: !s.continue_downloads, ..s }
    } else if i == 12 {
        SettingsView { no_overwrites: !s.no_overwrites, ..s }
    } else if i == 13 {
        SettingsView { archive: !s.archive, ..s }
    } else if i == 15 {
        SettingsView { restrict_filenames: !s.restrict_filenames, ..s }
    } else if i == 16 {
        SettingsView { write_playlist_metafiles: !s.write_playlist_metafiles, ..s }
    } else if i == 25 {
        SettingsView { notifications: !s.notifications, ..s }
    } else {
        s
    }
}

/// Whether settings row `i` is stepped rather than edited as text.
pub open spec fn steppable(i: int) -> bool {
    i == 2 || i == 3 || (9 <= i <= 13) || i == 15 || i == 16 || i == 25
}

/// Steps settings row `i` forward (or back); rows without steps open their
/// text dialog, and turning on aria2 without `aria2c` installed is refused.
#[verifier::spinoff_prover]
#[verifier::rlimit(80)]
pub fn adjust_setting(s: &mut Settings, i: usize, next: bool, aria2c_on_path: bool) -> (r: SettingAction)
    requires
        next && i == 2 ==> old(s).max_parallel_downloads < usize::MAX,
        next && i == 3 ==> old(s).concurrent_fragments < usize::MAX,
        next && i == 10 ==> old(s).aria2_connections < usize::MAX,
    ensures
        final(s)@ == settings_after_step(old(s)@, i as int, next, aria2c_on_path),
        (i == 9 && !old(s).use_aria2 && !aria2c_on_path) ==> (r matches SettingAction::Error(e) && e@
            == "aria2c is not installed or not on PATH. Native concurrent fragments remain enabled."@),
        steppable(i as int) && !(i == 9 && !old(s).use_aria2 && !aria2c_on_path) ==> r is Done,
        !steppable(i as int) ==> r is Edit,
{
    if i == 2 {
        s.max_parallel_downloads = step(s.max_parallel_downloads, 1, 8, next);
        SettingAction::Done
    } else if i == 3 {
        s.concurrent_fragments = step(s.concurrent_fragments, 1, 32, next);
        SettingAction::Done
    } else if i == 9 {
        if !s.use_aria2 && !aria2c_on_path {
            SettingAction::Error(
                "aria2c is not installed or not on PATH. Native concurrent fragments remain enabled.",
            )
        } else {
            s.use_aria2 = !s.use_aria2;
            SettingAction::Done
        }
    } else if i == 10 {
        s.aria2_connections = step(s.aria2_connections, 1, 16, next);
        SettingAction::Done
    } else if i == 11 {
        s.continue_downloads = !s.continue_downloads;
        SettingAction::Done
    } else if i == 12 {
        s.no_overwrites = !s.no_overwrites;
        SettingAction::Done
    } else if i == 13 {
        s.archive = !s.archive;
        SettingAction::Done
    } else if i == 15 {
        s.restrict_filenames = !s.restrict_filenames;
        SettingAction::Done
    } else if i == 16 {
        s.write_playlist_metafiles = !s.write_playlist_metafiles;
        SettingAction::Done
    } else if i == 25 {
        s.notifications = !s.notifications;
        SettingAction::Done
    } else {
        SettingAction::Edit
    }
}

/// How builder row `i` shows its value.
pub open spec fn builder_value_text(o: OptionsView, i: int) -> Seq<char> {
    if i == 0 {
        mode_text(o.mode)
    } else if i == 1 {
        quality_text(o.quality)
    } else if i == 2 {
        o.video_container
    } else if i == 3 {
        o.audio_format
    } else if i == 4 {
        on_text(o.playlist)
    } else if i == 5 {
        on_text(o.subtitles)
    } else if i == 6 {
        on_text(o.auto_subtitles)
    } else if i == 7 {
        on_text(o.embed_subtitles)
    } else if i == 8 {
        on_text(o.thumbnail)
    } else if i == 9 {
        if o.mode == MediaMode::Audio {
            "on (automatic cover)"@
        } else {
            on_text(o.embed_thumbnail)
        }
    } else if i == 10 {
        if o.mode == MediaMode::Audio {
            "on (automatic)"@
        } else {
            on_text(o.metadata)
        }
    } else if i == 11 {
        on_text(o.chapters)
    } else if i == 12 {
        on_text(o.sponsorblock)
    } else if i == 13 {
        on_text(o.comments)
    } else if i == 14 {
        on_text(o.info_json)
    } else if i == 15 {
        on_text(o.description)
    } else if i == 16 {
        on_text(o.live_from_start)
    } else if i == 17 {
        empty_text(o.date_after)
    } else if i == 18 {
        empty_text(o.date_before)
    } else if i == 19 {
        empty_text(o.match_filter)
    } else if i == 20 {
        empty_text(o.raw_args)
    } else {
        "search reference…"@
    }
}

/// Shows the value of builder row `i`.
pub fn builder_value(o: &DownloadOptions, i: usize) -> (r: String)
    requires
        i < 22,
    ensures
        r@ == builder_value_text(o@, i as int),
{
    if i == 0 {
        mode_name(o.mode)
    } else if i == 1 {
        quality_name(&o.quality)
    } else if i == 2 {
        owned(o.video_container.as_str())
    } else if i == 3 {
        owned(o.audio_format.as_str())
    } else if i == 4 {
        on(o.playlist)
    } else if i == 5 {
        on(o.subtitles)
    } else if i == 6 {
        on(o.auto_subtitles)
    } else if i == 7 {
        on(o.embed_subtitles)
    } else if i == 8 {
        on(o.thumbnail)
    } else if i == 9 {
        if o.mode == MediaMode::Audio {
            owned("on (automatic cover)")
        } else {
            on(o.embed_thumbnail)
        }
    } else if i == 10 {
        if o.mode == MediaMode::Audio {
            owned("on (automatic)")
        } else {
            on(o.metadata)
        }
    } else if i == 11 {
        on(o.chapters)
    } else if i == 12 {
        on(o.sponsorblock)
    } else if i == 13 {
        on(o.comments)
    } else if i == 14 {
        on(o.info_json)
    } else if i == 15 {
        on(o.description)
    } else if i == 16 {
        on(o.live_from_start)
    } else if i == 17 {
        empty(o.date_after.as_str())
    } else if i == 18 {
        empty(o.date_before.as_str())
    } else if i == 19 {
        empty(o.match_filter.as_str())
    } else if i == 20 {
        empty(o.raw_args.as_str())
    } else {
        owned("search reference…")
    }
}

/// Every builder row with its label and shown value, in order.
pub fn builder_values(o: &DownloadOptions) -> (r: Vec<(&'static str, String)>)
    ensures
        r@.len() == 22,
        forall|i: int|
            0 <= i < 22 ==> (#[trigger] r@[i]).0@ == builder_labels()[i] && r@[i].1@
                == builder_value_text(o@, i),
{
    let rows = builder_rows();
    let mut r: Vec<(&'static str, String)> = Vec::new();
    let mut i: usize = 0;
    while i < 22
        invariant
            i <= 22,
            r@.len() == i,
            forall|k: int| 0 <= k < 22 ==> (#[trigger] rows@[k])@ == builder_labels()[k],
            forall|k: int|
                0 <= k < i ==> (#[trigger] r@[k]).0@ == builder_labels()[k] && r@[k].1@
                    == builder_value_text(o@, k),
        decreases 22 - i,
    {
        r.push((rows[i], builder_value(o, i)));
        i = i + 1;
    }
    r
}

/// The option a text dialog edits, as text, for the option targets.
pub open spec fn option_text(o: OptionsView, t: EditTarget) -> Option<Seq<char>> {
    match t {
        EditTarget::RawArgs => Some(o.raw_args),
        EditTarget::SubtitleLanguages => Some(o.subtitle_languages),
        EditTarget::PlaylistItems => Some(o.playlist_items),
        EditTarget::AudioQuality => Some(o.audio_quality),
        EditTarget::SponsorCategories => Some(o.sponsor_categories),
        EditTarget::DateAfter => Some(o.date_after),
        EditTarget::DateBefore => Some(o.date_before),
        EditTarget::MatchFilter => Some(o.match_filter),
        _ => None,
    }
}

/// The current text of the option a dialog edits.
pub fn option_edit_value(o: &DownloadOptions, t: EditTarget) -> (r: Option<String>)
    ensures
        match option_text(o@, t) {
            Some(v) => r matches Some(s) && s@ == v,
            None => r is None,
        },
{
    match t {
        EditTarget::RawArgs => Some(owned(o.raw_args.as_str())),
        EditTarget::SubtitleLanguages => Some(owned(o.subtitle_languages.as_str())),
        EditTarget::PlaylistItems => Some(owned(o.playlist_items.as_str())),
        EditTarget::AudioQuality => Some(owned(o.audio_quality.as_str())),
        EditTarget::SponsorCategories => Some(owned(o.sponsor_categories.as_str())),
        EditTarget::DateAfter => Some(owned(o.date_after.as_str())),
        EditTarget::DateBefore => Some(owned(o.date_before.as_str())),
        EditTarget::MatchFilter => Some(owned(o.match_filter.as_str())),
        _ => None,
    }
}

/// The options after a dialog for target `t` committed `v`.
pub open spec fn options_after_edit(o: OptionsView, t: EditTarget, v: Seq<char>) -> OptionsView {
    match t {
        EditTarget::RawArgs => OptionsView { raw_args: v, ..o },
        EditTarget::SubtitleLanguages => OptionsView { subtitle_languages: v, ..o },
        EditTarget::PlaylistItems => OptionsView { playlist_items: v, ..o },
        EditTarget::AudioQuality => OptionsView { audio_quality: v, ..o },
        EditTarget::SponsorCategories => OptionsView { sponsor_categories: v, ..o },
        EditTarget::DateAfter => OptionsView { date_after: v, ..o },
        EditTarget::DateBefore => OptionsView { date_before: v, ..o },
        EditTarget::MatchFilter => OptionsView { match_filter: v, ..o },
        _ => o,
    }
}

/// Stores what a dialog committed into the option it edits; returns whether
/// `t` is an option target.
#[verifier::spinoff_prover]
#[verifier::rlimit(80)]
pub fn commit_option_edit(o: &mut DownloadOptions, t: EditTarget, v: String) -> (r: bool)
    ensures
        final(o)@ == options_after_edit(old(o)@, t, v@),
        r == (option_text(old(o)@, t) is Some),
{
    match t {
        EditTarget::RawArgs => {
            o.raw_args = v;
            true
        },
        EditTarget::SubtitleLanguages => {
            o.subtitle_languages = v;
            true
        },
        EditTarget::PlaylistItems => {
            o.playlist_items = v;
            true
        },
        EditTarget::AudioQuality => {
            o.audio_quality = v;
            true
        },
        EditTarget::SponsorCategories => {
            o.sponsor_categories = v;
            true
        },
        EditTarget::DateAfter => {
            o.date_after = v;
            true
        },
        EditTarget::DateBefore => {
            o.date_before = v;
            true
        },
        EditTarget::MatchFilter => {
            o.match_filter = v;
            true
        },
        _ => false,
    }
}

/// Committing a dialog that was opened on an option stores exactly what was
/// typed: reading the option back gives the text.
pub proof fn lemma_edit_round_trip(o: OptionsView, t: EditTarget, v: Seq<char>)
    requires
        option_text(o, t) is Some,
    ensures
        option_text(options_after_edit(o, t, v), t) == Some(v),
{
}

/// No two entries of `items` are equal.
pub open spec fn distinct<T>(items: Seq<T>) -> bool {
    forall|a: int, b: int| 0 <= a < b < items.len() ==> items[a] != items[b]
}

proof fn lemma_cycled_back<T>(items: Seq<T>, current: T)
    requires
        distinct(items),
        items.contains(current),
    ensures
        cycled(items, cycled(items, current, true), false) == current,
        cycled(items, cycled(items, current, false), true) == current,
{
    let i = choose|i: int| 0 <= i < items.len() && items[i] == current;
    crate::labels::lemma_first_match(items, current);
    let m = first_match(items, current);
    if m < i {
        assert(items[m] == items[i]);
    } else if m > i {
        assert(items[i] != current);
    }
    crate::labels::lemma_cycle_round_trip(items, i);
}

proof fn lemma_cycles_distinct(screen: QualityView)
    ensures
        distinct(quality_cycle(screen)),
        distinct(container_cycle()),
        distinct(audio_format_cycle()),
{
    reveal_strlit("auto");
    reveal_strlit("mp4");
    reveal_strlit("mkv");
    reveal_strlit("webm");
    reveal_strlit("best");
    reveal_strlit("mp3");
    reveal_strlit("m4a");
    reveal_strlit("opus");
    reveal_strlit("flac");
    reveal_strlit("wav");
    reveal_strlit("aac");
    reveal_strlit("vorbis");
    let c = container_cycle();
    assert(c[1][1] != c[2][1] && c[0][0] != c[3][0]);
    let a = audio_format_cycle();
    assert(a[0][0] != a[3][0] && a[0][0] != a[4][0] && a[3][0] != a[4][0]);
    assert(a[1][1] != a[2][1] && a[1][0] != a[5][0] && a[1][0] != a[6][0]);
    assert(a[2][0] != a[5][0] && a[2][0] != a[6][0] && a[5][0] != a[6][0]);
    let q = quality_cycle(screen);
    assert(distinct(q)) by {
        assert forall|x: int, y: int| 0 <= x < y < q.len() implies q[x] != q[y] by {
            if screen is Screen {
                if x > 0 {
                    assert(q[x] == fixed_qualities()[x - 1]);
                }
                assert(q[y] == fixed_qualities()[y - 1]);
            }
        }
    }
}

proof fn lemma_toggled_twice_playlist(o: OptionsView)
    ensures
        toggled(toggled(o, 4), 4) == o,
        toggled(o, 4).mode == o.mode,
{
    reveal(toggled);
    let t = toggled(o, 4);
    assert(toggled(t, 4) == OptionsView { playlist: !t.playlist, ..t });
}

proof fn lemma_toggled_twice_subtitles(o: OptionsView)
    ensures
        toggled(toggled(o, 5), 5) == o,
        toggled(o, 5).mode == o.mode,
{
    reveal(toggled);
    let t = toggled(o, 5);
    assert(toggled(t, 5) == OptionsView { subtitles: !t.subtitles, ..t });
}

proof fn lemma_toggled_twice_auto_subtitles(o: OptionsView)
    ensures
        toggled(toggled(o, 6), 6) == o,
        toggled(o, 6).mode == o.mode,
{
    reveal(toggled);
    let t = toggled(o, 6);
    assert(toggled(t, 6) == OptionsView { auto_subtitles: !t.auto_subtitles, ..t });
}

proof fn lemma_toggled_twice_embed_subtitles(o: OptionsView)
    ensures
        toggled(toggled(o, 7), 7) == o,
        toggled(o, 7).mode == o.mode,
{
    reveal(toggled);
    let t = toggled(o, 7);
    assert(toggled(t, 7) == OptionsView { embed_subtitles: !t.embed_subtitles, ..t });
}

proof fn lemma_toggled_twice_thumbnail(o: OptionsView)
    ensures
        toggled(toggled(o, 8), 8) == o,
        toggled(o, 8).mode == o.mode,
{
    reveal(toggled);
    let t = toggled(o, 8);
    assert(toggled(t, 8) == OptionsView { thumbnail: !t.thumbnail, ..t });
}

proof fn lemma_toggled_twice_embed_thumbnail(o: OptionsView)
    ensures
        toggled(toggled(o, 9), 9) == o,
        toggled(o, 9).mode == o.mode,
{
    reveal(toggled);
    let t = toggled(o, 9);
    assert(toggled(t, 9) == OptionsView { embed_thumbnail: !t.embed_thumbnail, ..t });
}

proof fn lemma_toggled_twice_metadata(o: OptionsView)
    ensures
        toggled(toggled(o, 10), 10) == o,
        toggled(o, 10).mode == o.mode,
{
    reveal(toggled);
    let t = toggled(o, 10);
    assert(toggled(t, 10) == OptionsView { metadata: !t.metadata, ..t });
}

proof fn lemma_toggled_twice_chapters(o: OptionsView)
    ensures
        toggled(toggled(o, 11), 11) == o,
        toggled(o, 11).mode == o.mode,
{
    reveal(toggled);
    let t = toggled(o, 11);
    assert(toggled(t, 11) == OptionsView { chapters: !t.chapters, ..t });
}

proof fn lemma_toggled_twice_sponsorblock(o: OptionsView)
    ensures
        toggled(toggled(o, 12), 12) == o,
        toggled(o, 12).mode == o.mode,
{
    reveal(toggled);
    let t = toggled(o, 12);
    assert(toggled(t, 12) == OptionsView { sponsorblock: !t.sponsorblock, ..t });
}

proof fn lemma_toggled_twice_comments(o: OptionsView)
    ensures
        toggled(toggled(o, 13), 13) == o,
        toggled(o, 13).mode == o.mode,
{
    reveal(toggled);
    let t = toggled(o, 13);
    assert(toggled(t, 13) == OptionsView { comments: !t.comments, ..t });
}

proof fn lemma_toggled_twice_info_json(o: OptionsView)
    ensures
        toggled(toggled(o, 14), 14) == o,
        toggled(o, 14).mode == o.mode,
{
    reveal(toggled);
    let t = toggled(o, 14);
    assert(toggled(t, 14) == OptionsView { info_json: !t.info_json, ..t });
}

proof fn lemma_toggled_twice_description(o: OptionsView)
    ensures
        toggled(toggled(o, 15), 15) == o,
        toggled(o, 15).mode == o.mode,
{
    reveal(toggled);
    let t = toggled(o, 15);
    assert(toggled(t, 15) == OptionsView { description: !t.description, ..t });
}

proof fn lemma_toggled_twice_live_from_start(o: OptionsView)
    ensures
        toggled(toggled(o, 16), 16) == o,
        toggled(o, 16).mode == o.mode,
{
    reveal(toggled);
    let t = toggled(o, 16);
    assert(toggled(t, 16) == OptionsView { live_from_start: !t.live_from_start, ..t });
}

/// Switching the same row twice gives the options back, and never changes
/// the media mode.
proof fn lemma_toggled_twice(o: OptionsView, row: int)
    requires
        4 <= row <= 16,
    ensures
        toggled(toggled(o, row), row) == o,
        toggled(o, row).mode == o.mode,
{
    if row == 4 {
        lemma_toggled_twice_playlist(o);
    } else if row == 5 {
        lemma_toggled_twice_subtitles(o);
    } else if row == 6 {
        lemma_toggled_twice_auto_subtitles(o);
    } else if row == 7 {
        lemma_toggled_twice_embed_subtitles(o);
    } else if row == 8 {
        lemma_toggled_twice_thumbnail(o);
    } else if row == 9 {
        lemma_toggled_twice_embed_thumbnail(o);
    } else if row == 10 {
        lemma_toggled_twice_metadata(o);
    } else if row == 11 {
        lemma_toggled_twice_chapters(o);
    } else if row == 12 {
        lemma_toggled_twice_sponsorblock(o);
    } else if row == 13 {
        lemma_toggled_twice_comments(o);
    } else if row == 14 {
        lemma_toggled_twice_info_json(o);
    } else if row == 15 {
        lemma_toggled_twice_description(o);
    } else if row == 16 {
        lemma_toggled_twice_live_from_start(o);
    }
}

/// Stepping a builder row forward and then back, or back and then forward,
/// restores the options: for the rows that cycle through a list (quality,
/// container, audio format) when the current value is on the list, and for
/// the rows that switch a flag.
#[verifier::spinoff_prover]
#[verifier::rlimit(60)]
pub proof fn lemma_builder_step_round_trip(o: OptionsView, row: int, screen: QualityView)
    requires
        1 <= row <= 16,
        row == 1 ==> quality_cycle(screen).contains(o.quality),
        row == 2 ==> container_cycle().contains(o.video_container),
        row == 3 ==> audio_format_cycle().contains(o.audio_format),
    ensures
        stepped_options(stepped_options(o, row, true, screen), row, false, screen) == o,
        stepped_options(stepped_options(o, row, false, screen), row, true, screen) == o,
{
    lemma_cycles_distinct(screen);
    if row == 1 {
        lemma_cycled_back(quality_cycle(screen), o.quality);
    } else if row == 2 {
        lemma_cycled_back(container_cycle(), o.video_container);
    } else if row == 3 {
        lemma_cycled_back(audio_format_cycle(), o.audio_format);
    } else {
        lemma_toggled_twice(o, row);
    }
}

} // verus!
