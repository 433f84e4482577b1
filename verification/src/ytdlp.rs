//! The exact yt-dlp argument vector for a job, and its shell-quoted preview.
use crate::argv::{
    append_words, clamp, clamp_usize, decimal_word, flag_word, opt_pair, pair_if, push_flag,
    push_opt_pair, push_pair, push_pair_if, push_string, push_word, push_word_if, word_if,
};
use crate::model::{DownloadOptions, Job, MediaMode, OptionsView, Quality, QualityView, Settings};
use crate::text::{blank, chars_of, decimal, decimal_chars, digit, digit_char, is_blank, owned,
    spec_decimal, str_eq, string_of};
use vstd::prelude::*;

verus! {

/// Marks the progress lines that the download template makes yt-dlp print.
pub const PROGRESS_PREFIX: &'static str = "__YOUTUIBE_PROGRESS__\t";

/// Marks the line that carries the final path of a finished download.
pub const DONE_PREFIX: &'static str = "__YOUTUIBE_DONE__\t";

/// The progress template: status, downloaded bytes, total bytes, speed, ETA
/// and title, separated by tabs after the progress marker.
pub const PROGRESS_TEMPLATE: &'static str = "download:__YOUTUIBE_PROGRESS__\t%(progress.status)s\t%(progress.downloaded_bytes)s\t%(progress.total_bytes,progress.total_bytes_estimate)s\t%(progress.speed)s\t%(progress.eta)s\t%(info.title)s";

/// The after-move print: the done marker and the final file path.
pub const DONE_TEMPLATE: &'static str = "after_move:__YOUTUIBE_DONE__\t%(filepath)s";

/// What the host offers, looked up before the arguments are built: whether
/// `aria2c` is installed, and whether the configured cookies file exists.
#[derive(Clone, Copy, Debug)]
pub struct HostFacts {
    pub aria2c_on_path: bool,
    pub cookies_file_found: bool,
}

/// The fractional digits of `f` thousandths (`1 <= f <= 999`), trailing
/// zeros dropped.
pub open spec fn frac_text(f: nat) -> Seq<char> {
    let d1 = f / 100;
    let d2 = (f / 10) % 10;
    let d3 = f % 10;
    if f % 100 == 0 {
        seq![digit_char(d1)]
    } else if f % 10 == 0 {
        seq![digit_char(d1), digit_char(d2)]
    } else {
        seq![digit_char(d1), digit_char(d2), digit_char(d3)]
    }
}

/// `ms` milliseconds written in seconds, the shortest way: `250` is `0.25`,
/// `2000` is `2`.
pub open spec fn seconds_text(ms: nat) -> Seq<char> {
    spec_decimal(ms / 1000) + if ms % 1000 == 0 {
        Seq::<char>::empty()
    } else {
        seq!['.'] + frac_text(ms % 1000)
    }
}

/// `ms` milliseconds as seconds in decimal notation.
pub fn seconds_string(ms: u64) -> (r: String)
    ensures
        r@ == seconds_text(ms as nat),
{
    let mut v = decimal_chars(ms / 1000);
    let f = ms % 1000;
    let ghost whole = v@;
    if f != 0 {
        v.push('.');
        v.push(digit(f / 100));
        if f % 100 != 0 {
            v.push(digit((f / 10) % 10));
            if f % 10 != 0 {
                v.push(digit(f % 10));
            }
        }
        assert(v@ =~= whole + (seq!['.'] + frac_text(f as nat)));
    } else {
        assert(v@ =~= whole + Seq::<char>::empty());
    }
    string_of(v.as_slice())
}

/// The aria2 downloader arguments for `n` connections.
pub open spec fn aria2_text(n: nat) -> Seq<char> {
    "aria2c:-x "@ + spec_decimal(n) + " -s "@ + spec_decimal(n)
        + " -k 1M --continue=true --file-allocation=none --summary-interval=1"@
}

fn aria2_string(n: usize) -> (r: String)
    ensures
        r@ == aria2_text(n as nat),
{
    let d = decimal_word(n);
    let mut s = owned("aria2c:-x ");
    s.append(d.as_str());
    s.append(" -s ");
    s.append(d.as_str());
    s.append(" -k 1M --continue=true --file-allocation=none --summary-interval=1");
    s
}

/// The fixed head of every download command, from the settings.
pub open spec fn head_args(s: Settings) -> Seq<Seq<char>> {
    seq![
        "--ignore-config"@,
        "--newline"@,
        "--progress"@,
        "--progress-delta"@,
        "0.2"@,
        "--progress-template"@,
        PROGRESS_TEMPLATE@,
        "--print"@,
        DONE_TEMPLATE@,
        "--paths"@,
        s.output_dir@,
        "--output"@,
        s.output_template@,
        "--concurrent-fragments"@,
        spec_decimal(clamp(s.concurrent_fragments as int, 1, 32) as nat),
        "--retries"@,
        s.retries@,
        "--fragment-retries"@,
        s.fragment_retries@,
        "--socket-timeout"@,
        spec_decimal(s.socket_timeout as nat),
        flag_word(s.continue_downloads, "--continue"@, "--no-continue"@),
        flag_word(s.no_overwrites, "--no-overwrites"@, "--force-overwrites"@),
        "--part"@,
    ]
}

/// Network, archive, file-name and access arguments from the settings.
pub open spec fn tuning_args(s: Settings) -> Seq<Seq<char>> {
    opt_pair("--retry-sleep"@, s.retry_sleep@) + opt_pair("--limit-rate"@, s.rate_limit@)
        + opt_pair("--throttled-rate"@, s.throttled_rate@) + pair_if(
        s.sleep_requests_ms > 0,
        "--sleep-requests"@,
        seconds_text(s.sleep_requests_ms as nat),
    ) + pair_if(s.archive, "--download-archive"@, s.archive_path@) + word_if(
        s.restrict_filenames,
        "--restrict-filenames"@,
    ) + word_if(s.write_playlist_metafiles, "--write-playlist-metafiles"@)
}

/// Cookie, proxy, identity and tool-location arguments from the settings.
pub open spec fn access_args(s: Settings) -> Seq<Seq<char>> {
    opt_pair("--cookies-from-browser"@, s.cookies_browser@) + opt_pair(
        "--cookies"@,
        s.cookies_file@,
    ) + opt_pair("--proxy"@, s.proxy@) + opt_pair("--impersonate"@, s.impersonate@) + opt_pair(
        "--geo-bypass-country"@,
        s.geo_bypass_country@,
    ) + opt_pair("--user-agent"@, s.user_agent@) + opt_pair(
        "--ffmpeg-location"@,
        s.ffmpeg_location@,
    )
}

/// The aria2 downloader arguments, when aria2 is enabled.
pub open spec fn aria2_args(s: Settings) -> Seq<Seq<char>> {
    if s.use_aria2 {
        seq![
            "--downloader"@,
            "aria2c"@,
            "--downloader-args"@,
            aria2_text(clamp(s.aria2_connections as int, 1, 16) as nat),
        ]
    } else {
        seq![]
    }
}

/// Everything the settings contribute, in order.
pub open spec fn settings_args(s: Settings) -> Seq<Seq<char>> {
    head_args(s) + tuning_args(s) + access_args(s) + aria2_args(s)
}

fn head_words(s: &Settings) -> (r: Vec<String>)
    ensures
        r.deep_view() == head_args(*s),
{
    let mut a: Vec<String> = Vec::new();
    push_word(&mut a, "--ignore-config");
    push_word(&mut a, "--newline");
    push_word(&mut a, "--progress");
    push_word(&mut a, "--progress-delta");
    push_word(&mut a, "0.2");
    push_word(&mut a, "--progress-template");
    push_word(&mut a, PROGRESS_TEMPLATE);
    push_word(&mut a, "--print");
    push_word(&mut a, DONE_TEMPLATE);
    push_word(&mut a, "--paths");
    push_word(&mut a, s.output_dir.as_str());
    push_word(&mut a, "--output");
    push_word(&mut a, s.output_template.as_str());
    push_word(&mut a, "--concurrent-fragments");
    push_string(&mut a, decimal_word(clamp_usize(s.concurrent_fragments, 1, 32)));
    push_word(&mut a, "--retries");
    push_word(&mut a, s.retries.as_str());
    push_word(&mut a, "--fragment-retries");
    push_word(&mut a, s.fragment_retries.as_str());
    push_word(&mut a, "--socket-timeout");
    push_string(&mut a, decimal(s.socket_timeout));
    push_flag(&mut a, s.continue_downloads, "--continue", "--no-continue");
    push_flag(&mut a, s.no_overwrites, "--no-overwrites", "--force-overwrites");
    // Partial files are always kept; they are what an interrupted download resumes from.
    push_word(&mut a, "--part");
    assert(a.deep_view() =~= head_args(*s));
    a
}

fn tuning_words(s: &Settings) -> (r: Vec<String>)
    ensures
        r.deep_view() == tuning_args(*s),
{
    let mut a: Vec<String> = Vec::new();
    let ghost e = a.deep_view();
    push_opt_pair(&mut a, "--retry-sleep", s.retry_sleep.as_str());
    push_opt_pair(&mut a, "--limit-rate", s.rate_limit.as_str());
    push_opt_pair(&mut a, "--throttled-rate", s.throttled_rate.as_str());
    let secs = seconds_string(s.sleep_requests_ms);
    push_pair_if(&mut a, s.sleep_requests_ms > 0, "--sleep-requests", secs.as_str());
    push_pair_if(&mut a, s.archive, "--download-archive", s.archive_path.as_str());
    push_word_if(&mut a, s.restrict_filenames, "--restrict-filenames");
    push_word_if(&mut a, s.write_playlist_metafiles, "--write-playlist-metafiles");
    assert(e =~= Seq::<Seq<char>>::empty());
    assert(a.deep_view() =~= tuning_args(*s));
    a
}

fn access_words(s: &Settings) -> (r: Vec<String>)
    ensures
        r.deep_view() == access_args(*s),
{
    let mut a: Vec<String> = Vec::new();
    let ghost e = a.deep_view();
    push_opt_pair(&mut a, "--cookies-from-browser", s.cookies_browser.as_str());
    push_opt_pair(&mut a, "--cookies", s.cookies_file.as_str());
    push_opt_pair(&mut a, "--proxy", s.proxy.as_str());
    push_opt_pair(&mut a, "--impersonate", s.impersonate.as_str());
    push_opt_pair(&mut a, "--geo-bypass-country", s.geo_bypass_country.as_str());
    push_opt_pair(&mut a, "--user-agent", s.user_agent.as_str());
    push_opt_pair(&mut a, "--ffmpeg-location", s.ffmpeg_location.as_str());
    assert(e =~= Seq::<Seq<char>>::empty());
    assert(a.deep_view() =~= access_args(*s));
    a
}

fn aria2_words(s: &Settings) -> (r: Vec<String>)
    ensures
        r.deep_view() == aria2_args(*s),
{
    let mut a: Vec<String> = Vec::new();
    if s.use_aria2 {
        push_word(&mut a, "--downloader");
        push_word(&mut a, "aria2c");
        push_word(&mut a, "--downloader-args");
        push_string(&mut a, aria2_string(clamp_usize(s.aria2_connections, 1, 16)));
    }
    assert(a.deep_view() =~= aria2_args(*s));
    a
}

/// The yt-dlp filter that caps width and height (screen) or height (fixed
/// resolutions); empty for uncapped qualities and for a screen size of zero.
pub open spec fn dimension_filter_text(q: QualityView) -> Seq<char> {
    match q {
        QualityView::Screen { width, height } => if width > 0 && height > 0 {
            "[width<="@ + spec_decimal(width as nat) + "][height<="@ + spec_decimal(height as nat)
                + "]"@
        } else {
            seq![]
        },
        QualityView::P2160 => "[height<=2160]"@,
        QualityView::P1440 => "[height<=1440]"@,
        QualityView::P1080 => "[height<=1080]"@,
        QualityView::P720 => "[height<=720]"@,
        QualityView::P480 => "[height<=480]"@,
        QualityView::P360 => "[height<=360]"@,
        _ => seq![],
    }
}

/// The dimension filter of a quality.
pub fn dimension_filter(q: &Quality) -> (r: String)
    ensures
        r@ == dimension_filter_text(q@),
{
    match q {
        Quality::Screen { width, height } => {
            if *width > 0 && *height > 0 {
                let w = decimal(*width as u64);
                let h = decimal(*height as u64);
                let mut s = owned("[width<=");
                s.append(w.as_str());
                s.append("][height<=");
                s.append(h.as_str());
                s.append("]");
                s
            } else {
                String::new()
            }
        },
        Quality::P2160 => owned("[height<=2160]"),
        Quality::P1440 => owned("[height<=1440]"),
        Quality::P1080 => owned("[height<=1080]"),
        Quality::P720 => owned("[height<=720]"),
        Quality::P480 => owned("[height<=480]"),
        Quality::P360 => owned("[height<=360]"),
        _ => String::new(),
    }
}

/// The video-and-audio format selector: an exact selector is used as it is;
/// the smallest quality takes the worst streams; otherwise the best capped
/// streams, preferring H.264 with AAC when the container is MP4.
pub open spec fn format_selector_text(q: QualityView, container: Seq<char>) -> Seq<char> {
    match q {
        QualityView::Custom(s) => s,
        QualityView::Smallest => "worstvideo*+worstaudio/worst"@,
        _ => {
            let cap = dimension_filter_text(q);
            if container == "mp4"@ {
                "bv*"@ + cap + "[vcodec^=avc]+ba[acodec^=mp4a]/b"@ + cap + "[ext=mp4]/bv*"@ + cap
                    + "+ba/b"@ + cap
            } else {
                "bv*"@ + cap + "+ba/b"@ + cap
            }
        },
    }
}

/// The format selector for a video download.
pub fn format_selector(q: &Quality, container: &str) -> (r: String)
    ensures
        r@ == format_selector_text(q@, container@),
{
    match q {
        Quality::Custom(s) => owned(s.as_str()),
        Quality::Smallest => owned("worstvideo*+worstaudio/worst"),
        _ => {
            let cap = dimension_filter(q);
            let mut s = owned("bv*");
            if str_eq(container, "mp4") {
                s.append(cap.as_str());
                s.append("[vcodec^=avc]+ba[acodec^=mp4a]/b");
                s.append(cap.as_str());
                s.append("[ext=mp4]/bv*");
                s.append(cap.as_str());
                s.append("+ba/b");
                s.append(cap.as_str());
            } else {
                s.append(cap.as_str());
                s.append("+ba/b");
                s.append(cap.as_str());
            }
            s
        },
    }
}

/// The format selector for a video-only download.
pub open spec fn video_only_selector_text(q: QualityView) -> Seq<char> {
    match q {
        QualityView::Custom(s) => s,
        QualityView::Smallest => "wv"@,
        _ => "bv"@ + dimension_filter_text(q),
    }
}

/// The format selector for a video-only download.
pub fn video_only_selector(q: &Quality) -> (r: String)
    ensures
        r@ == video_only_selector_text(q@),
{
    match q {
        Quality::Custom(s) => owned(s.as_str()),
        Quality::Smallest => owned("wv"),
        _ => {
            let cap = dimension_filter(q);
            let mut s = owned("bv");
            s.append(cap.as_str());
            s
        },
    }
}

/// The arguments that choose what is fetched.
pub open spec fn mode_args(o: OptionsView) -> Seq<Seq<char>> {
    match o.mode {
        MediaMode::Video => seq![
            "--format"@,
            format_selector_text(o.quality, o.video_container),
        ] + pair_if(o.video_container != "auto"@, "--merge-output-format"@, o.video_container),
        MediaMode::VideoOnly => seq!["--format"@, video_only_selector_text(o.quality)],
        MediaMode::Audio => (match o.quality {
            QualityView::Custom(f) => seq!["--format"@, f],
            _ => seq![],
        }) + seq!["--extract-audio"@, "--audio-format"@, o.audio_format] + pair_if(
            o.audio_format != "best"@,
            "--audio-quality"@,
            o.audio_quality,
        ),
        MediaMode::MetadataOnly => seq!["--skip-download"@],
    }
}

fn mode_words(o: &DownloadOptions) -> (r: Vec<String>)
    ensures
        r.deep_view() == mode_args(o@),
{
    let mut a: Vec<String> = Vec::new();
    let ghost e = a.deep_view();
    assert(e =~= Seq::<Seq<char>>::empty());
    match o.mode {
        MediaMode::Video => {
            let sel = format_selector(&o.quality, o.video_container.as_str());
            push_pair(&mut a, "--format", sel.as_str());
            let auto = str_eq(o.video_container.as_str(), "auto");
            push_pair_if(&mut a, !auto, "--merge-output-format", o.video_container.as_str());
        },
        MediaMode::VideoOnly => {
            let sel = video_only_selector(&o.quality);
            push_pair(&mut a, "--format", sel.as_str());
        },
        MediaMode::Audio => {
            match &o.quality {
                Quality::Custom(f) => {
                    push_pair(&mut a, "--format", f.as_str());
                },
                _ => {},
            }
            push_word(&mut a, "--extract-audio");
            push_pair(&mut a, "--audio-format", o.audio_format.as_str());
            let best = str_eq(o.audio_format.as_str(), "best");
            push_pair_if(&mut a, !best, "--audio-quality", o.audio_quality.as_str());
        },
        MediaMode::MetadataOnly => {
            push_word(&mut a, "--skip-download");
        },
    }
    assert(a.deep_view() =~= mode_args(o@));
    a
}

/// The playlist and subtitle arguments.
pub open spec fn playlist_subtitle_args(o: OptionsView) -> Seq<Seq<char>> {
    seq![flag_word(o.playlist, "--yes-playlist"@, "--no-playlist"@)] + opt_pair(
        "--playlist-items"@,
        o.playlist_items,
    ) + word_if(o.subtitles, "--write-subs"@) + word_if(o.auto_subtitles, "--write-auto-subs"@)
        + pair_if(o.subtitles || o.auto_subtitles, "--sub-langs"@, o.subtitle_languages)
        + word_if(o.embed_subtitles, "--embed-subs"@)
}

/// The thumbnail arguments. Audio downloads always embed cover art, converted
/// to JPEG.
pub open spec fn thumbnail_args(o: OptionsView) -> Seq<Seq<char>> {
    let audio = o.mode == MediaMode::Audio;
    word_if(o.thumbnail, "--write-thumbnail"@) + word_if(
        o.embed_thumbnail || audio,
        "--embed-thumbnail"@,
    ) + pair_if((o.embed_thumbnail || audio) && audio, "--convert-thumbnails"@, "jpg"@)
}

/// The arguments for playlists, subtitles and thumbnails.
pub open spec fn media_extra_args(o: OptionsView) -> Seq<Seq<char>> {
    playlist_subtitle_args(o) + thumbnail_args(o)
}

/// The post-processing, side-file and filtering arguments.
pub open spec fn post_args(o: OptionsView) -> Seq<Seq<char>> {
    let audio = o.mode == MediaMode::Audio;
    word_if(o.metadata || audio, "--embed-metadata"@) + word_if(o.chapters, "--embed-chapters"@)
        + pair_if(o.sponsorblock, "--sponsorblock-remove"@, o.sponsor_categories) + word_if(
        o.comments,
        "--write-comments"@,
    ) + word_if(o.info_json, "--write-info-json"@) + word_if(
        o.description,
        "--write-description"@,
    ) + word_if(o.live_from_start, "--live-from-start"@) + opt_pair("--dateafter"@, o.date_after)
        + opt_pair("--datebefore"@, o.date_before) + opt_pair("--match-filter"@, o.match_filter)
}

fn playlist_subtitle_words(o: &DownloadOptions) -> (r: Vec<String>)
    ensures
        r.deep_view() == playlist_subtitle_args(o@),
{
    let mut a: Vec<String> = Vec::new();
    let ghost e = a.deep_view();
    push_flag(&mut a, o.playlist, "--yes-playlist", "--no-playlist");
    let ghost s1 = a.deep_view();
    assert(s1 =~= seq![flag_word(o.playlist, "--yes-playlist"@, "--no-playlist"@)]);
    push_opt_pair(&mut a, "--playlist-items", o.playlist_items.as_str());
    push_word_if(&mut a, o.subtitles, "--write-subs");
    push_word_if(&mut a, o.auto_subtitles, "--write-auto-subs");
    push_pair_if(
        &mut a,
        o.subtitles || o.auto_subtitles,
        "--sub-langs",
        o.subtitle_languages.as_str(),
    );
    push_word_if(&mut a, o.embed_subtitles, "--embed-subs");
    assert(a.deep_view() =~= playlist_subtitle_args(o@));
    a
}

fn thumbnail_words(o: &DownloadOptions) -> (r: Vec<String>)
    ensures
        r.deep_view() == thumbnail_args(o@),
{
    let audio = o.mode == MediaMode::Audio;
    let mut a: Vec<String> = Vec::new();
    let ghost e = a.deep_view();
    push_word_if(&mut a, o.thumbnail, "--write-thumbnail");
    push_word_if(&mut a, o.embed_thumbnail || audio, "--embed-thumbnail");
    push_pair_if(&mut a, (o.embed_thumbnail || audio) && audio, "--convert-thumbnails", "jpg");
    assert(e =~= Seq::<Seq<char>>::empty());
    assert(a.deep_view() =~= thumbnail_args(o@));
    a
}

fn media_extra_words(o: &DownloadOptions) -> (r: Vec<String>)
    ensures
        r.deep_view() == media_extra_args(o@),
{
    let mut a = playlist_subtitle_words(o);
    append_words(&mut a, thumbnail_words(o));
    a
}

fn post_words(o: &DownloadOptions) -> (r: Vec<String>)
    ensures
        r.deep_view() == post_args(o@),
{
    let audio = o.mode == MediaMode::Audio;
    let mut a: Vec<String> = Vec::new();
    let ghost e = a.deep_view();
    push_word_if(&mut a, o.metadata || audio, "--embed-metadata");
    push_word_if(&mut a, o.chapters, "--embed-chapters");
    push_pair_if(&mut a, o.sponsorblock, "--sponsorblock-remove", o.sponsor_categories.as_str());
    push_word_if(&mut a, o.comments, "--write-comments");
    push_word_if(&mut a, o.info_json, "--write-info-json");
    push_word_if(&mut a, o.description, "--write-description");
    push_word_if(&mut a, o.live_from_start, "--live-from-start");
    push_opt_pair(&mut a, "--dateafter", o.date_after.as_str());
    push_opt_pair(&mut a, "--datebefore", o.date_before.as_str());
    push_opt_pair(&mut a, "--match-filter", o.match_filter.as_str());
    assert(e =~= Seq::<Seq<char>>::empty());
    assert(a.deep_view() =~= post_args(o@));
    a
}

/// What `shell_words::split` returns for a text: `Some` of the words when it
/// succeeds, `None` when it reports an error.
pub uninterp spec fn shell_split(s: Seq<char>) -> Option<Seq<Seq<char>>>;

/// `shell_words::split`: splits `s` into words by POSIX shell quoting rules.
/// The words are `shell_split(s)`; the only error it reports (an unmatched
/// quote) displays as "missing closing quote", as its source shows.
#[verifier::external_body]
fn split_words(s: &str) -> (r: Result<Vec<String>, String>)
    ensures
        r is Ok <==> shell_split(s@) is Some,
        r matches Ok(v) ==> v.deep_view() == shell_split(s@)->0,
        r matches Err(e) ==> e@ == "missing closing quote"@,
{
    match shell_words::split(s) {
        Ok(v) => Ok(v),
        Err(e) => Err(e.to_string()),
    }
}

/// Extra arguments typed by the user, split with shell quoting; nothing when
/// the text is blank.
pub open spec fn raw_args(o: OptionsView) -> Option<Seq<Seq<char>>> {
    if is_blank(o.raw_args) {
        Some(seq![])
    } else {
        shell_split(o.raw_args)
    }
}

/// The first problem that stops a download before any process starts, if any.
pub open spec fn build_error(o: OptionsView, s: Settings, host: HostFacts) -> Option<Seq<char>> {
    if s.output_dir@.len() == 0 {
        Some("Output directory cannot be empty"@)
    } else if is_blank(s.output_template@) {
        Some("Filename template cannot be empty"@)
    } else if s.archive && s.archive_path@.len() == 0 {
        Some("Archive is enabled but its file path is empty"@)
    } else if s.use_aria2 && !host.aria2c_on_path {
        Some("aria2 was enabled, but aria2c is not installed or not on PATH"@)
    } else if !is_blank(s.cookies_file@) && !host.cookies_file_found {
        Some("Cookies file does not exist: "@ + s.cookies_file@)
    } else if raw_args(o) is None {
        Some("invalid advanced arguments: "@ + "missing closing quote"@)
    } else {
        None
    }
}

/// The complete yt-dlp argument vector for downloading `url`, or the reason
/// there is none. The URL always comes last, after `--`, so that no extra
/// argument can consume it.
pub open spec fn spec_build_args(o: OptionsView, s: Settings, url: Seq<char>, host: HostFacts) -> Result<
    Seq<Seq<char>>,
    Seq<char>,
> {
    match build_error(o, s, host) {
        Some(e) => Err(e),
        None => Ok(
            settings_args(s) + mode_args(o) + media_extra_args(o) + post_args(o) + raw_args(
                o,
            )->0 + seq!["--"@, url],
        ),
    }
}

/// The argument vector for downloading `url` with `options` and `settings`.
#[verifier::spinoff_prover]
pub fn build_args(options: &DownloadOptions, settings: &Settings, url: &str, host: &HostFacts) -> (r:
    Result<Vec<String>, String>)
    ensures
        match r {
            Ok(v) => spec_build_args(options@, *settings, url@, *host) == Ok::<
                Seq<Seq<char>>,
                Seq<char>,
            >(v.deep_view()),
            Err(e) => spec_build_args(options@, *settings, url@, *host) == Err::<
                Seq<Seq<char>>,
                Seq<char>,
            >(e@),
        },
{
    if settings.output_dir.as_str().is_empty() {
        return Err(owned("Output directory cannot be empty"));
    }
    if blank(settings.output_template.as_str()) {
        return Err(owned("Filename template cannot be empty"));
    }
    if settings.archive && settings.archive_path.as_str().is_empty() {
        return Err(owned("Archive is enabled but its file path is empty"));
    }
    if settings.use_aria2 && !host.aria2c_on_path {
        return Err(owned("aria2 was enabled, but aria2c is not installed or not on PATH"));
    }
    if !blank(settings.cookies_file.as_str()) && !host.cookies_file_found {
        let mut e = owned("Cookies file does not exist: ");
        e.append(settings.cookies_file.as_str());
        return Err(e);
    }
    let raw: Vec<String> = if blank(options.raw_args.as_str()) {
        Vec::new()
    } else {
        match split_words(options.raw_args.as_str()) {
            Ok(v) => v,
            Err(e) => {
                let mut m = owned("invalid advanced arguments: ");
                m.append(e.as_str());
                return Err(m);
            },
        }
    };
    assert(raw.deep_view() =~= raw_args(options@)->0);
    let mut a = head_words(settings);
    append_words(&mut a, tuning_words(settings));
    append_words(&mut a, access_words(settings));
    append_words(&mut a, aria2_words(settings));
    append_words(&mut a, mode_words(options));
    append_words(&mut a, media_extra_words(options));
    append_words(&mut a, post_words(options));
    append_words(&mut a, raw);
    push_word(&mut a, "--");
    push_word(&mut a, url);
    assert(a.deep_view() =~= settings_args(*settings) + mode_args(options@) + media_extra_args(
        options@,
    ) + post_args(options@) + raw_args(options@)->0 + seq!["--"@, url@]);
    Ok(a)
}


/// Options whose value is a secret and is hidden in previews.
pub open spec fn is_secret_flag(a: Seq<char>) -> bool {
    ||| a == "--proxy"@
    ||| a == "--username"@
    ||| a == "--password"@
    ||| a == "--video-password"@
    ||| a == "--ap-password"@
}

/// Whether the word at position `i` is hidden: it follows a secret option
/// that is itself shown.
pub open spec fn redacted_at(args: Seq<Seq<char>>, i: int) -> bool
    decreases i,
{
    if i <= 0 {
        false
    } else {
        !redacted_at(args, i - 1) && is_secret_flag(args[i - 1])
    }
}

/// `a` gives option `flag` its value in one piece: `flag=value`.
pub open spec fn assigns(a: Seq<char>, flag: Seq<char>) -> bool {
    crate::text::spec_starts_with(a, flag + "="@)
}

/// The secret option that `a` gives a value in one piece, if any.
pub open spec fn assigned_secret(a: Seq<char>) -> Option<Seq<char>> {
    if assigns(a, "--proxy"@) {
        Some("--proxy"@)
    } else if assigns(a, "--username"@) {
        Some("--username"@)
    } else if assigns(a, "--password"@) {
        Some("--password"@)
    } else if assigns(a, "--video-password"@) {
        Some("--video-password"@)
    } else if assigns(a, "--ap-password"@) {
        Some("--ap-password"@)
    } else {
        None
    }
}

/// A word that gives a secret option its value in one piece
/// (`--password=...`) shows the option and `=`, then `<redacted>`; any other
/// word shows as it is.
pub open spec fn redact_word(a: Seq<char>) -> Seq<char> {
    match assigned_secret(a) {
        Some(f) => f + "="@ + "<redacted>"@,
        None => a,
    }
}

/// The words as a preview shows them: each value of a secret option, given
/// as the next word or after `=`, replaced by `<redacted>`.
pub open spec fn redact(args: Seq<Seq<char>>) -> Seq<Seq<char>> {
    Seq::new(
        args.len(),
        |i: int| if redacted_at(args, i) { "<redacted>"@ } else { redact_word(args[i]) },
    )
}

fn secret_flag(a: &str) -> (r: bool)
    ensures
        r == is_secret_flag(a@),
{
    str_eq(a, "--proxy") || str_eq(a, "--username") || str_eq(a, "--password") || str_eq(
        a,
        "--video-password",
    ) || str_eq(a, "--ap-password")
}

fn assigns_value(a: &str, flag: &str) -> (r: bool)
    ensures
        r == assigns(a@, flag@),
{
    let mut p = owned(flag);
    p.append("=");
    crate::text::starts_with(a, p.as_str())
}

fn shown_assignment(flag: &str) -> (r: String)
    ensures
        r@ == flag@ + "="@ + "<redacted>"@,
{
    let mut w = owned(flag);
    w.append("=");
    w.append("<redacted>");
    w
}

/// The word as a preview shows it.
fn redacted_word(a: &str) -> (r: String)
    ensures
        r@ == redact_word(a@),
{
    if assigns_value(a, "--proxy") {
        shown_assignment("--proxy")
    } else if assigns_value(a, "--username") {
        shown_assignment("--username")
    } else if assigns_value(a, "--password") {
        shown_assignment("--password")
    } else if assigns_value(a, "--video-password") {
        shown_assignment("--video-password")
    } else if assigns_value(a, "--ap-password") {
        shown_assignment("--ap-password")
    } else {
        owned(a)
    }
}

/// The argument vector with every secret value replaced by `<redacted>`.
pub fn redacted(args: &Vec<String>) -> (r: Vec<String>)
    ensures
        r.deep_view() == redact(args.deep_view()),
{
    let ghost d = args.deep_view();
    let mut out: Vec<String> = Vec::new();
    let mut redact_next = false;
    let mut i: usize = 0;
    while i < args.len()
        invariant
            d == args.deep_view(),
            i <= args.len(),
            redact_next == redacted_at(d, i as int),
            out.deep_view() == redact(d).take(i as int),
        decreases args.len() - i,
    {
        if redact_next {
            redact_next = false;
            push_word(&mut out, "<redacted>");
        } else {
            redact_next = secret_flag(args[i].as_str());
            let w = redacted_word(args[i].as_str());
            push_string(&mut out, w);
        }
        assert(out.deep_view() =~= redact(d).take(i + 1));
        i = i + 1;
    }
    assert(redact(d).take(args.len() as int) =~= redact(d));
    out
}

/// `s` with every single quote written as `'\''` (close the quotes, an
/// escaped quote, open them again).
pub open spec fn escape_single_quotes(s: Seq<char>) -> Seq<char>
    decreases s.len(),
{
    if s.len() == 0 {
        Seq::<char>::empty()
    } else {
        escape_single_quotes(s.drop_last()) + (if s.last() == '\'' {
            seq!['\'', '\\', '\'', '\'']
        } else {
            seq![s.last()]
        })
    }
}

/// What `shell_words::quote` returns for a word: the word itself when it is
/// non-empty and holds no special character, else the word in single quotes
/// with its own single quotes escaped.
pub open spec fn shell_quote(s: Seq<char>) -> Seq<char> {
    if plain_word(s) {
        s
    } else {
        seq!['\''] + escape_single_quotes(s) + seq!['\'']
    }
}

/// Characters that make `shell_words::quote` add quotes.
pub open spec fn is_shell_special(c: char) -> bool {
    ||| c == '\n'
    ||| c == '\''
    ||| c == '|'
    ||| c == '&'
    ||| c == ';'
    ||| c == '<'
    ||| c == '>'
    ||| c == '('
    ||| c == ')'
    ||| c == '$'
    ||| c == '`'
    ||| c == '\\'
    ||| c == '"'
    ||| c == ' '
    ||| c == '\t'
    ||| c == '*'
    ||| c == '?'
    ||| c == '['
    ||| c == '#'
    ||| c == '~'
    ||| c == '='
    ||| c == '%'
}

/// A non-empty word without special characters, which quoting leaves as it is.
pub open spec fn plain_word(s: Seq<char>) -> bool {
    s.len() > 0 && forall|i: int| 0 <= i < s.len() ==> !is_shell_special(#[trigger] s[i])
}

/// `shell_words::quote`: escapes a word for a POSIX shell. As the crate's
/// source (`escape_style` and `quote`) shows, the result is `shell_quote(s)`:
/// a non-empty word with none of the special characters comes back
/// unchanged; any other word is wrapped in single quotes, each single quote
/// inside written as `'\''` (a word with a newline and no single quote is
/// only wrapped, which is the same text).
#[verifier::external_body]
fn quote_word(s: &str) -> (r: String)
    ensures
        r@ == shell_quote(s@),
{
    shell_words::quote(s).into_owned()
}

/// Words joined with single spaces.
pub open spec fn join_words(ws: Seq<Seq<char>>) -> Seq<char>
    decreases ws.len(),
{
    if ws.len() == 0 {
        seq![]
    } else if ws.len() == 1 {
        ws[0]
    } else {
        join_words(ws.drop_last()) + " "@ + ws.last()
    }
}

/// Every word shell-quoted.
pub open spec fn quoted(ws: Seq<Seq<char>>) -> Seq<Seq<char>> {
    ws.map_values(|w: Seq<char>| shell_quote(w))
}

/// The command line a job runs, as the user sees it: the yt-dlp executable
/// and the redacted arguments, each shell-quoted, separated by spaces; or the
/// reason the job cannot run.
pub open spec fn preview_text(o: OptionsView, url: Seq<char>, s: Settings, host: HostFacts) -> Seq<
    char,
> {
    match spec_build_args(o, s, url, host) {
        Ok(args) => join_words(quoted(seq![s.yt_dlp_path@] + redact(args))),
        Err(e) => "Error: "@ + e,
    }
}

fn join_quoted(ws: &Vec<String>) -> (r: String)
    ensures
        r@ == join_words(quoted(ws.deep_view())),
{
    let ghost q = quoted(ws.deep_view());
    let mut out = String::new();
    let mut i: usize = 0;
    while i < ws.len()
        invariant
            q == quoted(ws.deep_view()),
            i <= ws.len(),
            out@ == join_words(q.take(i as int)),
        decreases ws.len() - i,
    {
        let w = quote_word(ws[i].as_str());
        assert(q.take(i + 1).drop_last() =~= q.take(i as int));
        if i > 0 {
            out.append(" ");
        } else {
            assert(q.take(0) =~= Seq::<Seq<char>>::empty());
        }
        out.append(w.as_str());
        i = i + 1;
    }
    assert(q.take(ws.len() as int) =~= q);
    out
}

/// The command preview of `job`: the exact command it runs with `settings`,
/// secrets redacted, or the error that prevents it.
pub fn command_preview(job: &Job, settings: &Settings, host: &HostFacts) -> (r: String)
    ensures
        r@ == preview_text(job.options@, job.url@, *settings, *host),
{
    match build_args(&job.options, settings, job.url.as_str(), host) {
        Ok(args) => {
            let shown = redacted(&args);
            let mut words: Vec<String> = Vec::new();
            let ghost e = words.deep_view();
            assert(e =~= Seq::<Seq<char>>::empty());
            push_word(&mut words, settings.yt_dlp_path.as_str());
            append_words(&mut words, shown);
            assert(words.deep_view() =~= seq![settings.yt_dlp_path@] + redact(args.deep_view()));
            join_quoted(&words)
        },
        Err(e) => {
            let mut m = owned("Error: ");
            m.append(e.as_str());
            m
        },
    }
}

/// Secret values never show in a preview. A secret option that is shown is
/// followed by `<redacted>` in place of its value, and a word that gives a
/// secret option its value after `=` shows as `<redacted>` or as the option,
/// `=` and `<redacted>`.
pub proof fn lemma_secrets_are_redacted(args: Seq<Seq<char>>, i: int)
    requires
        0 <= i < args.len(),
    ensures
        is_secret_flag(args[i]) && !redacted_at(args, i) && i + 1 < args.len() ==> redact(args)[i]
            == args[i] && redact(args)[i + 1] == "<redacted>"@,
        forall|f: Seq<char>, v: Seq<char>|
            is_secret_flag(f) && args[i] == f + "="@ + v ==> redact(args)[i] == "<redacted>"@
                || exists|g: Seq<char>| is_secret_flag(g) && #[trigger] redact(args)[i] == g + "="@
                + "<redacted>"@,
{
    if is_secret_flag(args[i]) && !redacted_at(args, i) && i + 1 < args.len() {
        lemma_flag_assigns_nothing(args[i]);
        assert(redacted_at(args, i + 1));
    }
    assert forall|f: Seq<char>, v: Seq<char>|
        is_secret_flag(f) && args[i] == f + "="@ + v implies redact(args)[i] == "<redacted>"@
            || exists|g: Seq<char>| is_secret_flag(g) && #[trigger] redact(args)[i] == g + "="@
            + "<redacted>"@ by {
        let a = args[i];
        assert(a.subrange(0, (f + "="@).len() as int) =~= f + "="@);
        assert(assigns(a, f));
        assert(assigned_secret(a) is Some);
        if !redacted_at(args, i) {
            let g = assigned_secret(a)->Some_0;
            assert(is_secret_flag(g));
            assert(redact(args)[i] == redact_word(a));
            assert(redact(args)[i] == g + "="@ + "<redacted>"@);
        }
    }
}

/// A secret option on its own gives nothing a value.
proof fn lemma_flag_assigns_nothing(f: Seq<char>)
    requires
        is_secret_flag(f),
    ensures
        assigned_secret(f) is None,
{
    reveal_strlit("--proxy");
    reveal_strlit("--username");
    reveal_strlit("--password");
    reveal_strlit("--video-password");
    reveal_strlit("--ap-password");
    reveal_strlit("=");
    assert forall|g: Seq<char>| is_secret_flag(g) implies !#[trigger] assigns(f, g) by {
        if assigns(f, g) {
            let p = g + "="@;
            assert(p[g.len() as int] == '=');
            assert(f.subrange(0, p.len() as int)[g.len() as int] == p[g.len() as int]);
            assert(f[g.len() as int] == '=');
        }
    }
    assert(!assigns(f, "--proxy"@));
    assert(!assigns(f, "--username"@));
    assert(!assigns(f, "--password"@));
    assert(!assigns(f, "--video-password"@));
    assert(!assigns(f, "--ap-password"@));
}

/// A built argument vector always ends with `--` and the URL, so no extra
/// argument can take the URL as its value.
pub proof fn lemma_url_is_last(o: OptionsView, s: Settings, url: Seq<char>, host: HostFacts)
    requires
        spec_build_args(o, s, url, host) is Ok,
    ensures
        ({
            let a = spec_build_args(o, s, url, host)->Ok_0;
            &&& a.len() >= 2
            &&& a[a.len() - 2] == "--"@
            &&& a[a.len() - 1] == url
        }),
{
}

/// Every built argument vector keeps partial files (`--part`), the basis of
/// resuming, and reflects the resume and overwrite-protection settings.
pub proof fn lemma_resume_flags(o: OptionsView, s: Settings, url: Seq<char>, host: HostFacts)
    requires
        spec_build_args(o, s, url, host) is Ok,
    ensures
        ({
            let a = spec_build_args(o, s, url, host)->Ok_0;
            &&& a[21] == (if s.continue_downloads { "--continue"@ } else { "--no-continue"@ })
            &&& a[22] == (if s.no_overwrites { "--no-overwrites"@ } else { "--force-overwrites"@ })
            &&& a[23] == "--part"@
        }),
{
    let a = spec_build_args(o, s, url, host)->Ok_0;
    assert(a.subrange(0, 24) =~= head_args(s));
}

/// An audio download extracts audio, keeps the chosen audio format, and
/// embeds cover art (converted to JPEG) and metadata, whatever the other
/// options say; with the original (`best`) audio format it asks for no
/// re-encoding quality.
#[verifier::spinoff_prover]
pub proof fn lemma_audio_gets_cover_art(o: OptionsView)
    requires
        o.mode == MediaMode::Audio,
    ensures
        mode_args(o).contains("--extract-audio"@),
        thumbnail_args(o).contains("--embed-thumbnail"@),
        exists|i: int|
            0 <= i < thumbnail_args(o).len() - 1 && #[trigger] thumbnail_args(o)[i]
                == "--convert-thumbnails"@
                && thumbnail_args(o)[i + 1] == "jpg"@,
        post_args(o)[0] == "--embed-metadata"@,
        o.audio_format == "best"@ ==> mode_args(o).len() == (match o.quality {
            QualityView::Custom(_) => 5int,
            _ => 3int,
        }),
{
    let tail = seq!["--extract-audio"@, "--audio-format"@, o.audio_format] + pair_if(
        o.audio_format != "best"@,
        "--audio-quality"@,
        o.audio_quality,
    );
    match o.quality {
        QualityView::Custom(f) => {
            assert(mode_args(o) =~= seq!["--format"@, f] + tail);
            assert(mode_args(o)[2] == "--extract-audio"@);
        },
        _ => {
            assert(mode_args(o) =~= tail);
            assert(mode_args(o)[0] == "--extract-audio"@);
        },
    }
    let t = thumbnail_args(o);
    let j: int = if o.thumbnail { 1 } else { 0 };
    assert(t =~= word_if(o.thumbnail, "--write-thumbnail"@) + seq![
        "--embed-thumbnail"@,
        "--convert-thumbnails"@,
        "jpg"@,
    ]);
    assert(t[j] == "--embed-thumbnail"@);
    assert(t[j + 1] == "--convert-thumbnails"@ && t[j + 2] == "jpg"@);
    let p = post_args(o);
    assert(word_if(o.metadata || true, "--embed-metadata"@) =~= seq!["--embed-metadata"@]);
}

/// A quality that caps the height at a fixed number of lines.
pub open spec fn fixed_height(q: QualityView) -> bool {
    ||| q is P2160
    ||| q is P1440
    ||| q is P1080
    ||| q is P720
    ||| q is P480
    ||| q is P360
}

/// The number of lines in a fixed quality's label (`1080` in `≤1080p`).
pub open spec fn label_height(q: QualityView) -> Seq<char> {
    let t = crate::labels::quality_text(q);
    t.subrange(1, t.len() - 1)
}

/// A fixed quality caps the height at exactly the number its label shows:
/// its label is `≤`, that number and `p`, and its dimension filter is
/// `[height<=` that number `]`, with no other bound.
pub proof fn lemma_cap_matches_label(q: QualityView)
    requires
        fixed_height(q),
    ensures
        crate::labels::quality_text(q) == "≤"@ + label_height(q) + "p"@,
        dimension_filter_text(q) == "[height<="@ + label_height(q) + "]"@,
{
    reveal_strlit("≤");
    reveal_strlit("p");
    reveal_strlit("[height<=");
    reveal_strlit("]");
    let t = crate::labels::quality_text(q);
    if q is P2160 {
        reveal_strlit("≤2160p");
        reveal_strlit("[height<=2160]");
    } else if q is P1440 {
        reveal_strlit("≤1440p");
        reveal_strlit("[height<=1440]");
    } else if q is P1080 {
        reveal_strlit("≤1080p");
        reveal_strlit("[height<=1080]");
    } else if q is P720 {
        reveal_strlit("≤720p");
        reveal_strlit("[height<=720]");
    } else if q is P480 {
        reveal_strlit("≤480p");
        reveal_strlit("[height<=480]");
    } else {
        reveal_strlit("≤360p");
        reveal_strlit("[height<=360]");
    }
    assert(t =~= "≤"@ + label_height(q) + "p"@);
    assert(dimension_filter_text(q) =~= "[height<="@ + label_height(q) + "]"@);
}

/// The `--format` value of a video download at a fixed quality. Every
/// alternative is capped at the height its label shows: for an MP4
/// container it first asks for an H.264 (`avc`) video stream with an AAC
/// (`mp4a`) audio stream, then a ready-made MP4, then any video with the
/// best audio, then the best single file; for any other container, any video
/// with the best audio, then the best single file.
pub proof fn lemma_video_format_caps_height(o: OptionsView, s: Settings, url: Seq<char>, host: HostFacts)
    requires
        spec_build_args(o, s, url, host) is Ok,
        o.mode == MediaMode::Video,
        fixed_height(o.quality),
    ensures
        ({
            let a = spec_build_args(o, s, url, host)->Ok_0;
            let cap = "[height<="@ + label_height(o.quality) + "]"@;
            exists|i: int|
                0 <= i < a.len() - 1 && a[i] == "--format"@ && #[trigger] a[i + 1] == (if o.video_container
                    == "mp4"@ {
                    "bv*"@ + cap + "[vcodec^=avc]+ba[acodec^=mp4a]/b"@ + cap + "[ext=mp4]/bv*"@ + cap
                        + "+ba/b"@ + cap
                } else {
                    "bv*"@ + cap + "+ba/b"@ + cap
                })
        }),
{
    lemma_cap_matches_label(o.quality);
    let a = spec_build_args(o, s, url, host)->Ok_0;
    let k = settings_args(s).len() as int;
    let m = mode_args(o);
    assert(m[0] == "--format"@ && m[1] == format_selector_text(o.quality, o.video_container));
    assert(a[k] == m[0]);
    assert(a[k + 1] == m[1]);
}

/// The screen quality caps width and height at the very numbers its label
/// shows (`screen ≤W×H`), when both are known.
pub proof fn lemma_screen_cap_matches_label(width: u32, height: u32)
    requires
        width > 0,
        height > 0,
    ensures
        exists|w: Seq<char>, h: Seq<char>|
            crate::labels::quality_text(QualityView::Screen { width, height }) == "screen ≤"@ + w + "×"@ + h
                && #[trigger] dimension_filter_text(QualityView::Screen { width, height }) == "[width<="@ + w
                + "][height<="@ + h + "]"@,
{
    let w = spec_decimal(width as nat);
    let h = spec_decimal(height as nat);
    assert(crate::labels::quality_text(QualityView::Screen { width, height }) == "screen ≤"@ + w + "×"@ + h);
}

/// A video-only download at a fixed quality asks for the best video stream
/// under the height its label shows.
pub proof fn lemma_video_only_caps_height(o: OptionsView, s: Settings, url: Seq<char>, host: HostFacts)
    requires
        spec_build_args(o, s, url, host) is Ok,
        o.mode == MediaMode::VideoOnly,
        fixed_height(o.quality),
    ensures
        ({
            let a = spec_build_args(o, s, url, host)->Ok_0;
            exists|i: int|
                0 <= i < a.len() - 1 && a[i] == "--format"@ && #[trigger] a[i + 1] == "bv[height<="@
                    + label_height(o.quality) + "]"@
        }),
{
    lemma_cap_matches_label(o.quality);
    let a = spec_build_args(o, s, url, host)->Ok_0;
    let k = settings_args(s).len() as int;
    let m = mode_args(o);
    assert(a[k] == m[0]);
    assert(a[k + 1] == m[1]);
    reveal_strlit("bv");
    reveal_strlit("[height<=");
    reveal_strlit("bv[height<=");
    assert(m[1] == "bv"@ + ("[height<="@ + label_height(o.quality) + "]"@));
    assert(m[1] =~= "bv[height<="@ + label_height(o.quality) + "]"@);
}

} // verus!
