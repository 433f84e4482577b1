//! The download model: job status, media mode, quality, per-job options,
//! global settings, jobs, and the built-in presets.
use crate::text::owned;
use vstd::prelude::*;

verus! {

/// Lifecycle of a download job.
#[derive(Clone, Copy, Debug, PartialEq, Eq, Structural)]
pub enum DownloadStatus {
    Queued,
    Inspecting,
    Downloading,
    Paused,
    Processing,
    Completed,
    Failed,
    Cancelled,
}

impl DownloadStatus {
    /// Completed, failed and cancelled jobs are finished for good.
    pub open spec fn spec_is_terminal(self) -> bool {
        self is Completed || self is Failed || self is Cancelled
    }

    /// Whether the job has finished for good (completed, failed or cancelled).
    pub fn is_terminal(&self) -> (r: bool)
        ensures
            r == self.spec_is_terminal(),
    {
        match self {
            DownloadStatus::Completed | DownloadStatus::Failed | DownloadStatus::Cancelled => true,
            _ => false,
        }
    }
}

/// What a job fetches.
#[derive(Clone, Copy, Debug, PartialEq, Eq, Structural)]
pub enum MediaMode {
    Video,
    Audio,
    VideoOnly,
    MetadataOnly,
}

/// Video quality cap, or an exact yt-dlp format selector.
#[derive(Clone, Debug)]
pub enum Quality {
    Best,
    Screen { width: u32, height: u32 },
    P2160,
    P1440,
    P1080,
    P720,
    P480,
    P360,
    Smallest,
    Custom(String),
}

/// The mathematical value of a [`Quality`].
pub enum QualityView {
    Best,
    Screen { width: u32, height: u32 },
    P2160,
    P1440,
    P1080,
    P720,
    P480,
    P360,
    Smallest,
    Custom(Seq<char>),
}

impl View for Quality {
    type V = QualityView;

    open spec fn view(&self) -> QualityView {
        match self {
            Quality::Best => QualityView::Best,
            Quality::Screen { width, height } => QualityView::Screen {
                width: *width,
                height: *height,
            },
            Quality::P2160 => QualityView::P2160,
            Quality::P1440 => QualityView::P1440,
            Quality::P1080 => QualityView::P1080,
            Quality::P720 => QualityView::P720,
            Quality::P480 => QualityView::P480,
            Quality::P360 => QualityView::P360,
            Quality::Smallest => QualityView::Smallest,
            Quality::Custom(s) => QualityView::Custom(s@),
        }
    }
}

impl Quality {
    /// A copy with the same value.
    pub fn duplicate(&self) -> (r: Quality)
        ensures
            r@ == self@,
    {
        match self {
            Quality::Best => Quality::Best,
            Quality::Screen { width, height } => Quality::Screen { width: *width, height: *height },
            Quality::P2160 => Quality::P2160,
            Quality::P1440 => Quality::P1440,
            Quality::P1080 => Quality::P1080,
            Quality::P720 => Quality::P720,
            Quality::P480 => Quality::P480,
            Quality::P360 => Quality::P360,
            Quality::Smallest => Quality::Smallest,
            Quality::Custom(s) => Quality::Custom(owned(s.as_str())),
        }
    }

    /// Whether two qualities have the same value.
    pub fn same(&self, other: &Quality) -> (r: bool)
        ensures
            r == (self@ == other@),
    {
        match (self, other) {
            (Quality::Best, Quality::Best) => true,
            (
                Quality::Screen { width: w1, height: h1 },
                Quality::Screen { width: w2, height: h2 },
            ) => *w1 == *w2 && *h1 == *h2,
            (Quality::P2160, Quality::P2160) => true,
            (Quality::P1440, Quality::P1440) => true,
            (Quality::P1080, Quality::P1080) => true,
            (Quality::P720, Quality::P720) => true,
            (Quality::P480, Quality::P480) => true,
            (Quality::P360, Quality::P360) => true,
            (Quality::Smallest, Quality::Smallest) => true,
            (Quality::Custom(a), Quality::Custom(b)) => crate::text::str_eq(a.as_str(), b.as_str()),
            _ => false,
        }
    }
}

/// Per-job choices of the download builder.
#[derive(Clone, Debug)]
pub struct DownloadOptions {
    pub mode: MediaMode,
    pub quality: Quality,
    pub video_container: String,
    pub audio_format: String,
    pub audio_quality: String,
    pub playlist: bool,
    pub playlist_items: String,
    pub subtitles: bool,
    pub auto_subtitles: bool,
    pub subtitle_languages: String,
    pub embed_subtitles: bool,
    pub thumbnail: bool,
    pub embed_thumbnail: bool,
    pub metadata: bool,
    pub chapters: bool,
    pub sponsorblock: bool,
    pub sponsor_categories: String,
    pub comments: bool,
    pub info_json: bool,
    pub description: bool,
    pub live_from_start: bool,
    pub date_after: String,
    pub date_before: String,
    pub match_filter: String,
    pub raw_args: String,
}

/// The mathematical value of [`DownloadOptions`].
pub struct OptionsView {
    pub mode: MediaMode,
    pub quality: QualityView,
    pub video_container: Seq<char>,
    pub audio_format: Seq<char>,
    pub audio_quality: Seq<char>,
    pub playlist: bool,
    pub playlist_items: Seq<char>,
    pub subtitles: bool,
    pub auto_subtitles: bool,
    pub subtitle_languages: Seq<char>,
    pub embed_subtitles: bool,
    pub thumbnail: bool,
    pub embed_thumbnail: bool,
    pub metadata: bool,
    pub chapters: bool,
    pub sponsorblock: bool,
    pub sponsor_categories: Seq<char>,
    pub comments: bool,
    pub info_json: bool,
    pub description: bool,
    pub live_from_start: bool,
    pub date_after: Seq<char>,
    pub date_before: Seq<char>,
    pub match_filter: Seq<char>,
    pub raw_args: Seq<char>,
}

impl View for DownloadOptions {
    type V = OptionsView;

    open spec fn view(&self) -> OptionsView {
        OptionsView {
            mode: self.mode,
            quality: self.quality@,
            video_container: self.video_container@,
            audio_format: self.audio_format@,
            audio_quality: self.audio_quality@,
            playlist: self.playlist,
            playlist_items: self.playlist_items@,
            subtitles: self.subtitles,
            auto_subtitles: self.auto_subtitles,
            subtitle_languages: self.subtitle_languages@,
            embed_subtitles: self.embed_subtitles,
            thumbnail: self.thumbnail,
            embed_thumbnail: self.embed_thumbnail,
            metadata: self.metadata,
            chapters: self.chapters,
            sponsorblock: self.sponsorblock,
            sponsor_categories: self.sponsor_categories@,
            comments: self.comments,
            info_json: self.info_json,
            description: self.description,
            live_from_start: self.live_from_start,
            date_after: self.date_after@,
            date_before: self.date_before@,
            match_filter: self.match_filter@,
            raw_args: self.raw_args@,
        }
    }
}

/// The builder's starting point: best video, automatic container, original
/// audio, metadata and chapters embedded, nothing else.
pub open spec fn default_options_view() -> OptionsView {
    OptionsView {
        mode: MediaMode::Video,
        quality: QualityView::Best,
        video_container: "auto"@,
        audio_format: "best"@,
        audio_quality: "0"@,
        playlist: false,
        playlist_items: seq![],
        subtitles: false,
        auto_subtitles: false,
        subtitle_languages: "en.*,en"@,
        embed_subtitles: false,
        thumbnail: false,
        embed_thumbnail: false,
        metadata: true,
        chapters: true,
        sponsorblock: false,
        sponsor_categories: "sponsor,selfpromo,interaction"@,
        comments: false,
        info_json: false,
        description: false,
        live_from_start: false,
        date_after: seq![],
        date_before: seq![],
        match_filter: seq![],
        raw_args: seq![],
    }
}

impl Default for DownloadOptions {
    fn default() -> (r: DownloadOptions)
        ensures
            r@ == default_options_view(),
    {
        DownloadOptions {
            mode: MediaMode::Video,
            quality: Quality::Best,
            video_container: owned("auto"),
            audio_format: owned("best"),
            audio_quality: owned("0"),
            playlist: false,
            playlist_items: String::new(),
            subtitles: false,
            auto_subtitles: false,
            subtitle_languages: owned("en.*,en"),
            embed_subtitles: false,
            thumbnail: false,
            embed_thumbnail: false,
            metadata: true,
            chapters: true,
            sponsorblock: false,
            sponsor_categories: owned("sponsor,selfpromo,interaction"),
            comments: false,
            info_json: false,
            description: false,
            live_from_start: false,
            date_after: String::new(),
            date_before: String::new(),
            match_filter: String::new(),
            raw_args: String::new(),
        }
    }
}

impl DownloadOptions {
    /// A copy with the same value.
    pub fn duplicate(&self) -> (r: DownloadOptions)
        ensures
            r@ == self@,
    {
        DownloadOptions {
            mode: self.mode,
            quality: self.quality.duplicate(),
            video_container: owned(self.video_container.as_str()),
            audio_format: owned(self.audio_format.as_str()),
            audio_quality: owned(self.audio_quality.as_str()),
            playlist: self.playlist,
            playlist_items: owned(self.playlist_items.as_str()),
            subtitles: self.subtitles,
            auto_subtitles: self.auto_subtitles,
            subtitle_languages: owned(self.subtitle_languages.as_str()),
            embed_subtitles: self.embed_subtitles,
            thumbnail: self.thumbnail,
            embed_thumbnail: self.embed_thumbnail,
            metadata: self.metadata,
            chapters: self.chapters,
            sponsorblock: self.sponsorblock,
            sponsor_categories: owned(self.sponsor_categories.as_str()),
            comments: self.comments,
            info_json: self.info_json,
            description: self.description,
            live_from_start: self.live_from_start,
            date_after: owned(self.date_after.as_str()),
            date_before: owned(self.date_before.as_str()),
            match_filter: owned(self.match_filter.as_str()),
            raw_args: owned(self.raw_args.as_str()),
        }
    }
}

/// Global settings. Paths are held as text; the pause between requests is
/// held in milliseconds.
#[derive(Clone, Debug)]
pub struct Settings {
    pub output_dir: String,
    pub output_template: String,
    pub max_parallel_downloads: usize,
    pub concurrent_fragments: usize,
    pub retries: String,
    pub fragment_retries: String,
    pub retry_sleep: String,
    pub socket_timeout: u64,
    pub rate_limit: String,
    pub throttled_rate: String,
    pub sleep_requests_ms: u64,
    pub use_aria2: bool,
    pub aria2_connections: usize,
    pub continue_downloads: bool,
    pub no_overwrites: bool,
    pub archive: bool,
    pub archive_path: String,
    pub restrict_filenames: bool,
    pub write_playlist_metafiles: bool,
    pub cookies_browser: String,
    pub cookies_file: String,
    pub proxy: String,
    pub impersonate: String,
    pub geo_bypass_country: String,
    pub user_agent: String,
    pub ffmpeg_location: String,
    pub yt_dlp_path: String,
    pub notifications: bool,
}

/// The mathematical value of [`Settings`].
pub struct SettingsView {
    pub output_dir: Seq<char>,
    pub output_template: Seq<char>,
    pub max_parallel_downloads: usize,
    pub concurrent_fragments: usize,
    pub retries: Seq<char>,
    pub fragment_retries: Seq<char>,
    pub retry_sleep: Seq<char>,
    pub socket_timeout: u64,
    pub rate_limit: Seq<char>,
    pub throttled_rate: Seq<char>,
    pub sleep_requests_ms: u64,
    pub use_aria2: bool,
    pub aria2_connections: usize,
    pub continue_downloads: bool,
    pub no_overwrites: bool,
    pub archive: bool,
    pub archive_path: Seq<char>,
    pub restrict_filenames: bool,
    pub write_playlist_metafiles: bool,
    pub cookies_browser: Seq<char>,
    pub cookies_file: Seq<char>,
    pub proxy: Seq<char>,
    pub impersonate: Seq<char>,
    pub geo_bypass_country: Seq<char>,
    pub user_agent: Seq<char>,
    pub ffmpeg_location: Seq<char>,
    pub yt_dlp_path: Seq<char>,
    pub notifications: bool,
}

impl View for Settings {
    type V = SettingsView;

    open spec fn view(&self) -> SettingsView {
        SettingsView {
            output_dir: self.output_dir@,
            output_template: self.output_template@,
            max_parallel_downloads: self.max_parallel_downloads,
            concurrent_fragments: self.concurrent_fragments,
            retries: self.retries@,
            fragment_retries: self.fragment_retries@,
            retry_sleep: self.retry_sleep@,
            socket_timeout: self.socket_timeout,
            rate_limit: self.rate_limit@,
            throttled_rate: self.throttled_rate@,
            sleep_requests_ms: self.sleep_requests_ms,
            use_aria2: self.use_aria2,
            aria2_connections: self.aria2_connections,
            continue_downloads: self.continue_downloads,
            no_overwrites: self.no_overwrites,
            archive: self.archive,
            archive_path: self.archive_path@,
            restrict_filenames: self.restrict_filenames,
            write_playlist_metafiles: self.write_playlist_metafiles,
            cookies_browser: self.cookies_browser@,
            cookies_file: self.cookies_file@,
            proxy: self.proxy@,
            impersonate: self.impersonate@,
            geo_bypass_country: self.geo_bypass_country@,
            user_agent: self.user_agent@,
            ffmpeg_location: self.ffmpeg_location@,
            yt_dlp_path: self.yt_dlp_path@,
            notifications: self.notifications,
        }
    }
}

/// What `Path::new(dir).join(name)` gives, as text.
pub uninterp spec fn path_join(dir: Seq<char>, name: Seq<char>) -> Seq<char>;

/// Joins a file name onto a directory with `std::path::Path::join`; the
/// result equals `path_join` of the two texts. As `PathBuf::push` documents,
/// an absolute name replaces the directory and a relative one is appended
/// to it, so the result is never shorter than the name (texts from `&str`
/// convert back without loss). Nothing further is stated.
#[verifier::external_body]
pub(crate) fn join_path(dir: &str, name: &str) -> (r: String)
    ensures
        r@ == path_join(dir@, name@),
        r@.len() >= name@.len(),
{
    std::path::Path::new(dir).join(name).to_string_lossy().into_owned()
}

/// The default settings, given the user's download directory when one is
/// known. The archive file lives in the output directory.
pub open spec fn default_settings_holds(s: Settings, download_dir: Option<Seq<char>>) -> bool {
    let dir = match download_dir {
        Some(d) => d,
        None => "downloads"@,
    };
    &&& s.output_dir@ == dir
    &&& s.output_template@ == "%(uploader|Unknown)s/%(title)s [%(id)s].%(ext)s"@
    &&& s.max_parallel_downloads == 2
    &&& s.concurrent_fragments == 4
    &&& s.retries@ == "10"@
    &&& s.fragment_retries@ == "10"@
    &&& s.retry_sleep@ == "fragment:exp=1:20"@
    &&& s.socket_timeout == 30
    &&& s.rate_limit@ == Seq::<char>::empty()
    &&& s.throttled_rate@ == "100K"@
    &&& s.sleep_requests_ms == 250
    &&& !s.use_aria2
    &&& s.aria2_connections == 8
    &&& s.continue_downloads
    &&& s.no_overwrites
    &&& s.archive
    &&& s.archive_path@ == path_join(dir, ".youtuibe-archive.txt"@)
    &&& s.archive_path@.len() > 0
    &&& !s.restrict_filenames
    &&& !s.write_playlist_metafiles
    &&& s.cookies_browser@ == Seq::<char>::empty()
    &&& s.cookies_file@ == Seq::<char>::empty()
    &&& s.proxy@ == Seq::<char>::empty()
    &&& s.impersonate@ == Seq::<char>::empty()
    &&& s.geo_bypass_country@ == Seq::<char>::empty()
    &&& s.user_agent@ == Seq::<char>::empty()
    &&& s.ffmpeg_location@ == Seq::<char>::empty()
    &&& s.yt_dlp_path@ == "yt-dlp"@
    &&& s.notifications
}

impl Settings {
    /// Default settings for a user whose download directory is `download_dir`
    /// (`downloads` relative to the working directory when it is unknown).
    pub fn defaults_for(download_dir: Option<&str>) -> (r: Settings)
        ensures
            default_settings_holds(
                r,
                match download_dir {
                    Some(d) => Some(d@),
                    None => None,
                },
            ),
    {
        let output_dir = match download_dir {
            Some(d) => owned(d),
            None => owned("downloads"),
        };
        let archive_path = join_path(output_dir.as_str(), ".youtuibe-archive.txt");
        proof {
            reveal_strlit(".youtuibe-archive.txt");
        }
        Settings {
            output_dir,
            output_template: owned("%(uploader|Unknown)s/%(title)s [%(id)s].%(ext)s"),
            max_parallel_downloads: 2,
            concurrent_fragments: 4,
            retries: owned("10"),
            fragment_retries: owned("10"),
            retry_sleep: owned("fragment:exp=1:20"),
            socket_timeout: 30,
            rate_limit: String::new(),
            throttled_rate: owned("100K"),
            sleep_requests_ms: 250,
            use_aria2: false,
            aria2_connections: 8,
            continue_downloads: true,
            no_overwrites: true,
            archive: true,
            archive_path,
            restrict_filenames: false,
            write_playlist_metafiles: false,
            cookies_browser: String::new(),
            cookies_file: String::new(),
            proxy: String::new(),
            impersonate: String::new(),
            geo_bypass_country: String::new(),
            user_agent: String::new(),
            ffmpeg_location: String::new(),
            yt_dlp_path: owned("yt-dlp"),
            notifications: true,
        }
    }

    /// Overrides the download directory. An archive file that sat at
    /// `.tide-archive.txt` inside the former directory moves along with it;
    /// any other archive path is kept. Nothing else changes.
    pub fn set_output_dir(&mut self, dir: &str)
        ensures
            final(self).output_dir@ == dir@,
            final(self).archive_path@ == (if old(self).archive_path@ == path_join(
                old(self).output_dir@,
                ".tide-archive.txt"@,
            ) {
                path_join(dir@, ".tide-archive.txt"@)
            } else {
                old(self).archive_path@
            }),
            *final(self) == (Settings {
                output_dir: final(self).output_dir,
                archive_path: final(self).archive_path,
                ..*old(self)
            }),
    {
        let former = join_path(self.output_dir.as_str(), ".tide-archive.txt");
        if crate::text::str_eq(self.archive_path.as_str(), former.as_str()) {
            self.archive_path = join_path(dir, ".tide-archive.txt");
        }
        self.output_dir = owned(dir);
    }
}

/// Transfer progress of a job; the speed is in whole bytes per second and the
/// share done is in tenths of a percent.
#[derive(Clone, Copy, Debug)]
pub struct Progress {
    pub permille: u64,
    pub downloaded: u64,
    pub total: u64,
    pub speed: u64,
    pub eta: Option<u64>,
}

impl Progress {
    /// No bytes transferred yet.
    pub fn zero() -> (r: Progress)
        ensures
            r.permille == 0 && r.downloaded == 0 && r.total == 0 && r.speed == 0 && r.eta is None,
    {
        Progress { permille: 0, downloaded: 0, total: 0, speed: 0, eta: None }
    }
}

/// A download job. The identifier is a UUID as a 128-bit number; times are
/// microseconds since the Unix epoch.
#[derive(Clone, Debug)]
pub struct Job {
    pub id: u128,
    pub url: String,
    pub title: String,
    pub preset: String,
    pub options: DownloadOptions,
    pub status: DownloadStatus,
    pub progress: Progress,
    pub created_at: i64,
    pub started_at: Option<i64>,
    pub finished_at: Option<i64>,
    pub output_path: String,
    pub error: String,
    pub command_preview: String,
}

/// A fresh random (version 4) UUID from `uuid::Uuid::new_v4`, as a number.
/// It rests on chance, so nothing is stated of it.
#[verifier::external_body]
fn new_job_id() -> (r: u128) {
    uuid::Uuid::new_v4().as_u128()
}

/// The current time from `chrono::Utc::now`, in microseconds since the Unix
/// epoch. It rests on the clock, so nothing is stated of it.
#[verifier::external_body]
pub(crate) fn now_micros() -> (r: i64) {
    chrono::Utc::now().timestamp_micros()
}

/// `job` is freshly queued for `url` with `preset` and `options`: its title
/// is the URL, nothing has happened to it yet, and it has no command preview.
pub open spec fn is_fresh_job(job: Job, url: Seq<char>, preset: Seq<char>, options: OptionsView) -> bool {
    &&& is_new_job(job, url, preset, options)
    &&& job.command_preview@ == Seq::<char>::empty()
}

/// `job` is newly queued for `url` with `preset` and `options`: its title is
/// the URL and nothing has happened to it yet.
pub open spec fn is_new_job(job: Job, url: Seq<char>, preset: Seq<char>, options: OptionsView) -> bool {
    &&& job.url@ == url
    &&& job.title@ == url
    &&& job.preset@ == preset
    &&& job.options@ == options
    &&& job.status == DownloadStatus::Queued
    &&& job.progress.permille == 0
    &&& job.progress.downloaded == 0
    &&& job.progress.total == 0
    &&& job.progress.speed == 0
    &&& job.progress.eta is None
    &&& job.started_at is None
    &&& job.finished_at is None
    &&& job.output_path@ == Seq::<char>::empty()
    &&& job.error@ == Seq::<char>::empty()
}

impl Job {
    /// A queued job with the given identity and creation time.
    pub fn with_identity(id: u128, created_at: i64, url: String, preset: String, options: DownloadOptions) -> (r: Job)
        ensures
            is_fresh_job(r, url@, preset@, options@),
            r.id == id,
            r.created_at == created_at,
    {
        let title = owned(url.as_str());
        Job {
            id,
            url,
            title,
            preset,
            options,
            status: DownloadStatus::Queued,
            progress: Progress::zero(),
            created_at,
            started_at: None,
            finished_at: None,
            output_path: String::new(),
            error: String::new(),
            command_preview: String::new(),
        }
    }

    /// A queued job with a new random identifier, created now.
    pub fn new(url: String, preset: String, options: DownloadOptions) -> (r: Job)
        ensures
            is_fresh_job(r, url@, preset@, options@),
    {
        let id = new_job_id();
        let created_at = now_micros();
        Job::with_identity(id, created_at, url, preset, options)
    }
}

/// A named bundle of options offered in the builder.
#[derive(Clone, Debug)]
pub struct Preset {
    pub name: &'static str,
    pub summary: &'static str,
    pub options: DownloadOptions,
}

/// The options of each built-in preset, in order.
pub open spec fn preset_options_view(i: int) -> OptionsView {
    let base = default_options_view();
    if i == 0 {
        OptionsView { quality: QualityView::Screen { width: 0, height: 0 }, ..base }
    } else if i == 1 {
        OptionsView { quality: QualityView::P1080, video_container: "mp4"@, ..base }
    } else if i == 2 {
        OptionsView {
            quality: QualityView::P2160,
            video_container: "mkv"@,
            thumbnail: true,
            embed_thumbnail: true,
            subtitles: true,
            auto_subtitles: true,
            embed_subtitles: true,
            info_json: true,
            description: true,
            ..base
        }
    } else if i == 3 {
        OptionsView {
            mode: MediaMode::Audio,
            audio_format: "mp3"@,
            audio_quality: "0"@,
            thumbnail: true,
            embed_thumbnail: true,
            ..base
        }
    } else if i == 4 {
        OptionsView {
            mode: MediaMode::Audio,
            audio_format: "best"@,
            embed_thumbnail: true,
            ..base
        }
    } else if i == 5 {
        OptionsView { quality: QualityView::P720, video_container: "mp4"@, ..base }
    } else {
        OptionsView {
            mode: MediaMode::MetadataOnly,
            thumbnail: true,
            subtitles: true,
            auto_subtitles: true,
            info_json: true,
            description: true,
            ..base
        }
    }
}

/// The names of the built-in presets, in order.
pub open spec fn preset_name(i: int) -> Seq<char> {
    if i == 0 {
        "Best for screen"@
    } else if i == 1 {
        "Compatible MP4"@
    } else if i == 2 {
        "4K archive"@
    } else if i == 3 {
        "Audio MP3"@
    } else if i == 4 {
        "Audio original"@
    } else if i == 5 {
        "720p saver"@
    } else {
        "Metadata kit"@
    }
}

/// The one-line descriptions of the built-in presets, in order.
pub open spec fn preset_summary(i: int) -> Seq<char> {
    if i == 0 {
        "Caps video to the active display; keeps best audio"@
    } else if i == 1 {
        "Up to 1080p H.264/AAC-friendly MP4"@
    } else if i == 2 {
        "Best up to 2160p, MKV, thumbnail, JSON and subtitles"@
    } else if i == 3 {
        "High quality V0 MP3 with cover art and metadata"@
    } else if i == 4 {
        "Best source audio, embedded HD cover and metadata"@
    } else if i == 5 {
        "Good quality with modest size and broad compatibility"@
    } else {
        "No media; JSON, thumbnail, description and subtitles"@
    }
}

/// The seven built-in presets: display-aware best video, compatible 1080p MP4,
/// 4K archival, MP3, original audio, 720p saver and metadata kit.
pub fn presets() -> (r: Vec<Preset>)
    ensures
        r.len() == 7,
        forall|i: int| 0 <= i < 7 ==> (#[trigger] r[i]).options@ == preset_options_view(i),
        forall|i: int| 0 <= i < 7 ==> (#[trigger] r[i]).name@ == preset_name(i),
        forall|i: int| 0 <= i < 7 ==> (#[trigger] r[i]).summary@ == preset_summary(i),
{
    let mut v: Vec<Preset> = Vec::new();
    v.push(Preset {
        name: "Best for screen",
        summary: "Caps video to the active display; keeps best audio",
        options: DownloadOptions {
            quality: Quality::Screen { width: 0, height: 0 },
            ..DownloadOptions::default()
        },
    });
    v.push(Preset {
        name: "Compatible MP4",
        summary: "Up to 1080p H.264/AAC-friendly MP4",
        options: DownloadOptions {
            quality: Quality::P1080,
            video_container: owned("mp4"),
            ..DownloadOptions::default()
        },
    });
    v.push(Preset {
        name: "4K archive",
        summary: "Best up to 2160p, MKV, thumbnail, JSON and subtitles",
        options: DownloadOptions {
            quality: Quality::P2160,
            video_container: owned("mkv"),
            thumbnail: true,
            embed_thumbnail: true,
            subtitles: true,
            auto_subtitles: true,
            embed_subtitles: true,
            info_json: true,
            description: true,
            ..DownloadOptions::default()
        },
    });
    v.push(Preset {
        name: "Audio MP3",
        summary: "High quality V0 MP3 with cover art and metadata",
        options: DownloadOptions {
            mode: MediaMode::Audio,
            audio_format: owned("mp3"),
            audio_quality: owned("0"),
            thumbnail: true,
            embed_thumbnail: true,
            ..DownloadOptions::default()
        },
    });
    v.push(Preset {
        name: "Audio original",
        summary: "Best source audio, embedded HD cover and metadata",
        options: DownloadOptions {
            mode: MediaMode::Audio,
            audio_format: owned("best"),
            embed_thumbnail: true,
            ..DownloadOptions::default()
        },
    });
    v.push(Preset {
        name: "720p saver",
        summary: "Good quality with modest size and broad compatibility",
        options: DownloadOptions {
            quality: Quality::P720,
            video_container: owned("mp4"),
            ..DownloadOptions::default()
        },
    });
    v.push(Preset {
        name: "Metadata kit",
        summary: "No media; JSON, thumbnail, description and subtitles",
        options: DownloadOptions {
            mode: MediaMode::MetadataOnly,
            thumbnail: true,
            subtitles: true,
            auto_subtitles: true,
            info_json: true,
            description: true,
            ..DownloadOptions::default()
        },
    });
    v
}

/// Everything that survives a restart: settings and jobs.
#[derive(Clone, Debug)]
pub struct PersistedState {
    pub settings: Settings,
    pub jobs: Vec<Job>,
}

} // verus!
