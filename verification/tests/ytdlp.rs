use youtuibe::model::{DownloadOptions, Job, MediaMode, Quality, Settings};
use youtuibe::ytdlp::{build_args, command_preview, redacted, seconds_string, HostFacts};

fn host() -> HostFacts {
    HostFacts { aria2c_on_path: true, cookies_file_found: true }
}

fn has_pair(args: &[String], a: &str, b: &str) -> bool {
    args.windows(2).any(|w| w[0] == a && w[1] == b)
}

#[test]
fn args_are_individual_and_url_is_last() {
    let options = DownloadOptions {
        raw_args: "--age-limit 18 --format-sort 'res:720'".into(),
        ..Default::default()
    };
    let settings = Settings::default();
    let args = build_args(&options, &settings, "https://example.com/watch?v=a&x=b", &host()).unwrap();
    assert_eq!(args[args.len() - 2], "--");
    assert_eq!(args.last().unwrap(), "https://example.com/watch?v=a&x=b");
    assert!(has_pair(&args, "--age-limit", "18"));
    assert!(has_pair(&args, "--format-sort", "res:720"));
}

#[test]
fn audio_preset_extracts_audio() {
    let options = DownloadOptions {
        mode: MediaMode::Audio,
        quality: Quality::Custom("251".into()),
        audio_format: "opus".into(),
        ..Default::default()
    };
    let args = build_args(&options, &Settings::default(), "https://x.test", &host()).unwrap();
    assert!(args.contains(&"--extract-audio".into()));
    assert!(has_pair(&args, "--audio-format", "opus"));
    assert!(has_pair(&args, "--format", "251"));
    assert!(args.contains(&"--embed-thumbnail".into()));
    assert!(args.contains(&"--embed-metadata".into()));
    assert!(has_pair(&args, "--convert-thumbnails", "jpg"));
}

#[test]
fn flac_audio_keeps_cover_art_flags() {
    let options = DownloadOptions {
        mode: MediaMode::Audio,
        quality: Quality::Custom("251".into()),
        audio_format: "flac".into(),
        ..Default::default()
    };
    let args = build_args(&options, &Settings::default(), "https://x.test", &host()).unwrap();
    assert!(has_pair(&args, "--audio-format", "flac"));
    assert!(args.contains(&"--embed-thumbnail".into()));
    assert!(has_pair(&args, "--convert-thumbnails", "jpg"));
}

#[test]
fn best_audio_is_not_inflated_to_flac() {
    let options = DownloadOptions {
        mode: MediaMode::Audio,
        audio_format: "best".into(),
        ..Default::default()
    };
    let args = build_args(&options, &Settings::default(), "https://x.test", &host()).unwrap();
    assert!(has_pair(&args, "--audio-format", "best"));
    assert!(!has_pair(&args, "--audio-format", "flac"));
    assert!(args.contains(&"--embed-thumbnail".into()));
}

#[test]
fn screen_quality_caps_both_dimensions_and_keeps_best_audio() {
    let options = DownloadOptions {
        quality: Quality::Screen { width: 1920, height: 1080 },
        ..DownloadOptions::default()
    };
    let args = build_args(&options, &Settings::default(), "https://x.test", &host()).unwrap();
    let selector = args
        .windows(2)
        .find(|pair| pair[0] == "--format")
        .map(|pair| pair[1].as_str())
        .unwrap();
    assert_eq!(selector, "bv*[width<=1920][height<=1080]+ba/b[width<=1920][height<=1080]");
}

#[test]
fn invalid_paths_fail_before_process_launch() {
    let settings = Settings { output_template: String::new(), ..Settings::default() };
    assert!(build_args(&DownloadOptions::default(), &settings, "https://x.test", &host())
        .unwrap_err()
        .contains("template"));

    let settings = Settings {
        cookies_file: "/definitely/not/a/real/cookies.txt".into(),
        ..Settings::default()
    };
    let missing = HostFacts { aria2c_on_path: true, cookies_file_found: false };
    assert!(build_args(&DownloadOptions::default(), &settings, "https://x.test", &missing)
        .unwrap_err()
        .contains("Cookies file"));
}

#[test]
fn build_errors_name_each_problem() {
    let empty_dir = Settings { output_dir: String::new(), ..Settings::default() };
    assert_eq!(
        build_args(&DownloadOptions::default(), &empty_dir, "u", &host()).unwrap_err(),
        "Output directory cannot be empty"
    );
    let no_archive = Settings { archive: true, archive_path: String::new(), ..Settings::default() };
    assert_eq!(
        build_args(&DownloadOptions::default(), &no_archive, "u", &host()).unwrap_err(),
        "Archive is enabled but its file path is empty"
    );
    let aria = Settings { use_aria2: true, ..Settings::default() };
    let no_aria = HostFacts { aria2c_on_path: false, cookies_file_found: true };
    assert_eq!(
        build_args(&DownloadOptions::default(), &aria, "u", &no_aria).unwrap_err(),
        "aria2 was enabled, but aria2c is not installed or not on PATH"
    );
    let bad_raw = DownloadOptions { raw_args: "--x 'open".into(), ..Default::default() };
    assert_eq!(
        build_args(&bad_raw, &Settings::default(), "u", &host()).unwrap_err(),
        "invalid advanced arguments: missing closing quote"
    );
}

#[test]
fn aria2_and_sleep_settings_become_arguments() {
    let settings = Settings { use_aria2: true, aria2_connections: 40, sleep_requests_ms: 1500, ..Settings::default() };
    let args = build_args(&DownloadOptions::default(), &settings, "u", &host()).unwrap();
    assert!(has_pair(&args, "--downloader", "aria2c"));
    assert!(has_pair(
        &args,
        "--downloader-args",
        "aria2c:-x 16 -s 16 -k 1M --continue=true --file-allocation=none --summary-interval=1"
    ));
    assert!(has_pair(&args, "--sleep-requests", "1.5"));
    assert!(args.contains(&"--part".to_string()));
    assert_eq!(seconds_string(250), "0.25");
    assert_eq!(seconds_string(2000), "2");
    assert_eq!(seconds_string(1005), "1.005");
}

#[test]
fn previews_hide_secrets_and_quote_words() {
    let settings = Settings { proxy: "http://user:pw@proxy".into(), ..Settings::default() };
    let job = Job::new("https://x.test/a b".into(), "Best".into(), DownloadOptions::default());
    let preview = command_preview(&job, &settings, &host());
    assert!(preview.starts_with("yt-dlp "));
    assert!(preview.contains("--proxy '<redacted>'"));
    assert!(!preview.contains("user:pw"));
    assert!(preview.ends_with("-- 'https://x.test/a b'"));
    let hidden = redacted(&vec!["--password".into(), "x".into(), "--proxy".into()]);
    assert_eq!(hidden, vec!["--password".to_string(), "<redacted>".into(), "--proxy".into()]);
}

#[test]
fn previews_hide_secrets_given_after_equals() {
    let hidden = redacted(&vec![
        "--password=SECRET".into(),
        "--proxy=http://user:pw@proxy".into(),
        "--age-limit=18".into(),
        "--ap-password=x=y".into(),
    ]);
    assert_eq!(
        hidden,
        vec![
            "--password=<redacted>".to_string(),
            "--proxy=<redacted>".into(),
            "--age-limit=18".into(),
            "--ap-password=<redacted>".into(),
        ]
    );
    let options = DownloadOptions { raw_args: "--video-password=hunter2".into(), ..DownloadOptions::default() };
    let job = Job::new("https://x.test".into(), "Best".into(), options);
    let preview = command_preview(&job, &Settings::default(), &host());
    assert!(preview.contains("--video-password=<redacted>"));
    assert!(!preview.contains("hunter2"));
}

#[test]
fn previews_escape_single_quotes() {
    let job = Job::new("https://x.test/it's".into(), "Best".into(), DownloadOptions::default());
    let preview = command_preview(&job, &Settings::default(), &host());
    assert!(preview.ends_with("-- 'https://x.test/it'\\''s'"), "{preview}");
}

#[test]
fn default_settings_build_with_extra_arguments() {
    let options = DownloadOptions { raw_args: "--age-limit 18 --format-sort 'res:720'".into(), ..DownloadOptions::default() };
    let a = build_args(&options, &Settings::default(), "https://example.com/watch?v=a&x=b", &host()).unwrap();
    assert_eq!(a[a.len() - 2], "--");
    assert_eq!(a[a.len() - 1], "https://example.com/watch?v=a&x=b");
}
