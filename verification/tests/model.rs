use youtuibe::model::Settings;
use youtuibe::storage::{data_dir, data_dir_from, legacy_state_path, legacy_state_path_from, state_path, state_path_in};

#[test]
fn output_override_moves_an_archive_in_the_former_directory() {
    let mut s = Settings::defaults_for(Some("/home/u/Downloads"));
    s.archive_path = "/home/u/Downloads/.tide-archive.txt".into();
    s.set_output_dir("/media/videos");
    assert_eq!(s.output_dir, "/media/videos");
    assert_eq!(s.archive_path, "/media/videos/.tide-archive.txt");
}

#[test]
fn output_override_keeps_an_archive_elsewhere() {
    let mut s = Settings::defaults_for(Some("/home/u/Downloads"));
    s.archive_path = "/srv/archive.txt".into();
    s.set_output_dir("/media/videos");
    assert_eq!(s.output_dir, "/media/videos");
    assert_eq!(s.archive_path, "/srv/archive.txt");
    assert_eq!(s.yt_dlp_path, "yt-dlp");
}

#[test]
fn default_archive_lives_in_the_download_directory() {
    let s = Settings::defaults_for(Some("/home/u/Downloads"));
    assert_eq!(s.archive_path, "/home/u/Downloads/.youtuibe-archive.txt");
    let mut moved = s.clone();
    moved.set_output_dir("/media/videos");
    assert_eq!(moved.archive_path, "/home/u/Downloads/.youtuibe-archive.txt");
}

#[test]
fn state_folder_falls_back_to_the_working_folder() {
    assert_eq!(data_dir_from(None), ".youtuibe");
    assert_eq!(data_dir_from(Some("/home/u/.local/share/youtuibe".into())), "/home/u/.local/share/youtuibe");
    assert_eq!(state_path_in("/home/u/.local/share/youtuibe"), "/home/u/.local/share/youtuibe/state.json");
}

#[test]
fn legacy_state_file_sits_in_the_earlier_data_folder() {
    assert_eq!(legacy_state_path_from(None), None);
    assert_eq!(
        legacy_state_path_from(Some("/home/u/.local/share/tide-dlp".into())),
        Some("/home/u/.local/share/tide-dlp/state.json".to_string())
    );
}

#[test]
fn state_lives_in_a_folder_named_for_the_application() {
    assert!(data_dir().ends_with("youtuibe"));
    assert!(state_path().ends_with("youtuibe/state.json"));
    if let Some(p) = legacy_state_path() {
        assert!(p.ends_with("tide-dlp/state.json"));
    }
    let s = Settings::default();
    assert!(!s.output_dir.is_empty());
    assert!(s.archive_path.ends_with(".youtuibe-archive.txt"));
}
