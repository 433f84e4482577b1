use youtuibe::jobs::{
    apply_event_at, cancel_idle_at, enqueue_urls, find_job, first_url, history_jobs, outcome,
    pause_or_resume, queue_jobs, recover_interrupted, retry_job, start_available, JobEvent,
    WorkerExit,
};
use youtuibe::model::{DownloadOptions, DownloadStatus, Job, Settings};
use youtuibe::player::Control;
use youtuibe::ytdlp::HostFacts;

fn job(id: u128, status: DownloadStatus) -> Job {
    let mut j = Job::with_identity(id, 0, format!("https://x.test/{id}"), "Best".into(), DownloadOptions::default());
    j.status = status;
    j
}

fn host() -> HostFacts {
    HostFacts { aria2c_on_path: true, cookies_file_found: true }
}

#[test]
fn recovery_requeues_interrupted_jobs() {
    let mut jobs = vec![
        job(1, DownloadStatus::Downloading),
        job(2, DownloadStatus::Completed),
        job(3, DownloadStatus::Paused),
        job(4, DownloadStatus::Queued),
        job(5, DownloadStatus::Processing),
        job(6, DownloadStatus::Inspecting),
        job(7, DownloadStatus::Failed),
    ];
    recover_interrupted(&mut jobs);
    let statuses: Vec<DownloadStatus> = jobs.iter().map(|j| j.status).collect();
    assert_eq!(
        statuses,
        vec![
            DownloadStatus::Queued, DownloadStatus::Completed, DownloadStatus::Queued,
            DownloadStatus::Queued, DownloadStatus::Queued, DownloadStatus::Queued,
            DownloadStatus::Failed
        ]
    );
    assert_eq!(jobs[0].error, "Recovered after an interrupted session");
    assert_eq!(jobs[3].error, "");
}

#[test]
fn events_update_the_matching_job() {
    let mut jobs = vec![job(1, DownloadStatus::Inspecting), job(2, DownloadStatus::Queued)];
    assert_eq!(apply_event_at(&mut jobs, 1, JobEvent::Started, 10), Some(0));
    assert_eq!(jobs[0].status, DownloadStatus::Downloading);
    assert_eq!(jobs[0].started_at, Some(10));
    apply_event_at(&mut jobs, 1, JobEvent::Progress { downloaded: 50, total: 100, speed: 25, eta: Some(2), title: "Fixture".into() }, 11);
    assert_eq!(jobs[0].progress.permille, 500);
    assert_eq!(jobs[0].title, "Fixture");
    apply_event_at(&mut jobs, 1, JobEvent::Progress { downloaded: 60, total: 0, speed: 0, eta: None, title: String::new() }, 12);
    assert_eq!(jobs[0].progress.permille, 0);
    assert_eq!(jobs[0].title, "Fixture");
    apply_event_at(&mut jobs, 1, JobEvent::Output { path: "/tmp/fixture.mp4".into() }, 13);
    assert_eq!(jobs[0].output_path, "/tmp/fixture.mp4");
    apply_event_at(&mut jobs, 1, JobEvent::Finished { success: true, error: String::new() }, 14);
    assert_eq!(jobs[0].status, DownloadStatus::Completed);
    assert_eq!(jobs[0].progress.permille, 1000);
    assert_eq!(jobs[0].finished_at, Some(14));
    assert_eq!(jobs[1].status, DownloadStatus::Queued);
    assert_eq!(apply_event_at(&mut jobs, 9, JobEvent::Paused, 15), None);
}

#[test]
fn finish_reasons_choose_the_final_state() {
    let mut jobs = vec![job(1, DownloadStatus::Downloading), job(2, DownloadStatus::Downloading), job(3, DownloadStatus::Downloading)];
    let cancelled = outcome(&WorkerExit::Exited { success: false, status: "signal: 9".into() }, true);
    apply_event_at(&mut jobs, 1, cancelled, 1);
    assert_eq!(jobs[0].status, DownloadStatus::Cancelled);
    assert_eq!(jobs[0].error, "Cancelled by user; partial data was kept for resuming");
    let failed = outcome(&WorkerExit::Exited { success: false, status: "exit status: 1".into() }, false);
    apply_event_at(&mut jobs, 2, failed, 1);
    assert_eq!(jobs[1].status, DownloadStatus::Failed);
    assert_eq!(jobs[1].error, "yt-dlp exited with exit status: 1");
    let lost = outcome(&WorkerExit::WaitFailed { error: "gone".into() }, false);
    apply_event_at(&mut jobs, 3, lost, 1);
    assert_eq!(jobs[2].error, "Could not wait for yt-dlp: gone");
}

#[test]
fn queue_and_history_split_the_jobs() {
    let jobs = vec![
        job(1, DownloadStatus::Completed),
        job(2, DownloadStatus::Queued),
        job(3, DownloadStatus::Failed),
        job(4, DownloadStatus::Paused),
    ];
    let queue: Vec<u128> = queue_jobs(&jobs).iter().map(|j| j.id).collect();
    let history: Vec<u128> = history_jobs(&jobs).iter().map(|j| j.id).collect();
    assert_eq!(queue, vec![2, 4]);
    assert_eq!(history, vec![3, 1]);
}

#[test]
fn free_slots_start_the_oldest_queued_jobs() {
    let mut jobs = vec![
        job(1, DownloadStatus::Queued),
        job(2, DownloadStatus::Downloading),
        job(3, DownloadStatus::Queued),
        job(4, DownloadStatus::Queued),
    ];
    let started = start_available(&mut jobs, 3, 1);
    assert_eq!(started, vec![0, 2]);
    assert_eq!(jobs[0].status, DownloadStatus::Inspecting);
    assert_eq!(jobs[2].status, DownloadStatus::Inspecting);
    assert_eq!(jobs[3].status, DownloadStatus::Queued);
    assert!(start_available(&mut jobs, 2, 3).is_empty());
}

#[test]
fn idle_jobs_cancel_directly() {
    let mut jobs = vec![job(1, DownloadStatus::Queued)];
    assert_eq!(cancel_idle_at(&mut jobs, 1, 99), Some(0));
    assert_eq!(jobs[0].status, DownloadStatus::Cancelled);
    assert_eq!(jobs[0].finished_at, Some(99));
    assert_eq!(pause_or_resume(DownloadStatus::Paused), Control::Resume);
    assert_eq!(pause_or_resume(DownloadStatus::Downloading), Control::Pause);
    assert_eq!(find_job(&jobs, 1), Some(0));
    assert_eq!(find_job(&jobs, 2), None);
}

#[test]
fn forced_retry_overwrites() {
    let old = Job::new("https://x.test/v".into(), "Best".into(), DownloadOptions { raw_args: "--no-mtime".into(), ..Default::default() });
    let settings = Settings::default();
    let plain = retry_job(&old, false, &settings, &host());
    let forced = retry_job(&old, true, &settings, &host());
    assert_eq!(plain.options.raw_args, "--no-mtime");
    assert_eq!(forced.options.raw_args, "--no-mtime --force-overwrites");
    assert_eq!(forced.status, DownloadStatus::Queued);
    assert_eq!(forced.url, old.url);
    assert!(forced.command_preview.contains("--force-overwrites"));
}

#[test]
fn typed_urls_are_queued_in_order() {
    let mut jobs = Vec::new();
    let settings = Settings::default();
    let n = enqueue_urls(&mut jobs, " youtu.be/a  http:// https://x.test/b ", "Best", &DownloadOptions::default(), &settings, &host());
    assert_eq!(n, 2);
    assert_eq!(jobs[0].url, "https://youtu.be/a");
    assert_eq!(jobs[1].url, "https://x.test/b");
    assert_eq!(jobs[1].title, "https://x.test/b");
    assert!(jobs[1].command_preview.ends_with("-- https://x.test/b"));
    assert_eq!(first_url("example.com/x y"), Some("https://example.com/x".to_string()));
    assert_eq!(first_url("   "), None);
}
