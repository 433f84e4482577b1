use youtuibe::jobs::{apply_event_at, outcome, JobEvent, WorkerExit};
use youtuibe::model::{DownloadOptions, DownloadStatus, Job};
use youtuibe::output::{classify_line, OutputLine};

#[test]
fn worker_progress_lines_are_read() {
    let line = "__YOUTUIBE_PROGRESS__\tdownloading\t50\t100\t25\t2\tFixture";
    match classify_line(line) {
        OutputLine::Progress { status, downloaded, total, speed, eta, title } => {
            assert_eq!(status, "downloading");
            assert_eq!(downloaded, "50");
            assert_eq!(total, "100");
            assert_eq!(speed, "25");
            assert_eq!(eta, Some(2));
            assert_eq!(title, "Fixture");
        }
        other => panic!("unexpected {other:?}"),
    }
}

#[test]
fn missing_eta_and_tabs_in_titles_are_handled() {
    match classify_line("__YOUTUIBE_PROGRESS__\tdownloading\t1\tNA\tNA\t NA \tA\tB") {
        OutputLine::Progress { eta, title, .. } => {
            assert_eq!(eta, None);
            assert_eq!(title, "A");
        }
        other => panic!("unexpected {other:?}"),
    }
    assert!(matches!(classify_line("__YOUTUIBE_PROGRESS__\ta\tb"), OutputLine::Malformed));
}

#[test]
fn done_and_log_lines_are_told_apart() {
    match classify_line("__YOUTUIBE_DONE__\t/tmp/fixture.mp4") {
        OutputLine::Done { path } => assert_eq!(path, "/tmp/fixture.mp4"),
        other => panic!("unexpected {other:?}"),
    }
    match classify_line("[Merger] Merging formats into \"x.mkv\"") {
        OutputLine::Log { processing, .. } => assert!(processing),
        other => panic!("unexpected {other:?}"),
    }
    match classify_line("[download] Destination: x") {
        OutputLine::Log { line, processing } => {
            assert!(!processing);
            assert_eq!(line, "[download] Destination: x");
        }
        other => panic!("unexpected {other:?}"),
    }
}

#[test]
fn worker_streams_progress_and_completion() {
    let job = Job::new("https://example.test/video".into(), "test".into(), DownloadOptions::default());
    let id = job.id;
    let mut jobs = vec![job];
    apply_event_at(&mut jobs, id, JobEvent::Started, 1);
    let mut progress = false;
    let mut output = false;
    for line in ["__YOUTUIBE_PROGRESS__\tdownloading\t50\t100\t25\t2\tFixture", "__YOUTUIBE_DONE__\t/tmp/fixture.mp4"] {
        match classify_line(line) {
            OutputLine::Progress { downloaded, total, speed, eta, title, .. } => {
                let event = JobEvent::Progress {
                    downloaded: downloaded.parse().unwrap(),
                    total: total.parse().unwrap(),
                    speed: speed.parse().unwrap(),
                    eta,
                    title,
                };
                apply_event_at(&mut jobs, id, event, 2);
                progress = jobs[0].progress.downloaded == 50 && jobs[0].progress.total == 100;
            }
            OutputLine::Done { path } => {
                apply_event_at(&mut jobs, id, JobEvent::Output { path }, 3);
                output = jobs[0].output_path == "/tmp/fixture.mp4";
            }
            other => panic!("unexpected {other:?}"),
        }
    }
    let last = outcome(&WorkerExit::Exited { success: true, status: "exit status: 0".into() }, false);
    let finished = matches!(last, JobEvent::Finished { success: true, .. });
    apply_event_at(&mut jobs, id, last, 4);
    assert!(progress && output && finished);
    assert_eq!(jobs[0].status, DownloadStatus::Completed);
    assert_eq!(jobs[0].progress.permille, 1000);
}
