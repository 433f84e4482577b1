use youtuibe::player::{
    connect_step, player_args, ConnectStep, PlayerMode, PlayerProcess, WaitingControl, CONNECT_ATTEMPTS,
};

#[test]
fn mpv_format_is_passed_as_a_single_option() {
    let args = player_args(
        "https://example.test/video",
        "251",
        PlayerMode::Audio,
        "--input-ipc-server=/tmp/test.sock",
    );
    assert!(args.contains(&"--ytdl-format=251".into()));
    assert!(!args.contains(&"--ytdl-format".into()));
    assert!(args.contains(&"--no-video".into()));
    assert!(args.contains(&"--input-ipc-server=/tmp/test.sock".into()));
    assert_eq!(args[args.len() - 2], "--");
    assert_eq!(args.last().unwrap(), "https://example.test/video");
}

#[test]
fn video_player_keeps_video_and_uses_ipc() {
    let args = player_args(
        "https://example.test/video",
        "137+251/137",
        PlayerMode::Video,
        "--input-ipc-server=/tmp/test.sock",
    );
    assert!(!args.contains(&"--no-video".into()));
    assert!(args.contains(&"--force-window=yes".into()));
    assert!(args.contains(&"--ytdl-format=137+251/137".into()));
}

#[test]
fn player_arguments_are_in_fixed_order() {
    let args = player_args("u", "f", PlayerMode::Audio, "s");
    assert_eq!(
        args,
        vec![
            "--no-config", "--really-quiet", "--no-terminal", "--ytdl=yes", "--ytdl-format=f", "s",
            "--no-video", "--force-window=no", "--", "u"
        ]
    );
}

#[test]
fn player_connection_retries_then_gives_up() {
    assert_eq!(connect_step(PlayerProcess::Running, WaitingControl::Nothing, 0), ConnectStep::Retry(1));
    assert_eq!(connect_step(PlayerProcess::Running, WaitingControl::Other, 98), ConnectStep::Retry(99));
    assert_eq!(connect_step(PlayerProcess::Running, WaitingControl::Nothing, CONNECT_ATTEMPTS - 1), ConnectStep::GiveUp);
    assert_eq!(connect_step(PlayerProcess::Running, WaitingControl::Stop, 5), ConnectStep::Stop);
    assert_eq!(connect_step(PlayerProcess::Running, WaitingControl::Closed, 5), ConnectStep::Stop);
    assert_eq!(connect_step(PlayerProcess::Exited, WaitingControl::Stop, 5), ConnectStep::ReportExit);
    assert_eq!(connect_step(PlayerProcess::Unknown, WaitingControl::Nothing, 5), ConnectStep::ReportWaitFailure);
}
