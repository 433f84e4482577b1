//! The mpv command line of the audio and video preview, and the controls a
//! running download worker accepts.
use crate::argv::{push_string, push_word};
use crate::text::owned;
use vstd::prelude::*;

verus! {

/// A request to a running download worker.
#[derive(Clone, Copy, Debug, PartialEq, Eq, Structural)]
pub enum Control {
    Pause,
    Resume,
    Cancel,
}

/// Whether the preview shows a window with video or plays sound only.
#[derive(Clone, Copy, Debug, PartialEq, Eq, Structural)]
pub enum PlayerMode {
    Audio,
    Video,
}

/// The words that depend on the preview mode.
pub open spec fn mode_words(mode: PlayerMode) -> Seq<Seq<char>> {
    match mode {
        PlayerMode::Audio => seq!["--no-video"@, "--force-window=no"@],
        PlayerMode::Video => seq!["--force-window=yes"@],
    }
}

/// The mpv arguments for previewing `url` with the yt-dlp format `format`.
/// The format travels inside a single `--ytdl-format=` word, and the URL
/// comes last, after `--`.
pub open spec fn spec_player_args(url: Seq<char>, format: Seq<char>, mode: PlayerMode, socket_arg: Seq<
    char,
>) -> Seq<Seq<char>> {
    seq![
        "--no-config"@,
        "--really-quiet"@,
        "--no-terminal"@,
        "--ytdl=yes"@,
        "--ytdl-format="@ + format,
        socket_arg,
    ] + mode_words(mode) + seq!["--"@, url]
}

/// The mpv argument vector; `socket_arg` names the control socket.
pub fn player_args(url: &str, format: &str, mode: PlayerMode, socket_arg: &str) -> (r: Vec<String>)
    ensures
        r.deep_view() == spec_player_args(url@, format@, mode, socket_arg@),
{
    let mut a: Vec<String> = Vec::new();
    push_word(&mut a, "--no-config");
    push_word(&mut a, "--really-quiet");
    push_word(&mut a, "--no-terminal");
    push_word(&mut a, "--ytdl=yes");
    let mut f = owned("--ytdl-format=");
    f.append(format);
    push_string(&mut a, f);
    push_word(&mut a, socket_arg);
    match mode {
        PlayerMode::Audio => {
            push_word(&mut a, "--no-video");
            push_word(&mut a, "--force-window=no");
        },
        PlayerMode::Video => {
            push_word(&mut a, "--force-window=yes");
        },
    }
    push_word(&mut a, "--");
    push_word(&mut a, url);
    assert(a.deep_view() =~= spec_player_args(url@, format@, mode, socket_arg@));
    a
}

/// In the preview command the URL is the last word, `--` comes just before
/// it, and the format is carried inside the single fifth word.
pub proof fn lemma_player_url_is_last(url: Seq<char>, format: Seq<char>, mode: PlayerMode, socket_arg: Seq<
    char,
>)
    ensures
        ({
            let a = spec_player_args(url, format, mode, socket_arg);
            &&& a.last() == url
            &&& a[a.len() - 2] == "--"@
            &&& a[4] == "--ytdl-format="@ + format
        }),
{
}

/// How many times the preview tries to reach mpv's control socket before it
/// gives up (one try every 50 ms).
pub const CONNECT_ATTEMPTS: u16 = 100;

/// What the player's process is doing while its control socket is not ready.
#[derive(Clone, Copy, Debug, PartialEq, Eq, Structural)]
pub enum PlayerProcess {
    /// Still running.
    Running,
    /// It has ended.
    Exited,
    /// Its state could not be read.
    Unknown,
}

/// The control request, if any, that waits while the player connects.
#[derive(Clone, Copy, Debug, PartialEq, Eq, Structural)]
pub enum WaitingControl {
    /// No request.
    Nothing,
    /// A request to stop.
    Stop,
    /// Any other request; it is dropped.
    Other,
    /// The screen has gone away and will send nothing more.
    Closed,
}

/// What the preview does after a failed try to reach the control socket.
#[derive(Clone, Copy, Debug, PartialEq, Eq, Structural)]
pub enum ConnectStep {
    /// The player ended by itself: report its exit and the connection error.
    ReportExit,
    /// Its state could not be read: report that.
    ReportWaitFailure,
    /// Stop the player and end quietly.
    Stop,
    /// Stop the player: its control socket never became ready.
    GiveUp,
    /// Pause briefly and try again; the number of failed tries so far.
    Retry(u16),
}

/// The step after the try that followed `attempts` failed tries: a player
/// that ended or cannot be read is reported, a stop request (or a closed
/// screen) stops it, and otherwise it is tried again until the tries run out.
pub open spec fn spec_connect_step(process: PlayerProcess, control: WaitingControl, attempts: u16) -> ConnectStep {
    match process {
        PlayerProcess::Exited => ConnectStep::ReportExit,
        PlayerProcess::Unknown => ConnectStep::ReportWaitFailure,
        PlayerProcess::Running => if control == WaitingControl::Stop || control == WaitingControl::Closed {
            ConnectStep::Stop
        } else if attempts + 1 >= CONNECT_ATTEMPTS {
            ConnectStep::GiveUp
        } else {
            ConnectStep::Retry((attempts + 1) as u16)
        },
    }
}

/// Decides what the preview does after a failed try to reach mpv.
pub fn connect_step(process: PlayerProcess, control: WaitingControl, attempts: u16) -> (r: ConnectStep)
    ensures
        r == spec_connect_step(process, control, attempts),
{
    match process {
        PlayerProcess::Exited => ConnectStep::ReportExit,
        PlayerProcess::Unknown => ConnectStep::ReportWaitFailure,
        PlayerProcess::Running => if control == WaitingControl::Stop || control == WaitingControl::Closed {
            ConnectStep::Stop
        } else if attempts >= CONNECT_ATTEMPTS - 1 {
            ConnectStep::GiveUp
        } else {
            ConnectStep::Retry(attempts + 1)
        },
    }
}

/// Starting from no failed tries, a running player that is never stopped is
/// given up on after exactly `CONNECT_ATTEMPTS` tries.
pub proof fn lemma_connect_gives_up(attempts: u16)
    requires
        attempts < CONNECT_ATTEMPTS,
    ensures
        spec_connect_step(PlayerProcess::Running, WaitingControl::Nothing, attempts) == (if attempts
            == CONNECT_ATTEMPTS - 1 {
            ConnectStep::GiveUp
        } else {
            ConnectStep::Retry((attempts + 1) as u16)
        }),
{
}

} // verus!
