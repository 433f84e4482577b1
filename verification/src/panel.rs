//! The search tab's state: the results, the selected result, its format
//! details, and the positions of the video and audio sliders; plus the audio
//! preview's play/pause decisions and the screen preset's display cap.
use crate::display::DisplayInfo;
use crate::formats::{is_none_choice, none_choice, SearchFormatChoice};
use crate::model::{Preset, Quality, QualityView};
use crate::screen::{slider_step, spec_slider_step, PlaybackState};
use crate::search::{has_subtitles, languages, subtitle_label, subtitle_label_text, SearchResult, SubtitleKeys};
use crate::text::{decimal, owned, spec_decimal};
use vstd::prelude::*;

verus! {

/// The search tab's state.
pub struct SearchPanel {
    pub results: Vec<SearchResult>,
    pub index: usize,
    pub details: Option<SubtitleKeys>,
    pub video: Vec<SearchFormatChoice>,
    pub audio: Vec<SearchFormatChoice>,
    pub video_index: usize,
    pub audio_index: usize,
    pub subtitles: bool,
}

impl SearchPanel {
    /// Both sliders have at least one stop and each slider's position is one
    /// of its stops.
    pub open spec fn wf(&self) -> bool {
        &&& self.video@.len() >= 1
        &&& self.audio@.len() >= 1
        &&& self.video_index < self.video@.len()
        &&& self.audio_index < self.audio@.len()
    }

    /// An empty search tab.
    pub fn new() -> (r: SearchPanel)
        ensures
            r.wf(),
            r.results@.len() == 0,
            r.index == 0,
            r.details is None,
            r.video@.len() == 1 && is_none_choice(r.video@[0]),
            r.audio@.len() == 1 && is_none_choice(r.audio@[0]),
            !r.subtitles,
    {
        SearchPanel {
            results: Vec::new(),
            index: 0,
            details: None,
            video: none_choice(),
            audio: none_choice(),
            video_index: 0,
            audio_index: 0,
            subtitles: false,
        }
    }

    /// Forgets the format details of the selected result (they are being
    /// fetched again, or could not be fetched).
    pub fn clear_details(&mut self)
        ensures
            final(self).wf(),
            final(self).results == old(self).results,
            final(self).index == old(self).index,
            final(self).details is None,
            final(self).video@.len() == 1 && is_none_choice(final(self).video@[0]),
            final(self).audio@.len() == 1 && is_none_choice(final(self).audio@[0]),
            final(self).video_index == 0 && final(self).audio_index == 0,
            !final(self).subtitles,
    {
        self.details = None;
        self.video = none_choice();
        self.audio = none_choice();
        self.video_index = 0;
        self.audio_index = 0;
        self.subtitles = false;
    }

    /// Takes new search results and selects the first.
    pub fn set_results(&mut self, results: Vec<SearchResult>)
        requires
            old(self).wf(),
        ensures
            final(self).wf(),
            final(self).results@ == results@,
            final(self).index == 0,
            final(self).details == old(self).details,
            final(self).video == old(self).video,
            final(self).audio == old(self).audio,
            final(self).video_index == old(self).video_index,
            final(self).audio_index == old(self).audio_index,
            final(self).subtitles == old(self).subtitles,
    {
        self.results = results;
        self.index = 0;
    }

    /// Selects result `index` when there is one; returns whether it did.
    pub fn select(&mut self, index: usize) -> (r: bool)
        requires
            old(self).wf(),
        ensures
            final(self).wf(),
            r == (index < old(self).results@.len()),
            final(self).index == (if r {
                index
            } else {
                old(self).index
            }),
            final(self).results == old(self).results,
            final(self).details == old(self).details,
            final(self).video == old(self).video,
            final(self).audio == old(self).audio,
            final(self).video_index == old(self).video_index,
            final(self).audio_index == old(self).audio_index,
            final(self).subtitles == old(self).subtitles,
    {
        if index < self.results.len() {
            self.index = index;
            true
        } else {
            false
        }
    }

    /// Takes the format details of the selected result: the slider stops
    /// and subtitle languages. Both sliders move to their best stop and
    /// subtitles start off. Returns the notice saying how many levels there
    /// are.
    pub fn details_ready(&mut self, keys: SubtitleKeys, video: Vec<SearchFormatChoice>, audio: Vec<
        SearchFormatChoice,
    >) -> (r: String)
        requires
            video@.len() >= 1,
            audio@.len() >= 1,
        ensures
            final(self).wf(),
            final(self).results == old(self).results,
            final(self).index == old(self).index,
            final(self).details == Some(keys),
            final(self).video@ == video@,
            final(self).audio@ == audio@,
            final(self).video_index == video@.len() - 1,
            final(self).audio_index == audio@.len() - 1,
            !final(self).subtitles,
            r@ == "Ready: "@ + spec_decimal((video@.len() - 1) as nat) + " video levels · "@
                + spec_decimal((audio@.len() - 1) as nat) + " audio levels"@,
    {
        let v = video.len() - 1;
        let a = audio.len() - 1;
        self.video = video;
        self.audio = audio;
        self.video_index = v;
        self.audio_index = a;
        self.subtitles = false;
        self.details = Some(keys);
        let mut n = owned("Ready: ");
        n.append(decimal(v as u64).as_str());
        n.append(" video levels · ");
        n.append(decimal(a as u64).as_str());
        n.append(" audio levels");
        n
    }

    /// The notice describing the chosen mix of video and audio.
    pub fn describe_mix(&self) -> (r: String)
        requires
            self.wf(),
        ensures
            r@ == "Download mix: video "@ + self.video@[self.video_index as int].label@
                + " · audio "@ + self.audio@[self.audio_index as int].label@,
    {
        let mut n = owned("Download mix: video ");
        n.append(self.video[self.video_index].label.as_str());
        n.append(" · audio ");
        n.append(self.audio[self.audio_index].label.as_str());
        n
    }

    /// Moves the video slider one stop; returns the mix notice.
    pub fn adjust_video(&mut self, next: bool) -> (r: String)
        requires
            old(self).wf(),
        ensures
            final(self).wf(),
            final(self).video_index == spec_slider_step(
                old(self).video_index as nat,
                old(self).video@.len() as nat,
                next,
            ),
            final(self).video == old(self).video,
            final(self).audio == old(self).audio,
            final(self).audio_index == old(self).audio_index,
            final(self).results == old(self).results,
            final(self).index == old(self).index,
            final(self).details == old(self).details,
            final(self).subtitles == old(self).subtitles,
            r@ == "Download mix: video "@ + final(self).video@[final(self).video_index as int].label@
                + " · audio "@ + final(self).audio@[final(self).audio_index as int].label@,
    {
        self.video_index = slider_step(self.video_index, self.video.len(), next);
        self.describe_mix()
    }

    /// Moves the audio slider one stop; returns the mix notice.
    pub fn adjust_audio(&mut self, next: bool) -> (r: String)
        requires
            old(self).wf(),
        ensures
            final(self).wf(),
            final(self).audio_index == spec_slider_step(
                old(self).audio_index as nat,
                old(self).audio@.len() as nat,
                next,
            ),
            final(self).video == old(self).video,
            final(self).audio == old(self).audio,
            final(self).video_index == old(self).video_index,
            final(self).results == old(self).results,
            final(self).index == old(self).index,
            final(self).details == old(self).details,
            final(self).subtitles == old(self).subtitles,
            r@ == "Download mix: video "@ + final(self).video@[final(self).video_index as int].label@
                + " · audio "@ + final(self).audio@[final(self).audio_index as int].label@,
    {
        self.audio_index = slider_step(self.audio_index, self.audio.len(), next);
        self.describe_mix()
    }

    /// Puts the video slider on stop `index` when there is one; returns the
    /// mix notice then.
    pub fn set_video(&mut self, index: usize) -> (r: Option<String>)
        requires
            old(self).wf(),
        ensures
            final(self).wf(),
            (index < old(self).video@.len()) == (r is Some),
            final(self).video_index == (if index < old(self).video@.len() {
                index
            } else {
                old(self).video_index
            }),
            final(self).video == old(self).video,
            final(self).audio == old(self).audio,
            final(self).audio_index == old(self).audio_index,
            final(self).results == old(self).results,
            final(self).index == old(self).index,
            final(self).details == old(self).details,
            final(self).subtitles == old(self).subtitles,
    {
        if index < self.video.len() {
            self.video_index = index;
            Some(self.describe_mix())
        } else {
            None
        }
    }

    /// Puts the audio slider on stop `index` when there is one; returns the
    /// mix notice then.
    pub fn set_audio(&mut self, index: usize) -> (r: Option<String>)
        requires
            old(self).wf(),
        ensures
            final(self).wf(),
            (index < old(self).audio@.len()) == (r is Some),
            final(self).audio_index == (if index < old(self).audio@.len() {
                index
            } else {
                old(self).audio_index
            }),
            final(self).video == old(self).video,
            final(self).audio == old(self).audio,
            final(self).video_index == old(self).video_index,
            final(self).results == old(self).results,
            final(self).index == old(self).index,
            final(self).details == old(self).details,
            final(self).subtitles == old(self).subtitles,
    {
        if index < self.audio.len() {
            self.audio_index = index;
            Some(self.describe_mix())
        } else {
            None
        }
    }

    /// Turns subtitles on or off for the next search download; they stay off
    /// when the video reports none. Returns the notice.
    pub fn toggle_subtitles(&mut self) -> (r: String)
        requires
            old(self).wf(),
        ensures
            final(self).wf(),
            ({
                let available = match old(self).details {
                    Some(k) => languages(k.manual.deep_view()).len() > 0 || languages(
                        k.automatic.deep_view(),
                    ).len() > 0,
                    None => false,
                };
                &&& !available ==> !final(self).subtitles && r@
                    == "No subtitles were reported for this video"@
                &&& available ==> final(self).subtitles == !old(self).subtitles
                &&& available && final(self).subtitles ==> r@ == "Subtitles enabled: "@
                    + subtitle_label_text(
                    languages(old(self).details->0.manual.deep_view()).len(),
                    languages(old(self).details->0.automatic.deep_view()).len(),
                )
                &&& available && !final(self).subtitles ==> r@ == "Subtitles disabled"@
            }),
            final(self).video == old(self).video,
            final(self).audio == old(self).audio,
            final(self).video_index == old(self).video_index,
            final(self).audio_index == old(self).audio_index,
            final(self).results == old(self).results,
            final(self).index == old(self).index,
            final(self).details == old(self).details,
    {
        let available = match &self.details {
            Some(k) => has_subtitles(k),
            None => false,
        };
        if !available {
            self.subtitles = false;
            return owned("No subtitles were reported for this video");
        }
        self.subtitles = !self.subtitles;
        if self.subtitles {
            let mut n = owned("Subtitles enabled: ");
            n.append(subtitle_label(self.details.as_ref()).as_str());
            n
        } else {
            owned("Subtitles disabled")
        }
    }
}

/// What pressing play/pause on the audio preview does.
#[derive(Clone, Copy, Debug, PartialEq, Eq, Structural)]
pub enum PreviewStep {
    /// Tell the player to pause.
    Pause,
    /// Tell the player to resume.
    Resume,
    /// The player is still connecting; nothing changes.
    Wait,
    /// Start a new player.
    Start,
    /// Nothing to do (no player to talk to).
    Nothing,
}

/// The next playback state and what to do when play/pause is pressed in
/// `state`; `has_player` says whether a running player can be told.
pub open spec fn spec_preview_toggle(state: PlaybackState, has_player: bool) -> (PlaybackState, PreviewStep) {
    match state {
        PlaybackState::Playing => if has_player {
            (PlaybackState::Paused, PreviewStep::Pause)
        } else {
            (state, PreviewStep::Nothing)
        },
        PlaybackState::Paused => if has_player {
            (PlaybackState::Playing, PreviewStep::Resume)
        } else {
            (state, PreviewStep::Nothing)
        },
        PlaybackState::Loading => (state, PreviewStep::Wait),
        PlaybackState::Stopped => (PlaybackState::Loading, PreviewStep::Start),
    }
}

/// Decides what play/pause does.
pub fn preview_toggle(state: PlaybackState, has_player: bool) -> (r: (PlaybackState, PreviewStep))
    ensures
        r == spec_preview_toggle(state, has_player),
{
    match state {
        PlaybackState::Playing => if has_player {
            (PlaybackState::Paused, PreviewStep::Pause)
        } else {
            (state, PreviewStep::Nothing)
        },
        PlaybackState::Paused => if has_player {
            (PlaybackState::Playing, PreviewStep::Resume)
        } else {
            (state, PreviewStep::Nothing)
        },
        PlaybackState::Loading => (state, PreviewStep::Wait),
        PlaybackState::Stopped => (PlaybackState::Loading, PreviewStep::Start),
    }
}

/// Pausing and then resuming a playing preview brings it back to playing.
pub proof fn lemma_pause_resume(has_player: bool)
    requires
        has_player,
    ensures
        spec_preview_toggle(spec_preview_toggle(PlaybackState::Playing, has_player).0, has_player).0
            == PlaybackState::Playing,
{
}

/// The audio format a preview plays: the chosen audio level, or the best
/// audio when none is chosen.
pub open spec fn preview_format_text(audio: Seq<SearchFormatChoice>, index: int) -> Seq<char> {
    if 0 <= index < audio.len() && audio[index].format_id@.len() > 0 {
        audio[index].format_id@
    } else {
        "bestaudio/best"@
    }
}

/// The format to preview.
pub fn preview_format(audio: &Vec<SearchFormatChoice>, index: usize) -> (r: String)
    ensures
        r@ == preview_format_text(audio@, index as int),
{
    if index < audio.len() && !audio[index].format_id.as_str().is_empty() {
        owned(audio[index].format_id.as_str())
    } else {
        owned("bestaudio/best")
    }
}

/// Fits the screen preset (the first) to the detected display: capped to its
/// size, or uncapped best when no display was detected. Returns the notice
/// saying which.
pub fn fit_screen_preset(presets: &mut Vec<Preset>, display: Option<&DisplayInfo>) -> (r: String)
    requires
        old(presets)@.len() >= 1,
    ensures
        final(presets)@.len() == old(presets)@.len(),
        forall|i: int| 1 <= i < old(presets)@.len() ==> #[trigger] final(presets)@[i] == old(presets)@[i],
        final(presets)@[0].name == old(presets)@[0].name,
        final(presets)@[0].summary == old(presets)@[0].summary,
        match display {
            Some(d) => final(presets)@[0].options@ == (crate::model::OptionsView {
                quality: QualityView::Screen { width: d.width, height: d.height },
                ..old(presets)@[0].options@
            }) && r@ == "Detected "@ + spec_decimal(d.width as nat) + "×"@ + spec_decimal(d.height as nat)
                + " on "@ + d.name@ + "; the screen preset is ready"@,
            None => final(presets)@[0].options@ == (crate::model::OptionsView {
                quality: QualityView::Best,
                ..old(presets)@[0].options@
            }) && r@ == "Display detection unavailable; screen preset falls back to uncapped best video"@,
        },
{
    let ghost before = presets@;
    let p = presets.remove(0);
    let (p, n) = match display {
        Some(d) => (
            with_quality(p, Quality::Screen { width: d.width, height: d.height }),
            detected_notice(d),
        ),
        None => (
            with_quality(p, Quality::Best),
            owned("Display detection unavailable; screen preset falls back to uncapped best video"),
        ),
    };
    presets.insert(0, p);
    assert forall|i: int| 1 <= i < before.len() implies #[trigger] presets@[i] == before[i] by {}
    n
}

#[verifier::rlimit(40)]
fn with_quality(p: Preset, q: Quality) -> (r: Preset)
    ensures
        r.name == p.name,
        r.summary == p.summary,
        r.options@ == (crate::model::OptionsView { quality: q@, ..p.options@ }),
{
    let mut p = p;
    p.options.quality = q;
    p
}

fn detected_notice(d: &DisplayInfo) -> (r: String)
    ensures
        r@ == "Detected "@ + spec_decimal(d.width as nat) + "×"@ + spec_decimal(d.height as nat)
            + " on "@ + d.name@ + "; the screen preset is ready"@,
{
    let mut n = owned("Detected ");
    n.append(decimal(d.width as u64).as_str());
    n.append("×");
    n.append(decimal(d.height as u64).as_str());
    n.append(" on ");
    n.append(d.name.as_str());
    n.append("; the screen preset is ready");
    n
}

} // verus!
