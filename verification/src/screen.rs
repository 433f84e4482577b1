//! The screen's vocabulary: tabs, click targets, edit targets, playback
//! state, the rows of the builder and settings tables, and the small text
//! helpers the tables and sliders use.
use crate::text::{chars_of, owned, str_eq, string_between, string_of};
use vstd::prelude::*;

verus! {

/// The tabs, in the order the header shows them.
#[derive(Clone, Copy, Debug, PartialEq, Eq, Structural)]
pub enum Tab {
    Download,
    Search,
    Queue,
    History,
    Settings,
    Logs,
    Help,
}

/// The position of a tab in the header.
pub open spec fn tab_position(t: Tab) -> int {
    match t {
        Tab::Download => 0,
        Tab::Search => 1,
        Tab::Queue => 2,
        Tab::History => 3,
        Tab::Settings => 4,
        Tab::Logs => 5,
        Tab::Help => 6,
    }
}

/// The tab at position `i` (the last one for larger positions).
pub open spec fn tab_at(i: int) -> Tab {
    if i == 0 {
        Tab::Download
    } else if i == 1 {
        Tab::Search
    } else if i == 2 {
        Tab::Queue
    } else if i == 3 {
        Tab::History
    } else if i == 4 {
        Tab::Settings
    } else if i == 5 {
        Tab::Logs
    } else {
        Tab::Help
    }
}

impl Tab {
    /// All tabs, in header order.
    pub const ALL: [Tab; 7] = [
        Tab::Download,
        Tab::Search,
        Tab::Queue,
        Tab::History,
        Tab::Settings,
        Tab::Logs,
        Tab::Help,
    ];

    /// The position of this tab in [`Tab::ALL`].
    pub fn index(self) -> (r: usize)
        ensures
            r == tab_position(self),
            r < 7,
    {
        match self {
            Tab::Download => 0,
            Tab::Search => 1,
            Tab::Queue => 2,
            Tab::History => 3,
            Tab::Settings => 4,
            Tab::Logs => 5,
            Tab::Help => 6,
        }
    }

    /// The tab at position `i`, as `Tab::ALL[i]`.
    pub fn at(i: usize) -> (r: Tab)
        requires
            i < 7,
        ensures
            r == tab_at(i as int),
    {
        if i == 0 {
            Tab::Download
        } else if i == 1 {
            Tab::Search
        } else if i == 2 {
            Tab::Queue
        } else if i == 3 {
            Tab::History
        } else if i == 4 {
            Tab::Settings
        } else if i == 5 {
            Tab::Logs
        } else {
            Tab::Help
        }
    }

    /// The tab to the right, wrapping around.
    pub fn next(self) -> (r: Tab)
        ensures
            r == tab_at((tab_position(self) + 1) % 7),
    {
        Tab::at((self.index() + 1) % 7)
    }

    /// The tab to the left, wrapping around.
    pub fn previous(self) -> (r: Tab)
        ensures
            r == tab_at((tab_position(self) + 6) % 7),
    {
        Tab::at((self.index() + 6) % 7)
    }

    /// The tab a digit key selects: `1` is the first tab; digits past the
    /// last tab select the last one.
    pub fn for_digit(c: char) -> (r: Option<Tab>)
        ensures
            ('1' <= c <= '9') ==> r == Some(tab_at(if c as int - '1' as int > 6 {
                6
            } else {
                c as int - '1' as int
            })),
            !('1' <= c <= '9') ==> r is None,
    {
        if '1' <= c && c <= '9' {
            let d = (c as u32 - '1' as u32) as usize;
            Some(Tab::at(if d > 6 {
                6
            } else {
                d
            }))
        } else {
            None
        }
    }
}

/// Every tab sits at its own position, and moving right then left (or left
/// then right) comes back to where it started.
pub proof fn lemma_tab_navigation(t: Tab)
    ensures
        tab_at(tab_position(t)) == t,
        tab_position(t) < 7,
        tab_at((tab_position(tab_at((tab_position(t) + 1) % 7)) + 6) % 7) == t,
        tab_at((tab_position(tab_at((tab_position(t) + 6) % 7)) + 1) % 7) == t,
{
}

/// The caption of a tab in the header.
pub fn tab_caption(tab: Tab) -> (r: &'static str)
    ensures
        r@ == tab_caption_text(tab),
{
    match tab {
        Tab::Download => "↓ Download",
        Tab::Search => "⌕ Search",
        Tab::Queue => "≡ Queue",
        Tab::History => "◷ History",
        Tab::Settings => "⚙ Settings",
        Tab::Logs => "≣ Logs",
        Tab::Help => "? Help",
    }
}

/// The captions of the tabs.
pub open spec fn tab_caption_text(tab: Tab) -> Seq<char> {
    match tab {
        Tab::Download => "↓ Download"@,
        Tab::Search => "⌕ Search"@,
        Tab::Queue => "≡ Queue"@,
        Tab::History => "◷ History"@,
        Tab::Settings => "⚙ Settings"@,
        Tab::Logs => "≣ Logs"@,
        Tab::Help => "? Help"@,
    }
}

/// The value a text-entry dialog edits.
#[derive(Clone, Copy, Debug, PartialEq, Eq, Structural)]
pub enum EditTarget {
    Url,
    SearchQuery,
    RawArgs,
    SubtitleLanguages,
    PlaylistItems,
    AudioQuality,
    SponsorCategories,
    DateAfter,
    DateBefore,
    MatchFilter,
    Setting(usize),
}

/// What a click on a region of the screen does.
#[derive(Clone, Copy, Debug, PartialEq, Eq, Structural)]
pub enum ClickAction {
    Tab(Tab),
    SearchInput,
    RunSearch,
    SearchResult(usize),
    UseSearchResult,
    QueueSearchResult,
    ViewSearchThumbnail,
    SearchVideoQuality(usize),
    SearchAudioQuality(usize),
    ToggleSearchSubtitles,
    TogglePlayback,
    StopPlayback,
    Preset(usize),
    Builder(usize),
    Queue(usize),
    History(usize),
    Setting(usize),
    Add,
    AddStart,
    Inspect,
    Url,
    PauseResume,
    Retry,
    Cancel,
    CloseModal,
}

/// The state of the audio preview.
#[derive(Clone, Copy, Debug, PartialEq, Eq, Structural)]
pub enum PlaybackState {
    Stopped,
    Loading,
    Playing,
    Paused,
}

/// The labels of the download builder's rows, in order.
pub open spec fn builder_labels() -> Seq<Seq<char>> {
    seq![
        "Media"@,
        "Quality"@,
        "Container"@,
        "Audio format"@,
        "Playlist"@,
        "Subtitles"@,
        "Auto subtitles"@,
        "Embed subtitles"@,
        "Write thumbnail"@,
        "Embed thumbnail"@,
        "Embed metadata"@,
        "Embed chapters"@,
        "Remove SponsorBlock"@,
        "Write comments"@,
        "Write info JSON"@,
        "Write description"@,
        "Live from start"@,
        "Date after"@,
        "Date before"@,
        "Match filter"@,
        "Extra arguments"@,
        "All yt-dlp options"@,
    ]
}

/// The labels of the download builder's rows.
pub fn builder_rows() -> (r: [&'static str; 22])
    ensures
        forall|i: int| 0 <= i < 22 ==> (#[trigger] r@[i])@ == builder_labels()[i],
{
    [
        "Media",
        "Quality",
        "Container",
        "Audio format",
        "Playlist",
        "Subtitles",
        "Auto subtitles",
        "Embed subtitles",
        "Write thumbnail",
        "Embed thumbnail",
        "Embed metadata",
        "Embed chapters",
        "Remove SponsorBlock",
        "Write comments",
        "Write info JSON",
        "Write description",
        "Live from start",
        "Date after",
        "Date before",
        "Match filter",
        "Extra arguments",
        "All yt-dlp options",
    ]
}

/// The labels of the settings table's rows, in order.
pub open spec fn setting_labels() -> Seq<Seq<char>> {
    seq![
        "Output directory"@,
        "Filename template"@,
        "Parallel jobs"@,
        "Concurrent fragments"@,
        "Retries"@,
        "Fragment retries"@,
        "Retry sleep"@,
        "Rate limit"@,
        "Throttle threshold"@,
        "Use aria2"@,
        "aria2 connections"@,
        "Resume partials"@,
        "Protect existing"@,
        "Download archive"@,
        "Archive file"@,
        "Safe filenames"@,
        "Playlist metafiles"@,
        "Cookies browser"@,
        "Cookies file"@,
        "Proxy"@,
        "Impersonate"@,
        "Geo country"@,
        "User agent"@,
        "ffmpeg path"@,
        "yt-dlp executable"@,
        "Notifications"@,
        "Socket timeout"@,
        "Sleep requests"@,
    ]
}

/// The labels of the settings table's rows.
pub fn setting_rows() -> (r: [&'static str; 28])
    ensures
        forall|i: int| 0 <= i < 28 ==> (#[trigger] r@[i])@ == setting_labels()[i],
{
    [
        "Output directory",
        "Filename template",
        "Parallel jobs",
        "Concurrent fragments",
        "Retries",
        "Fragment retries",
        "Retry sleep",
        "Rate limit",
        "Throttle threshold",
        "Use aria2",
        "aria2 connections",
        "Resume partials",
        "Protect existing",
        "Download archive",
        "Archive file",
        "Safe filenames",
        "Playlist metafiles",
        "Cookies browser",
        "Cookies file",
        "Proxy",
        "Impersonate",
        "Geo country",
        "User agent",
        "ffmpeg path",
        "yt-dlp executable",
        "Notifications",
        "Socket timeout",
        "Sleep requests",
    ]
}

/// The next position of a slider with `len` stops after a step left or
/// right, staying on the track.
pub open spec fn spec_slider_step(current: nat, len: nat, next: bool) -> nat {
    if len == 0 {
        0
    } else if next {
        if current + 1 < len - 1 {
            current + 1
        } else {
            (len - 1) as nat
        }
    } else if current > 0 {
        (current - 1) as nat
    } else {
        0
    }
}

/// Moves a slider one stop.
pub fn slider_step(current: usize, len: usize, next: bool) -> (r: usize)
    requires
        next ==> current < usize::MAX,
    ensures
        r == spec_slider_step(current as nat, len as nat, next),
{
    if len == 0 {
        0
    } else if next {
        if current + 1 < len - 1 {
            current + 1
        } else {
            len - 1
        }
    } else if current > 0 {
        current - 1
    } else {
        0
    }
}

/// A slider step never leaves the track.
pub proof fn lemma_slider_step_on_track(current: nat, len: nat, next: bool)
    requires
        current < len,
    ensures
        spec_slider_step(current, len, next) < len,
        !next ==> spec_slider_step(current, len, next) <= current,
        next ==> spec_slider_step(current, len, next) >= current,
{
}

/// The column of stop `index` on a slider track `width` cells wide with
/// `len` evenly spread stops (the multiplication saturates, as
/// `usize::saturating_mul` does).
pub open spec fn spec_slider_position(index: nat, len: nat, width: nat) -> nat {
    if len <= 1 || width <= 1 {
        0
    } else {
        let p: int = if index * (width - 1) > usize::MAX {
            usize::MAX as int
        } else {
            index * (width - 1)
        };
        (p / (len - 1)) as nat
    }
}

/// The column of a slider stop.
pub fn slider_position(index: usize, len: usize, width: usize) -> (r: usize)
    ensures
        r == spec_slider_position(index as nat, len as nat, width as nat),
{
    if len <= 1 || width <= 1 {
        0
    } else {
        let p = match index.checked_mul(width - 1) {
            Some(p) => p,
            None => usize::MAX,
        };
        p / (len - 1)
    }
}

/// The stops of a slider lie on its track: the first at column 0, the last
/// at the far end, and no stop past it.
pub proof fn lemma_slider_positions(index: nat, len: nat, width: nat)
    requires
        index < len,
        width * len <= usize::MAX,
    ensures
        spec_slider_position(index, len, width) <= if width > 0 {
            width - 1
        } else {
            0
        },
        spec_slider_position(0, len, width) == 0,
        len > 1 && width > 1 ==> spec_slider_position((len - 1) as nat, len, width) == width - 1,
{
    if len > 1 && width > 1 {
        assert(index * (width - 1) <= (len - 1) * (width - 1)) by (nonlinear_arith)
            requires
                index < len,
                width > 1,
        ;
        assert((len - 1) * (width - 1) <= width * len) by (nonlinear_arith)
            requires
                len > 1,
                width > 1,
        ;
        assert(index * (width - 1) / (len - 1) <= width - 1) by (nonlinear_arith)
            requires
                index * (width - 1) <= (len - 1) * (width - 1),
                len > 1,
                width > 1,
        ;
        assert((len - 1) * (width - 1) / (len - 1) == width - 1) by (nonlinear_arith)
            requires
                len > 1,
                width > 1,
        ;
    }
}

/// "on" or "off".
pub open spec fn on_text(v: bool) -> Seq<char> {
    if v {
        "on"@
    } else {
        "off"@
    }
}

/// Shows a switch as "on" or "off".
pub fn on(v: bool) -> (r: String)
    ensures
        r@ == on_text(v),
{
    if v {
        owned("on")
    } else {
        owned("off")
    }
}

/// An optional text as shown: "none" when it is empty.
pub open spec fn empty_text(v: Seq<char>) -> Seq<char> {
    if v.len() == 0 {
        "none"@
    } else {
        v
    }
}

/// Shows an optional text, "none" when empty.
pub fn empty(v: &str) -> (r: String)
    ensures
        r@ == empty_text(v@),
{
    if v.is_empty() {
        owned("none")
    } else {
        owned(v)
    }
}

/// An edited optional text as stored: typing "none" clears it.
pub open spec fn none_text(v: Seq<char>) -> Seq<char> {
    if v == "none"@ {
        Seq::<char>::empty()
    } else {
        v
    }
}

/// Stores an edited optional text; "none" clears it.
pub fn none(v: String) -> (r: String)
    ensures
        r@ == none_text(v@),
{
    if str_eq(v.as_str(), "none") {
        String::new()
    } else {
        v
    }
}

/// Showing an optional text and storing what is shown gives it back.
pub proof fn lemma_empty_then_none(v: Seq<char>)
    requires
        v != "none"@,
    ensures
        none_text(empty_text(v)) == v,
{
}

/// `c` in ASCII lower case.
pub open spec fn ascii_lower(c: char) -> char {
    if 'A' <= c <= 'Z' {
        ((c as u32) + 32) as char
    } else {
        c
    }
}

/// Whether a typed switch value means "on": "on", "true", "yes" or "1", in
/// any ASCII letter case.
pub open spec fn spec_boolish(v: Seq<char>) -> bool {
    let l = v.map_values(|c: char| ascii_lower(c));
    l == "on"@ || l == "true"@ || l == "yes"@ || l == "1"@
}

/// The characters of `v` in ASCII lower case, as `str::to_ascii_lowercase`
/// gives them.
pub fn to_ascii_lowercase(v: &str) -> (r: String)
    ensures
        r@ == v@.map_values(|c: char| ascii_lower(c)),
{
    let s = chars_of(v);
    let mut out: Vec<char> = Vec::new();
    let mut i: usize = 0;
    while i < s.len()
        invariant
            i <= s.len(),
            out@ == s@.subrange(0, i as int).map_values(|c: char| ascii_lower(c)),
        decreases s.len() - i,
    {
        let c = s[i];
        let l = if 'A' <= c && c <= 'Z' {
            ((c as u8) + 32) as char
        } else {
            c
        };
        out.push(l);
        i = i + 1;
        assert(out@ =~= s@.subrange(0, i as int).map_values(|c: char| ascii_lower(c)));
    }
    assert(s@.subrange(0, s@.len() as int) =~= s@);
    string_of(out.as_slice())
}

/// Reads a typed switch value.
pub fn boolish(v: &str) -> (r: bool)
    ensures
        r == spec_boolish(v@),
{
    let l = to_ascii_lowercase(v);
    str_eq(l.as_str(), "on") || str_eq(l.as_str(), "true") || str_eq(l.as_str(), "yes") || str_eq(
        l.as_str(),
        "1",
    )
}

/// The value `v` after one step up (to at most `max`) or down (to at least
/// `min`).
pub open spec fn spec_step(v: nat, min: nat, max: nat, next: bool) -> nat {
    if next {
        if v + 1 < max {
            v + 1
        } else {
            max
        }
    } else {
        let d = if v > 0 {
            (v - 1) as nat
        } else {
            0
        };
        if d > min {
            d
        } else {
            min
        }
    }
}

/// Steps a bounded counter.
pub fn step(v: usize, min: usize, max: usize, next: bool) -> (r: usize)
    requires
        next ==> v < usize::MAX,
    ensures
        r == spec_step(v as nat, min as nat, max as nat, next),
{
    if next {
        if v + 1 < max {
            v + 1
        } else {
            max
        }
    } else {
        let d = if v > 0 {
            v - 1
        } else {
            0
        };
        if d > min {
            d
        } else {
            min
        }
    }
}

/// A step from inside the bounds stays inside them.
pub proof fn lemma_step_in_bounds(v: nat, min: nat, max: nat, next: bool)
    requires
        min <= v <= max,
    ensures
        min <= spec_step(v, min, max, next) <= max,
{
}

/// `s` cut to at most `n` characters; a cut text ends with an ellipsis that
/// takes the last place.
pub open spec fn spec_clip(s: Seq<char>, n: nat) -> Seq<char> {
    if s.len() <= n {
        s
    } else {
        s.take(if n > 0 {
            n - 1
        } else {
            0
        }) + seq!['…']
    }
}

/// Cuts a text for a table cell.
pub fn clip(s: &str, n: usize) -> (r: String)
    ensures
        r@ == spec_clip(s@, n as nat),
{
    let v = chars_of(s);
    if v.len() <= n {
        owned(s)
    } else {
        let keep = if n > 0 {
            n - 1
        } else {
            0
        };
        let mut w = string_between(&v, 0, keep);
        w.append("…");
        proof {
            reveal_strlit("…");
        }
        assert(w@ =~= spec_clip(s@, n as nat));
        w
    }
}

/// A cut text is never longer than the room given (apart from the ellipsis
/// itself when there is no room).
pub proof fn lemma_clip_fits(s: Seq<char>, n: nat)
    ensures
        spec_clip(s, n).len() <= if n > 0 {
            n
        } else {
            1
        },
{
}

} // verus!
