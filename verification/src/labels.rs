//! How values are named on screen: qualities, media modes, codecs, errors
//! and durations, and cycling a value through its choices.
use crate::model::{MediaMode, Quality, QualityView};
use crate::text::{
    chars_of, decimal, decimal_chars, digit, owned, spec_decimal, split_whitespace, str_eq,
    string_between, string_of, words_of,
};
use vstd::prelude::*;

verus! {

/// The name of a quality in the builder.
pub open spec fn quality_text(q: QualityView) -> Seq<char> {
    match q {
        QualityView::Best => "best"@,
        QualityView::Screen { width, height } => "screen ≤"@ + spec_decimal(width as nat) + "×"@
            + spec_decimal(height as nat),
        QualityView::P2160 => "≤2160p"@,
        QualityView::P1440 => "≤1440p"@,
        QualityView::P1080 => "≤1080p"@,
        QualityView::P720 => "≤720p"@,
        QualityView::P480 => "≤480p"@,
        QualityView::P360 => "≤360p"@,
        QualityView::Smallest => "smallest"@,
        QualityView::Custom(s) => s,
    }
}

/// Names a quality.
pub fn quality_name(q: &Quality) -> (r: String)
    ensures
        r@ == quality_text(q@),
{
    match q {
        Quality::Best => owned("best"),
        Quality::Screen { width, height } => {
            let mut s = owned("screen ≤");
            s.append(decimal(*width as u64).as_str());
            s.append("×");
            s.append(decimal(*height as u64).as_str());
            s
        },
        Quality::P2160 => owned("≤2160p"),
        Quality::P1440 => owned("≤1440p"),
        Quality::P1080 => owned("≤1080p"),
        Quality::P720 => owned("≤720p"),
        Quality::P480 => owned("≤480p"),
        Quality::P360 => owned("≤360p"),
        Quality::Smallest => owned("smallest"),
        Quality::Custom(s) => owned(s.as_str()),
    }
}

/// The name of a media mode, as its `Debug` form writes it.
pub open spec fn mode_text(m: MediaMode) -> Seq<char> {
    match m {
        MediaMode::Video => "Video"@,
        MediaMode::Audio => "Audio"@,
        MediaMode::VideoOnly => "VideoOnly"@,
        MediaMode::MetadataOnly => "MetadataOnly"@,
    }
}

/// Names a media mode.
pub fn mode_name(m: MediaMode) -> (r: String)
    ensures
        r@ == mode_text(m),
{
    match m {
        MediaMode::Video => owned("Video"),
        MediaMode::Audio => owned("Audio"),
        MediaMode::VideoOnly => owned("VideoOnly"),
        MediaMode::MetadataOnly => owned("MetadataOnly"),
    }
}

/// What `str::to_uppercase` returns: the Unicode upper case of a text.
pub uninterp spec fn upper_case(s: Seq<char>) -> Seq<char>;

/// `str::to_uppercase`; the result is `upper_case` of the text.
#[verifier::external_body]
fn to_uppercase(s: &str) -> (r: String)
    ensures
        r@ == upper_case(s@),
{
    s.to_uppercase()
}

/// The codec family of a yt-dlp codec string: the part before its first
/// dot, named the way people know it; unknown families are upper-cased.
pub open spec fn codec_text(codec: Seq<char>) -> Seq<char> {
    let family = crate::display::before_char(codec, '.');
    if family == "av01"@ {
        "AV1"@
    } else if family == "vp9"@ {
        "VP9"@
    } else if family == "avc1"@ || family == "h264"@ {
        "H.264"@
    } else if family == "opus"@ {
        "Opus"@
    } else if family == "mp4a"@ || family == "aac"@ {
        "AAC"@
    } else if family.len() == 0 {
        "unknown"@
    } else {
        upper_case(family)
    }
}

/// Names a codec.
pub fn codec_name(codec: &str) -> (r: String)
    ensures
        r@ == codec_text(codec@),
{
    let v = chars_of(codec);
    let end = match crate::text::find_char_in(&v, '.') {
        Some(i) => i,
        None => v.len(),
    };
    proof {
        crate::text::lemma_find_char(v@, '.');
    }
    let family = string_between(&v, 0, end);
    assert(family@ == crate::display::before_char(codec@, '.')) by {
        if crate::text::find_char(v@, '.') is None {
            assert(v@.subrange(0, v@.len() as int) =~= v@);
        }
    }
    let f = family.as_str();
    if str_eq(f, "av01") {
        owned("AV1")
    } else if str_eq(f, "vp9") {
        owned("VP9")
    } else if str_eq(f, "avc1") || str_eq(f, "h264") {
        owned("H.264")
    } else if str_eq(f, "opus") {
        owned("Opus")
    } else if str_eq(f, "mp4a") || str_eq(f, "aac") {
        owned("AAC")
    } else if f.is_empty() {
        owned("unknown")
    } else {
        to_uppercase(f)
    }
}

/// The streams of a format as listed: audio only, video only, or both.
pub open spec fn streams_text(v: Seq<char>, a: Seq<char>) -> Seq<char> {
    if v == "none"@ && a != "none"@ {
        "audio "@ + a
    } else if v != "none"@ && a == "none"@ {
        "video "@ + v
    } else {
        v + " + "@ + a
    }
}

/// Describes the video and audio codecs of a format.
pub fn codec(v: &str, a: &str) -> (r: String)
    ensures
        r@ == streams_text(v@, a@),
{
    let vn = str_eq(v, "none");
    let an = str_eq(a, "none");
    if vn && !an {
        let mut s = owned("audio ");
        s.append(a);
        s
    } else if !vn && an {
        let mut s = owned("video ");
        s.append(v);
        s
    } else {
        let mut s = owned(v);
        s.append(" + ");
        s.append(a);
        s
    }
}

/// Words joined by single spaces.
pub open spec fn join_spaced(ws: Seq<Seq<char>>) -> Seq<char>
    decreases ws.len(),
{
    if ws.len() == 0 {
        seq![]
    } else if ws.len() == 1 {
        ws[0]
    } else {
        join_spaced(ws.drop_last()) + seq![' '] + ws.last()
    }
}

/// The longest error shown, in characters.
pub const ERROR_LIMIT: usize = 180;

/// An error message on one line: its words joined by single spaces, cut to
/// 180 characters with an ellipsis after them when longer.
pub open spec fn spec_compact_error(error: Seq<char>) -> Seq<char> {
    let line = join_spaced(words_of(error));
    if line.len() <= ERROR_LIMIT {
        line
    } else {
        line.take(ERROR_LIMIT as int) + seq!['…']
    }
}

/// Compacts an error message for the status line.
pub fn compact_error(error: &str) -> (r: String)
    ensures
        r@ == spec_compact_error(error@),
{
    let ws = split_whitespace(error);
    let ghost wv = ws.deep_view();
    let mut line: Vec<char> = Vec::new();
    let mut i: usize = 0;
    while i < ws.len()
        invariant
            wv == ws.deep_view(),
            i <= ws.len(),
            line@ == join_spaced(wv.subrange(0, i as int)),
        decreases ws.len() - i,
    {
        let ghost prefix = wv.subrange(0, i as int);
        let ghost next = wv.subrange(0, i + 1);
        assert(next.drop_last() =~= prefix);
        assert(next.last() == ws[i as int]@);
        if i > 0 {
            line.push(' ');
        }
        let w = chars_of(ws[i].as_str());
        let mut k: usize = 0;
        let ghost base = line@;
        while k < w.len()
            invariant
                k <= w.len(),
                line@ == base + w@.subrange(0, k as int),
            decreases w.len() - k,
        {
            line.push(w[k]);
            k = k + 1;
            assert(line@ =~= base + w@.subrange(0, k as int));
        }
        assert(w@.subrange(0, w@.len() as int) =~= w@);
        if i == 0 {
            assert(line@ =~= join_spaced(next));
        } else {
            assert(line@ =~= join_spaced(next));
        }
        i = i + 1;
    }
    assert(wv.subrange(0, ws.len() as int) =~= wv);
    if line.len() <= ERROR_LIMIT {
        string_of(line.as_slice())
    } else {
        let mut s = string_between(&line, 0, ERROR_LIMIT);
        s.append("…");
        proof {
            reveal_strlit("…");
        }
        assert(s@ =~= spec_compact_error(error@));
        s
    }
}

/// A compacted error is at most 181 characters long (180 and the ellipsis).
pub proof fn lemma_compact_error_short(error: Seq<char>)
    ensures
        spec_compact_error(error).len() <= ERROR_LIMIT + 1,
{
}

/// A duration of whole seconds as `H:MM:SS`; zero means unknown.
pub open spec fn duration_text(s: nat) -> Seq<char> {
    if s == 0 {
        "unknown duration"@
    } else {
        spec_decimal(s / 3600) + seq![':'] + two_digits((s % 3600) / 60) + seq![':'] + two_digits(
            s % 60,
        )
    }
}

/// A number below 100 with at least two digits.
pub open spec fn two_digits(n: nat) -> Seq<char> {
    seq![crate::text::digit_char(n / 10), crate::text::digit_char(n % 10)]
}

/// Writes a duration of whole seconds.
pub fn duration_of(seconds: u64) -> (r: String)
    ensures
        r@ == duration_text(seconds as nat),
{
    if seconds == 0 {
        return owned("unknown duration");
    }
    let mut v = decimal_chars(seconds / 3600);
    let m = (seconds % 3600) / 60;
    let s = seconds % 60;
    v.push(':');
    v.push(digit(m / 10));
    v.push(digit(m % 10));
    v.push(':');
    v.push(digit(s / 10));
    v.push(digit(s % 10));
    assert(v@ =~= duration_text(seconds as nat));
    string_of(v.as_slice())
}

/// The position a cycle moves to from `i` among `len` choices.
pub open spec fn cycle_position(i: int, len: int, next: bool) -> int {
    if next {
        (i + 1) % len
    } else {
        (i + len - 1) % len
    }
}

/// The position of the first choice that `current` equals, or 0.
pub open spec fn first_match<T>(items: Seq<T>, current: T) -> int
    decreases items.len(),
{
    if items.len() == 0 {
        0
    } else if items[0] == current {
        0
    } else if exists|k: int| 0 < k < items.len() && items[k] == current {
        first_match(items.drop_first(), current) + 1
    } else {
        0
    }
}

pub(crate) proof fn lemma_first_match<T>(items: Seq<T>, current: T)
    ensures
        0 <= first_match(items, current) <= if items.len() > 0 {
            items.len() - 1
        } else {
            0
        },
        (exists|k: int| 0 <= k < items.len() && items[k] == current) ==> items[first_match(items, current)] == current
            && forall|k: int| 0 <= k < first_match(items, current) ==> items[k] != current,
        !(exists|k: int| 0 <= k < items.len() && items[k] == current) ==> first_match(items, current) == 0,
    decreases items.len(),
{
    if items.len() > 0 && items[0] != current {
        let r = items.drop_first();
        lemma_first_match(r, current);
        if exists|k: int| 0 < k < items.len() && items[k] == current {
            let k = choose|k: int| 0 < k < items.len() && items[k] == current;
            assert(r[k - 1] == current);
            assert forall|j: int| 0 <= j < first_match(items, current) implies items[j] != current by {
                if j > 0 {
                    assert(items[j] == r[j - 1]);
                }
            }
        } else {
            assert forall|k: int| 0 <= k < items.len() implies items[k] != current by {}
        }
    }
}

/// The media mode after `current` (or before it) among `items`, wrapping
/// around; a mode not among them counts as the first.
pub fn cycle_mode(items: &[MediaMode], current: MediaMode, next: bool) -> (r: MediaMode)
    requires
        items@.len() > 0,
    ensures
        r == items@[cycle_position(first_match(items@, current), items@.len() as int, next)],
{
    proof {
        lemma_first_match(items@, current);
    }
    let mut i: usize = 0;
    while i < items.len() && items[i] != current
        invariant
            i <= items@.len(),
            forall|k: int| 0 <= k < i ==> items@[k] != current,
        decreases items.len() - i,
    {
        i = i + 1;
    }
    let pos = if i < items.len() {
        i
    } else {
        0
    };
    proof {
        if i < items.len() {
            assert(items@[i as int] == current);
        }
    }
    let len = items.len();
    proof {
        lemma_cycle_positions(pos as int, len as int);
    }
    let j = if next {
        if pos + 1 < len {
            pos + 1
        } else {
            0
        }
    } else if pos > 0 {
        pos - 1
    } else {
        len - 1
    };
    items[j]
}

/// The text after `current` (or before it) among `items`, wrapping around; a
/// text not among them counts as the first.
pub fn cycle_str(items: &[&str], current: &str, next: bool) -> (r: String)
    requires
        items@.len() > 0,
    ensures
        ({
            let views = items@.map_values(|s: &str| s@);
            r@ == views[cycle_position(first_match(views, current@), items@.len() as int, next)]
        }),
{
    let ghost views = items@.map_values(|s: &str| s@);
    proof {
        lemma_first_match(views, current@);
    }
    let mut i: usize = 0;
    while i < items.len() && !str_eq(items[i], current)
        invariant
            views == items@.map_values(|s: &str| s@),
            i <= items@.len(),
            forall|k: int| 0 <= k < i ==> views[k] != current@,
        decreases items.len() - i,
    {
        i = i + 1;
    }
    let pos = if i < items.len() {
        i
    } else {
        0
    };
    proof {
        if i < items@.len() {
            assert(views[i as int] == current@);
        }
    }
    let len = items.len();
    proof {
        lemma_cycle_positions(pos as int, len as int);
    }
    let j = if next {
        if pos + 1 < len {
            pos + 1
        } else {
            0
        }
    } else if pos > 0 {
        pos - 1
    } else {
        len - 1
    };
    owned(items[j])
}

/// The quality after `current` (or before it) among `items`, wrapping
/// around; a quality not among them counts as the first.
pub fn cycle_quality(items: &Vec<Quality>, current: &Quality, next: bool) -> (r: Quality)
    requires
        items@.len() > 0,
    ensures
        ({
            let views = items@.map_values(|q: Quality| q@);
            r@ == views[cycle_position(first_match(views, current@), items@.len() as int, next)]
        }),
{
    let ghost views = items@.map_values(|q: Quality| q@);
    proof {
        lemma_first_match(views, current@);
    }
    let mut i: usize = 0;
    while i < items.len() && !items[i].same(current)
        invariant
            views == items@.map_values(|q: Quality| q@),
            i <= items@.len(),
            forall|k: int| 0 <= k < i ==> views[k] != current@,
        decreases items.len() - i,
    {
        i = i + 1;
    }
    let pos = if i < items.len() {
        i
    } else {
        0
    };
    proof {
        if i < items@.len() {
            assert(views[i as int] == current@);
        }
    }
    let len = items.len();
    proof {
        lemma_cycle_positions(pos as int, len as int);
    }
    let j = if next {
        if pos + 1 < len {
            pos + 1
        } else {
            0
        }
    } else if pos > 0 {
        pos - 1
    } else {
        len - 1
    };
    items[j].duplicate()
}

proof fn lemma_cycle_positions(i: int, n: int)
    requires
        0 <= i < n,
    ensures
        cycle_position(i, n, true) == if i + 1 < n {
            i + 1
        } else {
            0
        },
        cycle_position(i, n, false) == if i > 0 {
            i - 1
        } else {
            n - 1
        },
{
    if i + 1 < n {
        assert((i + 1) % n == i + 1) by (nonlinear_arith)
            requires
                0 <= i + 1 < n,
        ;
    } else {
        assert((i + 1) % n == 0) by (nonlinear_arith)
            requires
                i + 1 == n,
                n > 0,
        ;
    }
    if i > 0 {
        assert((i + n - 1) % n == i - 1) by (nonlinear_arith)
            requires
                0 < i < n,
        ;
    } else {
        assert((i + n - 1) % n == n - 1) by (nonlinear_arith)
            requires
                i == 0,
                n > 0,
        ;
    }
}

/// Among distinct choices, stepping forward and then back returns to the
/// choice one started from (and so does stepping back and then forward).
pub proof fn lemma_cycle_round_trip<T>(items: Seq<T>, i: int)
    requires
        0 <= i < items.len(),
        forall|a: int, b: int| 0 <= a < b < items.len() ==> items[a] != items[b],
    ensures
        items[cycle_position(first_match(items, items[cycle_position(i, items.len() as int, true)]), items.len() as int, false)] == items[i],
        items[cycle_position(first_match(items, items[cycle_position(i, items.len() as int, false)]), items.len() as int, true)] == items[i],
{
    let n = items.len() as int;
    let f = cycle_position(i, n, true);
    let b = cycle_position(i, n, false);
    lemma_cycle_positions(i, n);
    lemma_cycle_positions(if i + 1 < n {
        i + 1
    } else {
        0
    }, n);
    lemma_cycle_positions(if i > 0 {
        i - 1
    } else {
        n - 1
    }, n);
    lemma_first_match(items, items[f]);
    lemma_first_match(items, items[b]);
    assert(first_match(items, items[f]) == f) by {
        let m = first_match(items, items[f]);
        if m != f {
            if m < f {
                assert(items[m] != items[f]);
            } else {
                assert(items[f] != items[f]);
            }
        }
    }
    assert(first_match(items, items[b]) == b) by {
        let m = first_match(items, items[b]);
        if m != b {
            if m < b {
                assert(items[m] != items[b]);
            } else {
                assert(items[b] != items[b]);
            }
        }
    }
}

} // verus!
