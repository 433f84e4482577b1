//! The video and audio levels offered for a search result, from the formats
//! yt-dlp reports for it.
//!
//! The video slider offers one format per height, lowest first; where the
//! video carries separate video-only streams, only those are offered, and
//! of several formats of one height the one with the highest bitrate plus
//! frame rate wins. The audio slider offers the audio-only formats in the
//! original language (when yt-dlp marks one), slowest first, one per label.
//! Both sliders start with a "None" stop.
//!
//! yt-dlp reports bitrates, frame rates and sizes as floating-point numbers;
//! the caller hands in, for each format, integers that order the formats as
//! those numbers do, and the texts that render them.
use crate::labels::{codec_name, codec_text};
use crate::text::{chars_of, decimal, owned, spec_decimal, str_eq};
use vstd::prelude::*;

verus! {

/// One stop of a quality slider.
#[derive(Clone, Debug)]
pub struct SearchFormatChoice {
    pub format_id: String,
    pub label: String,
    pub detail: String,
}

/// The slider stop that downloads nothing of this kind.
pub open spec fn is_none_choice(c: SearchFormatChoice) -> bool {
    &&& c.format_id@ == Seq::<char>::empty()
    &&& c.label@ == "None"@
    &&& c.detail@ == "Do not download this stream"@
}

/// A slider with only the "None" stop.
pub fn none_choice() -> (r: Vec<SearchFormatChoice>)
    ensures
        r@.len() == 1,
        is_none_choice(r@[0]),
{
    let mut v: Vec<SearchFormatChoice> = Vec::new();
    v.push(
        SearchFormatChoice {
            format_id: String::new(),
            label: owned("None"),
            detail: owned("Do not download this stream"),
        },
    );
    v
}

/// A format as the level logic reads it. `video_score` orders formats as
/// their bitrate plus frame rate does, and `audio_rate` as their audio
/// bitrate (else total bitrate) does; `fps_label` is `60fps`-style text for
/// frame rates above 30 and empty otherwise; `bitrate_text` and `size_text`
/// render the bitrate and size; `rate_label` is `128k`-style text when the
/// audio rate is positive.
#[derive(Clone, Debug)]
pub struct FormatFacts {
    pub format_id: String,
    pub ext: String,
    pub vcodec: String,
    pub acodec: String,
    pub width: Option<u32>,
    pub height: Option<u32>,
    pub language: String,
    pub note: String,
    pub audio_channels: Option<u32>,
    pub video_score: u64,
    pub fps_label: String,
    pub bitrate_text: String,
    pub size_text: String,
    pub audio_rate: u64,
    pub rate_label: Option<String>,
}

/// A codec field that names no stream.
pub open spec fn no_codec(c: Seq<char>) -> bool {
    c == "none"@ || c.len() == 0
}

/// A format with a picture and a height.
pub open spec fn has_video(f: FormatFacts) -> bool {
    f.height is Some && !no_codec(f.vcodec@)
}

/// A format with a picture and a height but no sound.
pub open spec fn is_video_only(f: FormatFacts) -> bool {
    has_video(f) && no_codec(f.acodec@)
}

/// Some format is video-only.
pub open spec fn any_video_only(fs: Seq<FormatFacts>) -> bool {
    exists|i: int| 0 <= i < fs.len() && is_video_only(#[trigger] fs[i])
}

/// A format the video slider may offer: one with a picture, and a
/// video-only one whenever the video has any.
pub open spec fn video_eligible(f: FormatFacts, only_video: bool) -> bool {
    has_video(f) && (!only_video || no_codec(f.acodec@))
}

/// The position of the format offered for height `h` among `fs`: the first
/// eligible format of that height with the highest score.
pub open spec fn best_at(fs: Seq<FormatFacts>, h: u32, only_video: bool) -> Option<int>
    decreases fs.len(),
{
    if fs.len() == 0 {
        None
    } else {
        let b = best_at(fs.drop_last(), h, only_video);
        let f = fs.last();
        if video_eligible(f, only_video) && f.height == Some(h) {
            match b {
                None => Some(fs.len() - 1),
                Some(i) => if f.video_score > fs[i].video_score {
                    Some(fs.len() - 1)
                } else {
                    Some(i)
                },
            }
        } else {
            b
        }
    }
}

/// The height of a format (0 when it has none).
pub open spec fn height_of(f: FormatFacts) -> u32 {
    match f.height {
        Some(h) => h,
        None => 0,
    }
}

/// `chosen` lists the formats the video slider offers among `fs`: one per
/// height of an eligible format, lowest height first, each the best of its
/// height.
pub open spec fn is_video_selection(fs: Seq<FormatFacts>, only_video: bool, chosen: Seq<int>) -> bool {
    &&& forall|a: int, b: int|
        0 <= a < b < chosen.len() ==> height_of(fs[chosen[a]]) < height_of(fs[chosen[b]])
    &&& forall|a: int|
        0 <= a < chosen.len() ==> 0 <= #[trigger] chosen[a] < fs.len() && best_at(
            fs,
            height_of(fs[chosen[a]]),
            only_video,
        ) == Some(chosen[a])
    &&& forall|j: int|
        0 <= j < fs.len() && video_eligible(#[trigger] fs[j], only_video) ==> exists|a: int|
            0 <= a < chosen.len() && height_of(fs[chosen[a]]) == height_of(fs[j])
}

proof fn lemma_best_at_facts(fs: Seq<FormatFacts>, h: u32, only_video: bool)
    ensures
        best_at(fs, h, only_video) matches Some(i) ==> 0 <= i < fs.len() && video_eligible(fs[i], only_video)
            && fs[i].height == Some(h),
        best_at(fs, h, only_video) is None ==> forall|j: int|
            0 <= j < fs.len() ==> !(video_eligible(fs[j], only_video) && fs[j].height == Some(h)),
    decreases fs.len(),
{
    if fs.len() > 0 {
        let p = fs.drop_last();
        lemma_best_at_facts(p, h, only_video);
        assert forall|j: int| 0 <= j < p.len() implies p[j] == fs[j] by {}
    }
}

fn format_height(f: &FormatFacts) -> (r: u32)
    ensures
        r == height_of(*f),
{
    match f.height {
        Some(h) => h,
        None => 0,
    }
}

/// Chooses the formats of the video slider.
pub fn video_selection(fs: &Vec<FormatFacts>) -> (r: Vec<usize>)
    ensures
        is_video_selection(fs@, any_video_only(fs@), r@.map_values(|i: usize| i as int)),
{
    let mut only_video = false;
    let mut k: usize = 0;
    while k < fs.len()
        invariant
            k <= fs.len(),
            only_video == exists|i: int| 0 <= i < k && is_video_only(#[trigger] fs@[i]),
        decreases fs.len() - k,
    {
        let f = &fs[k];
        if f.height.is_some() && !(str_eq(f.vcodec.as_str(), "none") || f.vcodec.as_str().is_empty())
            && (str_eq(f.acodec.as_str(), "none") || f.acodec.as_str().is_empty()) {
            only_video = true;
        }
        k = k + 1;
    }
    let ghost ov = only_video;
    let mut chosen: Vec<usize> = Vec::new();
    let mut k: usize = 0;
    while k < fs.len()
        invariant
            k <= fs.len(),
            only_video == ov,
            ov == any_video_only(fs@),
            forall|a: int, b: int|
                0 <= a < b < chosen@.len() ==> height_of(fs@[chosen@[a] as int]) < height_of(
                    fs@[chosen@[b] as int],
                ),
            forall|a: int|
                0 <= a < chosen@.len() ==> (#[trigger] chosen@[a]) < k && best_at(
                    fs@.subrange(0, k as int),
                    height_of(fs@[chosen@[a] as int]),
                    ov,
                ) == Some(chosen@[a] as int),
            forall|j: int|
                0 <= j < k && video_eligible(#[trigger] fs@[j], ov) ==> exists|a: int|
                    0 <= a < chosen@.len() && height_of(fs@[chosen@[a] as int]) == height_of(fs@[j]),
        decreases fs.len() - k,
    {
        let ghost prefix = fs@.subrange(0, k as int);
        let ghost next = fs@.subrange(0, k + 1);
        assert(next.drop_last() =~= prefix);
        assert(next.last() == fs@[k as int]);
        assert forall|j: int| 0 <= j < k implies next[j] == prefix[j] by {}
        let f = &fs[k];
        let eligible = match f.height {
            Some(_) => !(str_eq(f.vcodec.as_str(), "none") || f.vcodec.as_str().is_empty()) && (
            !only_video || (str_eq(f.acodec.as_str(), "none") || f.acodec.as_str().is_empty())),
            None => false,
        };
        if eligible {
            let h = match f.height {
                Some(h) => h,
                None => 0,
            };
            let mut p: usize = 0;
            while p < chosen.len() && format_height(&fs[chosen[p]]) < h
                invariant
                    p <= chosen@.len(),
                    forall|a: int| 0 <= a < chosen@.len() ==> (#[trigger] chosen@[a]) < k,
                    k < fs@.len(),
                    forall|a: int| 0 <= a < p ==> height_of(fs@[chosen@[a] as int]) < h,
                decreases chosen.len() - p,
            {
                p = p + 1;
            }
            let ghost before = chosen@;
            proof {
                assert forall|hh: u32| #![auto] hh != h implies best_at(next, hh, ov) == best_at(prefix, hh, ov) by {}
            }
            let same = p < chosen.len() && format_height(&fs[chosen[p]]) == h;
            if same {
                let old = chosen[p];
                proof {
                    lemma_best_at_facts(prefix, h, ov);
                }
                if f.video_score > fs[old].video_score {
                    chosen.set(p, k);
                }
                proof {
                    assert forall|a: int| 0 <= a < chosen@.len() implies (#[trigger] chosen@[a]) < k + 1 && best_at(
                        next,
                        height_of(fs@[chosen@[a] as int]),
                        ov,
                    ) == Some(chosen@[a] as int) by {
                        if a != p {
                            assert(chosen@[a] == before[a]);
                            if a < p {
                                assert(height_of(fs@[before[a] as int]) < h);
                            } else {
                                assert(height_of(fs@[before[p as int] as int]) < height_of(fs@[before[a] as int]));
                            }
                        }
                    }
                    assert forall|a: int, b: int|
                        0 <= a < b < chosen@.len() implies height_of(fs@[chosen@[a] as int]) < height_of(
                        fs@[chosen@[b] as int],
                    ) by {
                        assert(height_of(fs@[before[a] as int]) < height_of(fs@[before[b] as int]));
                    }
                    assert forall|j: int|
                        0 <= j < k + 1 && video_eligible(#[trigger] fs@[j], ov) implies exists|a: int|
                            0 <= a < chosen@.len() && height_of(fs@[chosen@[a] as int]) == height_of(fs@[j]) by {
                        if j < k {
                            let a = choose|a: int|
                                0 <= a < before.len() && height_of(fs@[before[a] as int]) == height_of(fs@[j]);
                            if a != p {
                                assert(chosen@[a] == before[a]);
                            } else {
                                assert(height_of(fs@[chosen@[a] as int]) == h);
                            }
                        } else {
                            assert(height_of(fs@[chosen@[p as int] as int]) == h);
                        }
                    }
                }
            } else {
                proof {
                    lemma_best_at_facts(prefix, h, ov);
                    if best_at(prefix, h, ov) is Some {
                        let i = best_at(prefix, h, ov)->0;
                        assert(prefix[i] == fs@[i]);
                        assert(video_eligible(fs@[i], ov));
                        let a = choose|a: int|
                            0 <= a < before.len() && height_of(fs@[before[a] as int]) == height_of(fs@[i]);
                        if a < p {
                            assert(false);
                        } else if a > p {
                            assert(height_of(fs@[before[p as int] as int]) < height_of(fs@[before[a] as int]));
                            assert(false);
                        }
                    }
                }
                chosen.insert(p, k);
                proof {
                    assert forall|a: int| 0 <= a < chosen@.len() implies (#[trigger] chosen@[a]) < k + 1 && best_at(
                        next,
                        height_of(fs@[chosen@[a] as int]),
                        ov,
                    ) == Some(chosen@[a] as int) by {
                        if a < p {
                            assert(chosen@[a] == before[a]);
                            assert(height_of(fs@[before[a] as int]) < h);
                        } else if a > p {
                            assert(chosen@[a] == before[a - 1]);
                            assert(height_of(fs@[before[a - 1] as int]) > h) by {
                                if p < before.len() {
                                    assert(height_of(fs@[before[p as int] as int]) >= h);
                                    if a - 1 > p {
                                        assert(height_of(fs@[before[p as int] as int]) < height_of(fs@[before[a - 1] as int]));
                                    }
                                }
                            }
                        }
                    }
                    assert forall|a: int, b: int|
                        0 <= a < b < chosen@.len() implies height_of(fs@[chosen@[a] as int]) < height_of(
                        fs@[chosen@[b] as int],
                    ) by {
                        if p < before.len() {
                            assert(height_of(fs@[before[p as int] as int]) >= h);
                        }
                        if b == p {
                            assert(chosen@[a] == before[a]);
                        } else if a == p {
                            assert(chosen@[b] == before[b - 1]);
                            if b - 1 > p {
                                assert(height_of(fs@[before[p as int] as int]) < height_of(fs@[before[b - 1] as int]));
                            }
                        } else {
                            let a2 = if a < p { a } else { a - 1 };
                            let b2 = if b < p { b } else { b - 1 };
                            assert(chosen@[a] == before[a2]);
                            assert(chosen@[b] == before[b2]);
                        }
                    }
                    assert forall|j: int|
                        0 <= j < k + 1 && video_eligible(#[trigger] fs@[j], ov) implies exists|a: int|
                            0 <= a < chosen@.len() && height_of(fs@[chosen@[a] as int]) == height_of(fs@[j]) by {
                        if j < k {
                            let a = choose|a: int|
                                0 <= a < before.len() && height_of(fs@[before[a] as int]) == height_of(fs@[j]);
                            if a < p {
                                assert(chosen@[a] == before[a]);
                            } else {
                                assert(chosen@[a + 1] == before[a]);
                            }
                        } else {
                            assert(chosen@[p as int] == k);
                        }
                    }
                }
            }
        } else {
            proof {
                assert forall|hh: u32| #![auto] best_at(next, hh, ov) == best_at(prefix, hh, ov) by {}
            }
        }
        k = k + 1;
    }
    assert(fs@.subrange(0, fs@.len() as int) =~= fs@);
    proof {
        let m = chosen@.map_values(|i: usize| i as int);
        assert forall|a: int| 0 <= a < m.len() implies #[trigger] m[a] == chosen@[a] as int by {}
        assert forall|j: int|
            0 <= j < fs@.len() && video_eligible(#[trigger] fs@[j], ov) implies exists|a: int|
                0 <= a < m.len() && height_of(fs@[m[a]]) == height_of(fs@[j]) by {
            let a = choose|a: int|
                0 <= a < chosen@.len() && height_of(fs@[chosen@[a] as int]) == height_of(fs@[j]);
            assert(m[a] == chosen@[a] as int);
        }
    }
    chosen
}


/// `a` comes before `b` in the lexicographic order of character codes, the
/// order `String` comparison gives (UTF-8 preserves it).
pub open spec fn text_less(a: Seq<char>, b: Seq<char>) -> bool
    decreases a.len(),
{
    if a.len() == 0 {
        b.len() > 0
    } else if b.len() == 0 {
        false
    } else if a[0] != b[0] {
        a[0] < b[0]
    } else {
        text_less(a.drop_first(), b.drop_first())
    }
}

/// Compares two texts by character codes.
pub fn text_lt(a: &str, b: &str) -> (r: bool)
    ensures
        r == text_less(a@, b@),
{
    let x = chars_of(a);
    let y = chars_of(b);
    let mut i: usize = 0;
    assert(x@.subrange(0, x@.len() as int) =~= x@);
    assert(y@.subrange(0, y@.len() as int) =~= y@);
    while i < x.len() && i < y.len() && x[i] == y[i]
        invariant
            i <= x@.len(),
            i <= y@.len(),
            forall|k: int| 0 <= k < i ==> x@[k] == y@[k],
            text_less(x@, y@) == text_less(x@.subrange(i as int, x@.len() as int), y@.subrange(i as int, y@.len() as int)),
        decreases x.len() - i,
    {
        let ghost xs = x@.subrange(i as int, x@.len() as int);
        let ghost ys = y@.subrange(i as int, y@.len() as int);
        assert(xs.drop_first() =~= x@.subrange(i + 1, x@.len() as int));
        assert(ys.drop_first() =~= y@.subrange(i + 1, y@.len() as int));
        i = i + 1;
    }
    proof {
        let xs = x@.subrange(i as int, x@.len() as int);
        let ys = y@.subrange(i as int, y@.len() as int);
        if i < x.len() && i < y.len() {
            assert(xs[0] == x@[i as int]);
            assert(ys[0] == y@[i as int]);
        }
    }
    if i >= x.len() {
        i < y.len()
    } else if i >= y.len() {
        false
    } else {
        x[i] < y[i]
    }
}

/// The note of a format marks the original (or default) audio language.
pub open spec fn marks_original(note: Seq<char>) -> bool {
    let l = note.map_values(|c: char| crate::screen::ascii_lower(c));
    crate::text::spec_contains(l, "original"@) || crate::text::spec_contains(l, "(default)"@)
}

/// The original audio language, from the first format whose note marks it.
pub open spec fn original_language(fs: Seq<FormatFacts>) -> Option<Seq<char>>
    decreases fs.len(),
{
    if fs.len() == 0 {
        None
    } else if fs[0].language@.len() > 0 && marks_original(fs[0].note@) {
        Some(fs[0].language@)
    } else {
        original_language(fs.drop_first())
    }
}

/// A format the audio slider may offer: sound without a picture, in the
/// original language when one is known.
pub open spec fn audio_candidate(f: FormatFacts, lang: Option<Seq<char>>) -> bool {
    &&& no_codec(f.vcodec@)
    &&& !no_codec(f.acodec@)
    &&& match lang {
        Some(l) => f.language@ == l,
        None => true,
    }
}

/// The audio candidates, in order.
pub open spec fn audio_candidates(fs: Seq<FormatFacts>, lang: Option<Seq<char>>) -> Seq<FormatFacts>
    decreases fs.len(),
{
    if fs.len() == 0 {
        seq![]
    } else if audio_candidate(fs.last(), lang) {
        audio_candidates(fs.drop_last(), lang).push(fs.last())
    } else {
        audio_candidates(fs.drop_last(), lang)
    }
}

/// `a` sorts after `b`: a higher rate, or the same rate and a later format id.
pub open spec fn audio_after(a: FormatFacts, b: FormatFacts) -> bool {
    a.audio_rate > b.audio_rate || (a.audio_rate == b.audio_rate && text_less(
        b.format_id@,
        a.format_id@,
    ))
}

/// `s` with `x` placed after every element that does not sort after it.
pub open spec fn insert_sorted(s: Seq<FormatFacts>, x: FormatFacts) -> Seq<FormatFacts>
    decreases s.len(),
{
    if s.len() == 0 {
        seq![x]
    } else if audio_after(s.last(), x) {
        insert_sorted(s.drop_last(), x).push(s.last())
    } else {
        s.push(x)
    }
}

/// `s` sorted by rate, then format id, keeping the order of equal elements
/// (as the stable `sort_by` does).
pub open spec fn sort_audio(s: Seq<FormatFacts>) -> Seq<FormatFacts>
    decreases s.len(),
{
    if s.len() == 0 {
        seq![]
    } else {
        insert_sorted(sort_audio(s.drop_last()), s.last())
    }
}

/// The label of an audio level: its rate and codec, or the codec alone.
pub open spec fn audio_label(f: FormatFacts) -> Seq<char> {
    match f.rate_label {
        Some(l) => l@ + " "@ + codec_text(f.acodec@),
        None => codec_text(f.acodec@),
    }
}

/// The detail line of an audio level.
pub open spec fn audio_detail(f: FormatFacts) -> Seq<char> {
    let channels: u32 = match f.audio_channels {
        Some(c) => c,
        None => 2,
    };
    f.ext@ + (if f.language@.len() == 0 {
        Seq::<char>::empty()
    } else {
        " · "@ + f.language@
    }) + " · "@ + spec_decimal(channels as nat) + " channels · "@ + f.size_text@
}

/// The audio levels kept from `s`: the first of each label, skipping the
/// label of the "None" stop.
pub open spec fn distinct_labels(s: Seq<FormatFacts>) -> Seq<FormatFacts>
    decreases s.len(),
{
    if s.len() == 0 {
        seq![]
    } else {
        let k = distinct_labels(s.drop_last());
        let l = audio_label(s.last());
        if l == "None"@ || exists|i: int| 0 <= i < k.len() && audio_label(#[trigger] k[i]) == l {
            k
        } else {
            k.push(s.last())
        }
    }
}

/// The formats the audio slider offers, in order.
pub open spec fn audio_levels(fs: Seq<FormatFacts>) -> Seq<FormatFacts> {
    distinct_labels(sort_audio(audio_candidates(fs, original_language(fs))))
}

/// The label of a video level: its height, and its frame rate when high.
pub open spec fn video_label(f: FormatFacts) -> Seq<char> {
    spec_decimal(height_of(f) as nat) + "p"@ + f.fps_label@
}

/// The detail line of a video level.
pub open spec fn video_detail(f: FormatFacts) -> Seq<char> {
    let w: u32 = match f.width {
        Some(w) => w,
        None => 0,
    };
    spec_decimal(w as nat) + "×"@ + spec_decimal(height_of(f) as nat) + " · "@ + codec_text(f.vcodec@)
        + " · "@ + f.bitrate_text@ + " · "@ + f.size_text@
}

/// `c` is the video slider stop for format `f`.
pub open spec fn is_video_choice(c: SearchFormatChoice, f: FormatFacts) -> bool {
    c.format_id@ == f.format_id@ && c.label@ == video_label(f) && c.detail@ == video_detail(f)
}

/// `c` is the audio slider stop for format `f`.
pub open spec fn is_audio_choice(c: SearchFormatChoice, f: FormatFacts) -> bool {
    c.format_id@ == f.format_id@ && c.label@ == audio_label(f) && c.detail@ == audio_detail(f)
}

fn audio_label_of(f: &FormatFacts) -> (r: String)
    ensures
        r@ == audio_label(*f),
{
    let c = codec_name(f.acodec.as_str());
    match &f.rate_label {
        Some(l) => {
            let mut s = owned(l.as_str());
            s.append(" ");
            s.append(c.as_str());
            s
        },
        None => c,
    }
}

fn audio_detail_of(f: &FormatFacts) -> (r: String)
    ensures
        r@ == audio_detail(*f),
{
    let channels: u32 = match f.audio_channels {
        Some(c) => c,
        None => 2,
    };
    let mut s = owned(f.ext.as_str());
    if !f.language.as_str().is_empty() {
        s.append(" · ");
        s.append(f.language.as_str());
    }
    s.append(" · ");
    s.append(decimal(channels as u64).as_str());
    s.append(" channels · ");
    s.append(f.size_text.as_str());
    s
}

fn video_choice_of(f: &FormatFacts) -> (r: SearchFormatChoice)
    ensures
        is_video_choice(r, *f),
{
    let h: u32 = match f.height {
        Some(h) => h,
        None => 0,
    };
    let w: u32 = match f.width {
        Some(w) => w,
        None => 0,
    };
    let mut label = decimal(h as u64);
    label.append("p");
    label.append(f.fps_label.as_str());
    let mut detail = decimal(w as u64);
    detail.append("×");
    detail.append(decimal(h as u64).as_str());
    detail.append(" · ");
    detail.append(codec_name(f.vcodec.as_str()).as_str());
    detail.append(" · ");
    detail.append(f.bitrate_text.as_str());
    detail.append(" · ");
    detail.append(f.size_text.as_str());
    SearchFormatChoice { format_id: owned(f.format_id.as_str()), label, detail }
}

fn is_original_note(note: &str) -> (r: bool)
    ensures
        r == marks_original(note@),
{
    let l = crate::screen::to_ascii_lowercase(note);
    crate::text::contains(l.as_str(), "original") || crate::text::contains(l.as_str(), "(default)")
}

fn find_original_language(fs: &Vec<FormatFacts>) -> (r: Option<String>)
    ensures
        match r {
            Some(l) => original_language(fs@) == Some(l@),
            None => original_language(fs@) is None,
        },
{
    let mut i: usize = 0;
    assert(fs@.subrange(0, fs@.len() as int) =~= fs@);
    while i < fs.len()
        invariant
            i <= fs@.len(),
            original_language(fs@) == original_language(fs@.subrange(i as int, fs@.len() as int)),
        decreases fs.len() - i,
    {
        let ghost rest = fs@.subrange(i as int, fs@.len() as int);
        assert(rest.drop_first() =~= fs@.subrange(i + 1, fs@.len() as int));
        assert(rest[0] == fs@[i as int]);
        if !fs[i].language.as_str().is_empty() && is_original_note(fs[i].note.as_str()) {
            return Some(owned(fs[i].language.as_str()));
        }
        i = i + 1;
    }
    None
}

proof fn lemma_insert_sorted_at(s: Seq<FormatFacts>, x: FormatFacts, p: int)
    requires
        0 <= p <= s.len(),
        forall|j: int| p <= j < s.len() ==> audio_after(#[trigger] s[j], x),
        p == 0 || !audio_after(s[p - 1], x),
    ensures
        insert_sorted(s, x) == s.take(p).push(x) + s.skip(p),
    decreases s.len() - p,
{
    if p == s.len() {
        if s.len() > 0 {
            assert(!audio_after(s.last(), x));
        }
        assert(s.take(p) =~= s);
        assert(s.skip(p) =~= Seq::<FormatFacts>::empty());
        assert(s.take(p).push(x) + s.skip(p) =~= s.push(x));
    } else {
        let r = s.drop_last();
        assert(audio_after(s.last(), x));
        assert forall|j: int| p <= j < r.len() implies audio_after(#[trigger] r[j], x) by {
            assert(r[j] == s[j]);
        }
        if p > 0 {
            assert(r[p - 1] == s[p - 1]);
        }
        lemma_insert_sorted_at(r, x, p);
        assert(r.take(p) =~= s.take(p));
        assert((r.take(p).push(x) + r.skip(p)).push(s.last()) =~= s.take(p).push(x) + s.skip(p));
    }
}

fn sorts_after(a: &FormatFacts, b: &FormatFacts) -> (r: bool)
    ensures
        r == audio_after(*a, *b),
{
    a.audio_rate > b.audio_rate || (a.audio_rate == b.audio_rate && text_lt(
        b.format_id.as_str(),
        a.format_id.as_str(),
    ))
}

/// The formats of the audio slider, as positions into `fs`.
fn audio_selection(fs: &Vec<FormatFacts>) -> (r: Vec<usize>)
    ensures
        forall|k: int| 0 <= k < r@.len() ==> r@[k] < fs@.len(),
        r@.map_values(|i: usize| fs@[i as int]) == audio_levels(fs@),
{
    let lang = find_original_language(fs);
    let ghost gl = original_language(fs@);
    let mut sorted: Vec<usize> = Vec::new();
    let mut k: usize = 0;
    while k < fs.len()
        invariant
            k <= fs@.len(),
            gl == original_language(fs@),
            match lang {
                Some(l) => gl == Some(l@),
                None => gl is None,
            },
            forall|a: int| 0 <= a < sorted@.len() ==> sorted@[a] < k,
            sorted@.map_values(|i: usize| fs@[i as int]) == sort_audio(audio_candidates(fs@.subrange(0, k as int), gl)),
        decreases fs.len() - k,
    {
        let ghost prefix = fs@.subrange(0, k as int);
        let ghost next = fs@.subrange(0, k + 1);
        assert(next.drop_last() =~= prefix);
        assert(next.last() == fs@[k as int]);
        let f = &fs[k];
        let candidate = (str_eq(f.vcodec.as_str(), "none") || f.vcodec.as_str().is_empty()) && !(
        str_eq(f.acodec.as_str(), "none") || f.acodec.as_str().is_empty()) && match &lang {
            Some(l) => str_eq(f.language.as_str(), l.as_str()),
            None => true,
        };
        assert(candidate == audio_candidate(fs@[k as int], gl));
        if candidate {
            let ghost sv = sorted@.map_values(|i: usize| fs@[i as int]);
            let mut p: usize = sorted.len();
            while p > 0 && sorts_after(&fs[sorted[p - 1]], f)
                invariant
                    p <= sorted@.len(),
                    sv == sorted@.map_values(|i: usize| fs@[i as int]),
                    forall|a: int| 0 <= a < sorted@.len() ==> sorted@[a] < k,
                    k < fs@.len(),
                    *f == fs@[k as int],
                    forall|j: int| p <= j < sv.len() ==> audio_after(#[trigger] sv[j], fs@[k as int]),
                decreases p,
            {
                assert(sv[p - 1] == fs@[sorted@[p - 1] as int]);
                p = p - 1;
            }
            proof {
                if p > 0 {
                    assert(sv[p - 1] == fs@[sorted@[p - 1] as int]);
                }
                lemma_insert_sorted_at(sv, fs@[k as int], p as int);
            }
            sorted.insert(p, k);
            assert(sorted@.map_values(|i: usize| fs@[i as int]) =~= sv.take(p as int).push(fs@[k as int]) + sv.skip(p as int));
            assert(audio_candidates(next, gl) == audio_candidates(prefix, gl).push(fs@[k as int]));
            assert(audio_candidates(next, gl).drop_last() =~= audio_candidates(prefix, gl));
            assert(sort_audio(audio_candidates(next, gl)) == insert_sorted(sv, fs@[k as int]));
        } else {
            assert(audio_candidates(next, gl) == audio_candidates(prefix, gl));
        }
        k = k + 1;
    }
    assert(fs@.subrange(0, fs@.len() as int) =~= fs@);
    let ghost sv = sorted@.map_values(|i: usize| fs@[i as int]);
    let mut kept: Vec<usize> = Vec::new();
    let mut labels: Vec<String> = Vec::new();
    let mut i: usize = 0;
    while i < sorted.len()
        invariant
            i <= sorted@.len(),
            sv == sorted@.map_values(|i: usize| fs@[i as int]),
            forall|a: int| 0 <= a < sorted@.len() ==> sorted@[a] < fs@.len(),
            forall|a: int| 0 <= a < kept@.len() ==> kept@[a] < fs@.len(),
            kept@.map_values(|i: usize| fs@[i as int]) == distinct_labels(sv.take(i as int)),
            labels@.len() == kept@.len(),
            forall|a: int| 0 <= a < labels@.len() ==> (#[trigger] labels@[a])@ == audio_label(fs@[kept@[a] as int]),
        decreases sorted.len() - i,
    {
        let ghost kv = kept@.map_values(|i: usize| fs@[i as int]);
        assert(sv.take(i + 1).drop_last() =~= sv.take(i as int));
        assert(sv.take(i + 1).last() == fs@[sorted@[i as int] as int]);
        let f = &fs[sorted[i]];
        let l = audio_label_of(f);
        let mut seen = str_eq(l.as_str(), "None");
        let mut j: usize = 0;
        while j < labels.len()
            invariant
                j <= labels@.len(),
                labels@.len() == kv.len(),
                kv == kept@.map_values(|i: usize| fs@[i as int]),
                forall|a: int| 0 <= a < labels@.len() ==> (#[trigger] labels@[a])@ == audio_label(fs@[kept@[a] as int]),
                seen == (l@ == "None"@ || exists|a: int| 0 <= a < j && audio_label(#[trigger] kv[a]) == l@),
            decreases labels.len() - j,
        {
            assert(kv[j as int] == fs@[kept@[j as int] as int]);
            if str_eq(labels[j].as_str(), l.as_str()) {
                seen = true;
            }
            j = j + 1;
        }
        if !seen {
            kept.push(sorted[i]);
            labels.push(l);
            assert(kept@.map_values(|i: usize| fs@[i as int]) =~= kv.push(fs@[sorted@[i as int] as int]));
        }
        i = i + 1;
    }
    assert(sv.take(sorted@.len() as int) =~= sv);
    kept
}

/// The stops of the video and audio sliders for a search result whose
/// formats are `fs`; each slider starts with the "None" stop.
pub fn format_choices(fs: &Vec<FormatFacts>) -> (r: (Vec<SearchFormatChoice>, Vec<SearchFormatChoice>))
    ensures
        is_none_choice(r.0@[0]),
        exists|chosen: Seq<int>|
            is_video_selection(fs@, any_video_only(fs@), chosen) && r.0@.len() == chosen.len() + 1
                && forall|a: int| 0 <= a < chosen.len() ==> is_video_choice(#[trigger] r.0@[a + 1], fs@[chosen[a]]),
        is_none_choice(r.1@[0]),
        r.1@.len() == audio_levels(fs@).len() + 1,
        forall|a: int| 0 <= a < audio_levels(fs@).len() ==> is_audio_choice(#[trigger] r.1@[a + 1], audio_levels(fs@)[a]),
{
    let chosen = video_selection(fs);
    let ghost cv = chosen@.map_values(|i: usize| i as int);
    let mut video = none_choice();
    let mut i: usize = 0;
    while i < chosen.len()
        invariant
            i <= chosen@.len(),
            cv == chosen@.map_values(|i: usize| i as int),
            is_video_selection(fs@, any_video_only(fs@), cv),
            video@.len() == i + 1,
            is_none_choice(video@[0]),
            forall|a: int| 0 <= a < i ==> is_video_choice(#[trigger] video@[a + 1], fs@[cv[a]]),
        decreases chosen.len() - i,
    {
        assert(cv[i as int] == chosen@[i as int] as int);
        let c = video_choice_of(&fs[chosen[i]]);
        video.push(c);
        i = i + 1;
    }
    let picked = audio_selection(fs);
    let ghost av = audio_levels(fs@);
    let mut audio = none_choice();
    let mut i: usize = 0;
    while i < picked.len()
        invariant
            i <= picked@.len(),
            forall|k: int| 0 <= k < picked@.len() ==> picked@[k] < fs@.len(),
            picked@.map_values(|i: usize| fs@[i as int]) == av,
            audio@.len() == i + 1,
            is_none_choice(audio@[0]),
            forall|a: int| 0 <= a < i ==> is_audio_choice(#[trigger] audio@[a + 1], av[a]),
        decreases picked.len() - i,
    {
        assert(av[i as int] == fs@[picked@[i as int] as int]);
        let f = &fs[picked[i]];
        let c = SearchFormatChoice {
            format_id: owned(f.format_id.as_str()),
            label: audio_label_of(f),
            detail: audio_detail_of(f),
        };
        audio.push(c);
        i = i + 1;
    }
    (video, audio)
}

/// The rates of `s` never decrease.
pub open spec fn rates_ascending(s: Seq<FormatFacts>) -> bool {
    forall|i: int, j: int| 0 <= i < j < s.len() ==> s[i].audio_rate <= s[j].audio_rate
}

proof fn lemma_insert_sorted_contains(s: Seq<FormatFacts>, x: FormatFacts)
    ensures
        insert_sorted(s, x).len() == s.len() + 1,
        forall|y: FormatFacts| #[trigger] insert_sorted(s, x).contains(y) <==> (y == x || s.contains(y)),
    decreases s.len(),
{
    broadcast use vstd::seq_lib::lemma_seq_contains_after_push;

    if s.len() > 0 {
        let p = s.drop_last();
        lemma_insert_sorted_contains(p, x);
        assert(s =~= p.push(s.last()));
    }
}

proof fn lemma_insert_sorted_ascending(s: Seq<FormatFacts>, x: FormatFacts)
    requires
        rates_ascending(s),
    ensures
        rates_ascending(insert_sorted(s, x)),
    decreases s.len(),
{
    if s.len() > 0 {
        let p = s.drop_last();
        let last = s.last();
        assert(rates_ascending(p)) by {
            assert forall|i: int, j: int| 0 <= i < j < p.len() implies p[i].audio_rate
                <= p[j].audio_rate by {
                assert(p[i] == s[i] && p[j] == s[j]);
            }
        }
        if audio_after(last, x) {
            lemma_insert_sorted_ascending(p, x);
            lemma_insert_sorted_contains(p, x);
            let r = insert_sorted(p, x);
            assert forall|k: int| 0 <= k < r.len() implies r[k].audio_rate <= last.audio_rate by {
                assert(r.contains(r[k]));
                if r[k] != x {
                    assert(p.contains(r[k]));
                    let j = choose|j: int| 0 <= j < p.len() && p[j] == r[k];
                    assert(s[j] == p[j]);
                }
            }
            assert(insert_sorted(s, x) == r.push(last));
        } else {
            assert(insert_sorted(s, x) == s.push(x));
        }
    }
}

proof fn lemma_sort_audio(s: Seq<FormatFacts>)
    ensures
        sort_audio(s).len() == s.len(),
        rates_ascending(sort_audio(s)),
        forall|y: FormatFacts| #[trigger] sort_audio(s).contains(y) <==> s.contains(y),
    decreases s.len(),
{
    broadcast use vstd::seq_lib::lemma_seq_contains_after_push;

    if s.len() > 0 {
        let p = s.drop_last();
        lemma_sort_audio(p);
        lemma_insert_sorted_contains(sort_audio(p), s.last());
        lemma_insert_sorted_ascending(sort_audio(p), s.last());
        assert(s =~= p.push(s.last()));
    }
}

proof fn lemma_distinct_labels(s: Seq<FormatFacts>)
    ensures
        forall|y: FormatFacts| #[trigger] distinct_labels(s).contains(y) ==> s.contains(y)
            && audio_label(y) != "None"@,
        forall|i: int, j: int|
            0 <= i < j < distinct_labels(s).len() ==> audio_label(#[trigger] distinct_labels(s)[i])
                != audio_label(#[trigger] distinct_labels(s)[j]),
        forall|i: int|
            0 <= i < s.len() && audio_label(#[trigger] s[i]) != "None"@ ==> exists|j: int|
                0 <= j < distinct_labels(s).len() && audio_label(#[trigger] distinct_labels(s)[j])
                    == audio_label(s[i]),
        rates_ascending(s) ==> rates_ascending(distinct_labels(s)),
    decreases s.len(),
{
    broadcast use vstd::seq_lib::lemma_seq_contains_after_push;

    if s.len() > 0 {
        let p = s.drop_last();
        let last = s.last();
        lemma_distinct_labels(p);
        let k = distinct_labels(p);
        assert(s =~= p.push(last));
        assert forall|i: int| 0 <= i < s.len() && audio_label(#[trigger] s[i]) != "None"@ implies exists|j: int|
            0 <= j < distinct_labels(s).len() && audio_label(#[trigger] distinct_labels(s)[j])
                == audio_label(s[i]) by {
            if i < p.len() {
                assert(p[i] == s[i]);
                let j = choose|j: int| 0 <= j < k.len() && audio_label(#[trigger] k[j]) == audio_label(p[i]);
                assert(distinct_labels(s)[j] == k[j]);
            } else {
                let l = audio_label(last);
                if exists|m: int| 0 <= m < k.len() && audio_label(#[trigger] k[m]) == l {
                    let m = choose|m: int| 0 <= m < k.len() && audio_label(#[trigger] k[m]) == l;
                    assert(distinct_labels(s)[m] == k[m]);
                } else {
                    assert(distinct_labels(s) == k.push(last));
                    assert(distinct_labels(s)[k.len() as int] == last);
                }
            }
        }
        if rates_ascending(s) {
            assert(rates_ascending(p)) by {
                assert forall|i: int, j: int| 0 <= i < j < p.len() implies p[i].audio_rate
                    <= p[j].audio_rate by {
                    assert(p[i] == s[i] && p[j] == s[j]);
                }
            }
            assert forall|m: int| 0 <= m < k.len() implies k[m].audio_rate <= last.audio_rate by {
                assert(k.contains(k[m]));
                assert(p.contains(k[m]));
                let j = choose|j: int| 0 <= j < p.len() && p[j] == k[m];
                assert(s[j] == p[j]);
            }
        }
    }
}

/// The audio slider lists its levels from the lowest rate to the highest;
/// no two share a label; each is an audio-only format in the original
/// language (when one is marked); and every label of such a format, other
/// than the one of the "None" stop, is offered.
pub proof fn lemma_audio_levels(fs: Seq<FormatFacts>)
    ensures
        forall|i: int, j: int|
            0 <= i < j < audio_levels(fs).len() ==> (#[trigger] audio_levels(fs)[i]).audio_rate
                <= (#[trigger] audio_levels(fs)[j]).audio_rate,
        forall|i: int, j: int|
            0 <= i < j < audio_levels(fs).len() ==> audio_label(#[trigger] audio_levels(fs)[i])
                != audio_label(#[trigger] audio_levels(fs)[j]),
        forall|i: int|
            0 <= i < audio_levels(fs).len() ==> audio_candidates(fs, original_language(fs)).contains(
                #[trigger] audio_levels(fs)[i],
            ),
        forall|k: int|
            0 <= k < audio_candidates(fs, original_language(fs)).len() && audio_label(
                #[trigger] audio_candidates(fs, original_language(fs))[k],
            ) != "None"@ ==> exists|i: int|
                0 <= i < audio_levels(fs).len() && audio_label(#[trigger] audio_levels(fs)[i])
                    == audio_label(audio_candidates(fs, original_language(fs))[k]),
{
    let c = audio_candidates(fs, original_language(fs));
    let sorted = sort_audio(c);
    lemma_sort_audio(c);
    lemma_distinct_labels(sorted);
    let l = audio_levels(fs);
    assert forall|i: int| 0 <= i < l.len() implies c.contains(#[trigger] l[i]) by {
        assert(l.contains(l[i]));
        assert(sorted.contains(l[i]));
    }
    assert forall|k: int| 0 <= k < c.len() && audio_label(#[trigger] c[k]) != "None"@ implies exists|i: int|
        0 <= i < l.len() && audio_label(#[trigger] l[i]) == audio_label(c[k]) by {
        assert(c.contains(c[k]));
        assert(sorted.contains(c[k]));
        let m = choose|m: int| 0 <= m < sorted.len() && sorted[m] == c[k];
        assert(audio_label(sorted[m]) != "None"@);
    }
}

} // verus!
