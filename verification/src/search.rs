//! YouTube search and metadata inspection: the yt-dlp command lines, how a
//! flat-playlist entry becomes a search result, which subtitles a search
//! download takes, and the download options a chosen video and audio level
//! give.
use crate::argv::{append_words, opt_pair, push_opt_pair, push_string, push_word};
use crate::formats::SearchFormatChoice;
use crate::model::{DownloadOptions, MediaMode, OptionsView, QualityView, Settings};
use crate::text::{decimal, owned, spec_decimal, spec_starts_with, spec_trim, starts_with, str_eq, trim};
use vstd::prelude::*;

verus! {

/// The account and network arguments that metadata probes share with
/// downloads: browser cookies, a cookies file, a proxy and impersonation.
pub open spec fn probe_access_args(s: Settings) -> Seq<Seq<char>> {
    opt_pair("--cookies-from-browser"@, s.cookies_browser@) + opt_pair(
        "--cookies"@,
        s.cookies_file@,
    ) + opt_pair("--proxy"@, s.proxy@) + opt_pair("--impersonate"@, s.impersonate@)
}

fn probe_access_words(s: &Settings) -> (r: Vec<String>)
    ensures
        r.deep_view() == probe_access_args(*s),
{
    let mut a: Vec<String> = Vec::new();
    let ghost e = a.deep_view();
    push_opt_pair(&mut a, "--cookies-from-browser", s.cookies_browser.as_str());
    push_opt_pair(&mut a, "--cookies", s.cookies_file.as_str());
    push_opt_pair(&mut a, "--proxy", s.proxy.as_str());
    push_opt_pair(&mut a, "--impersonate", s.impersonate.as_str());
    assert(e =~= Seq::<Seq<char>>::empty());
    assert(a.deep_view() =~= probe_access_args(*s));
    a
}

/// The arguments that fetch the metadata of the first item at `url` as one
/// JSON document, without downloading.
pub open spec fn spec_inspect_args(s: Settings, url: Seq<char>) -> Seq<Seq<char>> {
    probe_access_args(s) + seq![
        "--ignore-config"@,
        "--dump-single-json"@,
        "--no-warnings"@,
        "--playlist-items"@,
        "1"@,
        "--"@,
        url,
    ]
}

/// The yt-dlp arguments that inspect `url`.
pub fn inspect_args(settings: &Settings, url: &str) -> (r: Vec<String>)
    ensures
        r.deep_view() == spec_inspect_args(*settings, url@),
{
    let mut a = probe_access_words(settings);
    let ghost before = a.deep_view();
    push_word(&mut a, "--ignore-config");
    push_word(&mut a, "--dump-single-json");
    push_word(&mut a, "--no-warnings");
    push_word(&mut a, "--playlist-items");
    push_word(&mut a, "1");
    push_word(&mut a, "--");
    push_word(&mut a, url);
    assert(a.deep_view() =~= spec_inspect_args(*settings, url@));
    a
}

/// How many results a search asks for: between 1 and 50.
pub open spec fn search_count(limit: nat) -> nat {
    if limit < 1 {
        1
    } else if limit > 50 {
        50
    } else {
        limit
    }
}

/// The yt-dlp search target for a query.
pub open spec fn spec_search_target(query: Seq<char>, limit: nat) -> Seq<char> {
    "ytsearch"@ + spec_decimal(search_count(limit)) + ":"@ + spec_trim(query)
}

/// The arguments of a flat-playlist YouTube search for `query`.
pub open spec fn spec_search_args(s: Settings, query: Seq<char>, limit: nat) -> Seq<Seq<char>> {
    probe_access_args(s) + seq![
        "--ignore-config"@,
        "--flat-playlist"@,
        "--dump-single-json"@,
        "--no-warnings"@,
        "--socket-timeout"@,
        spec_decimal(s.socket_timeout as nat),
        "--"@,
        spec_search_target(query, limit),
    ]
}

/// The yt-dlp arguments that search YouTube for up to `limit` videos.
pub fn search_args(settings: &Settings, query: &str, limit: usize) -> (r: Vec<String>)
    ensures
        r.deep_view() == spec_search_args(*settings, query@, limit as nat),
{
    let n: usize = if limit < 1 {
        1
    } else if limit > 50 {
        50
    } else {
        limit
    };
    let mut target = owned("ytsearch");
    target.append(decimal(n as u64).as_str());
    target.append(":");
    target.append(trim(query).as_str());
    let mut a = probe_access_words(settings);
    push_word(&mut a, "--ignore-config");
    push_word(&mut a, "--flat-playlist");
    push_word(&mut a, "--dump-single-json");
    push_word(&mut a, "--no-warnings");
    push_word(&mut a, "--socket-timeout");
    push_string(&mut a, decimal(settings.socket_timeout));
    push_word(&mut a, "--");
    push_string(&mut a, target);
    assert(a.deep_view() =~= spec_search_args(*settings, query@, limit as nat));
    a
}

/// How long a metadata probe may take, in seconds: twice the socket timeout,
/// kept between 20 and 60.
pub open spec fn spec_probe_timeout(socket_timeout: u64) -> u64 {
    let twice: int = if socket_timeout * 2 > u64::MAX {
        u64::MAX as int
    } else {
        socket_timeout * 2
    };
    if twice < 20 {
        20
    } else if twice > 60 {
        60
    } else {
        twice as u64
    }
}

/// The safety timeout of a metadata probe.
pub fn probe_timeout(socket_timeout: u64) -> (r: u64)
    ensures
        r == spec_probe_timeout(socket_timeout),
        20 <= r <= 60,
{
    let twice = match socket_timeout.checked_mul(2) {
        Some(t) => t,
        None => u64::MAX,
    };
    if twice < 20 {
        20
    } else if twice > 60 {
        60
    } else {
        twice
    }
}

/// The message of a failed yt-dlp run: its error output, trimmed, or when
/// that is empty, `fallback` followed by how the exit status displays.
pub open spec fn spec_failure_message(stderr: Seq<char>, fallback: Seq<char>, status: Seq<char>) -> Seq<char> {
    if spec_trim(stderr).len() == 0 {
        fallback + status
    } else {
        spec_trim(stderr)
    }
}

/// Explains a failed yt-dlp run.
pub fn failure_message(stderr: &str, fallback: &str, status: &str) -> (r: String)
    ensures
        r@ == spec_failure_message(stderr@, fallback@, status@),
{
    let t = trim(stderr);
    if t.as_str().is_empty() {
        let mut m = owned(fallback);
        m.append(status);
        m
    } else {
        t
    }
}

/// A thumbnail of a flat-playlist entry.
#[derive(Clone, Debug)]
pub struct SearchThumbnail {
    pub url: String,
    pub width: Option<u64>,
    pub height: Option<u64>,
}

/// An entry of yt-dlp's flat-playlist search output; absent texts are empty
/// and the duration is in whole seconds.
#[derive(Clone, Debug)]
pub struct SearchEntry {
    pub id: String,
    pub title: String,
    pub uploader: String,
    pub channel: String,
    pub duration: Option<u64>,
    pub url: String,
    pub webpage_url: String,
    pub thumbnails: Vec<SearchThumbnail>,
    pub view_count: Option<u64>,
    pub live_status: String,
}

/// A search result as listed; the duration is in whole seconds.
#[derive(Clone, Debug)]
pub struct SearchResult {
    pub id: String,
    pub title: String,
    pub uploader: String,
    pub duration: Option<u64>,
    pub url: String,
    pub thumbnail_url: String,
    pub view_count: Option<u64>,
    pub live_status: String,
}

/// The pixel count of a thumbnail, unknown sizes counting as 0.
pub open spec fn thumb_area(t: SearchThumbnail) -> int {
    let w: int = match t.width {
        Some(w) => w as int,
        None => 0,
    };
    let h: int = match t.height {
        Some(h) => h as int,
        None => 0,
    };
    w * h
}

/// The position of the largest thumbnail with a URL; among equals the last
/// wins, as with `Iterator::max_by_key`.
pub open spec fn best_thumbnail(ts: Seq<SearchThumbnail>) -> Option<int>
    decreases ts.len(),
{
    if ts.len() == 0 {
        None
    } else {
        let b = best_thumbnail(ts.drop_last());
        let t = ts.last();
        if t.url@.len() == 0 {
            b
        } else {
            match b {
                None => Some(ts.len() - 1),
                Some(i) => if thumb_area(t) >= thumb_area(ts[i]) {
                    Some(ts.len() - 1)
                } else {
                    Some(i)
                },
            }
        }
    }
}

/// The fields of the search result made from an entry: the largest
/// thumbnail (else YouTube's standard one for the id), a title (else
/// "Video" and the id), the uploader (else the channel), and the entry's page
/// (else its URL when that is absolute, else the watch page of the id).
pub open spec fn result_fields(e: SearchEntry) -> (Seq<char>, Seq<char>, Seq<char>, Seq<char>) {
    let thumbnail = match best_thumbnail(e.thumbnails@) {
        Some(i) => e.thumbnails@[i].url@,
        None => "https://i.ytimg.com/vi/"@ + e.id@ + "/hqdefault.jpg"@,
    };
    let title = if e.title@.len() == 0 {
        "Video "@ + e.id@
    } else {
        e.title@
    };
    let uploader = if e.uploader@.len() == 0 {
        e.channel@
    } else {
        e.uploader@
    };
    let url = if e.webpage_url@.len() == 0 {
        if spec_starts_with(e.url@, "http"@) {
            e.url@
        } else {
            "https://www.youtube.com/watch?v="@ + e.id@
        }
    } else {
        e.webpage_url@
    };
    (thumbnail, title, uploader, url)
}

/// `r` is the search result made from `e`.
pub open spec fn is_result_of(r: SearchResult, e: SearchEntry) -> bool {
    let (thumbnail, title, uploader, url) = result_fields(e);
    &&& r.id@ == e.id@
    &&& r.title@ == title
    &&& r.uploader@ == uploader
    &&& r.duration == e.duration
    &&& r.url@ == url
    &&& r.thumbnail_url@ == thumbnail
    &&& r.view_count == e.view_count
    &&& r.live_status@ == e.live_status@
}

fn thumb_area_of(t: &SearchThumbnail) -> (r: u128)
    ensures
        r == thumb_area(*t),
{
    let w: u64 = match t.width {
        Some(w) => w,
        None => 0,
    };
    let h: u64 = match t.height {
        Some(h) => h,
        None => 0,
    };
    assert(w * h <= u64::MAX * u64::MAX) by (nonlinear_arith)
        requires
            w <= u64::MAX,
            h <= u64::MAX,
    ;
    (w as u128) * (h as u128)
}

proof fn lemma_best_thumbnail(ts: Seq<SearchThumbnail>)
    ensures
        best_thumbnail(ts) matches Some(i) ==> 0 <= i < ts.len(),
    decreases ts.len(),
{
    if ts.len() > 0 {
        lemma_best_thumbnail(ts.drop_last());
    }
}

/// Turns a flat-playlist entry into a search result.
pub fn search_result(e: &SearchEntry) -> (r: SearchResult)
    ensures
        is_result_of(r, *e),
{
    let ts = &e.thumbnails;
    let mut best: Option<usize> = None;
    let mut i: usize = 0;
    while i < ts.len()
        invariant
            i <= ts@.len(),
            match best {
                None => best_thumbnail(ts@.subrange(0, i as int)) is None,
                Some(b) => best_thumbnail(ts@.subrange(0, i as int)) == Some(b as int) && b < i,
            },
        decreases ts.len() - i,
    {
        let ghost prefix = ts@.subrange(0, i as int);
        let ghost next = ts@.subrange(0, i + 1);
        assert(next.drop_last() =~= prefix);
        if let Some(b) = best {
            assert(prefix[b as int] == ts@[b as int]);
        }
        if !ts[i].url.as_str().is_empty() {
            match best {
                None => {
                    best = Some(i);
                },
                Some(b) => {
                    if thumb_area_of(&ts[i]) >= thumb_area_of(&ts[b]) {
                        best = Some(i);
                    }
                },
            }
        }
        i = i + 1;
    }
    assert(ts@.subrange(0, ts@.len() as int) =~= ts@);
    let thumbnail_url = match best {
        Some(b) => owned(ts[b].url.as_str()),
        None => {
            let mut u = owned("https://i.ytimg.com/vi/");
            u.append(e.id.as_str());
            u.append("/hqdefault.jpg");
            u
        },
    };
    let title = if e.title.as_str().is_empty() {
        let mut t = owned("Video ");
        t.append(e.id.as_str());
        t
    } else {
        owned(e.title.as_str())
    };
    let uploader = if e.uploader.as_str().is_empty() {
        owned(e.channel.as_str())
    } else {
        owned(e.uploader.as_str())
    };
    let url = if e.webpage_url.as_str().is_empty() {
        if starts_with(e.url.as_str(), "http") {
            owned(e.url.as_str())
        } else {
            let mut u = owned("https://www.youtube.com/watch?v=");
            u.append(e.id.as_str());
            u
        }
    } else {
        owned(e.webpage_url.as_str())
    };
    SearchResult {
        id: owned(e.id.as_str()),
        title,
        uploader,
        duration: e.duration,
        url,
        thumbnail_url,
        view_count: e.view_count,
        live_status: owned(e.live_status.as_str()),
    }
}

/// Turns every entry of a search response into a result, in order.
pub fn search_results(entries: &Vec<SearchEntry>) -> (r: Vec<SearchResult>)
    ensures
        r@.len() == entries@.len(),
        forall|i: int| 0 <= i < entries@.len() ==> is_result_of(#[trigger] r@[i], entries@[i]),
{
    let mut r: Vec<SearchResult> = Vec::new();
    let mut i: usize = 0;
    while i < entries.len()
        invariant
            i <= entries@.len(),
            r@.len() == i,
            forall|k: int| 0 <= k < i ==> is_result_of(#[trigger] r@[k], entries@[k]),
        decreases entries.len() - i,
    {
        r.push(search_result(&entries[i]));
        i = i + 1;
    }
    r
}

/// The subtitle languages yt-dlp reports for a video: the keys of its manual
/// subtitles and of its automatic captions, each in sorted order.
#[derive(Clone, Debug)]
pub struct SubtitleKeys {
    pub manual: Vec<String>,
    pub automatic: Vec<String>,
}

/// The real languages among subtitle keys (live chat replays are not
/// subtitles), in order.
pub open spec fn languages(keys: Seq<Seq<char>>) -> Seq<Seq<char>>
    decreases keys.len(),
{
    if keys.len() == 0 {
        seq![]
    } else if keys.last() == "live_chat"@ {
        languages(keys.drop_last())
    } else {
        languages(keys.drop_last()).push(keys.last())
    }
}

fn languages_of(keys: &Vec<String>) -> (r: Vec<String>)
    ensures
        r.deep_view() == languages(keys.deep_view()),
{
    let ghost kv = keys.deep_view();
    let mut r: Vec<String> = Vec::new();
    let mut i: usize = 0;
    while i < keys.len()
        invariant
            kv == keys.deep_view(),
            i <= keys@.len(),
            r.deep_view() == languages(kv.subrange(0, i as int)),
        decreases keys.len() - i,
    {
        let ghost prefix = kv.subrange(0, i as int);
        let ghost next = kv.subrange(0, i + 1);
        assert(next.drop_last() =~= prefix);
        assert(next.last() == keys[i as int]@);
        if !str_eq(keys[i].as_str(), "live_chat") {
            let ghost before = r.deep_view();
            r.push(owned(keys[i].as_str()));
            assert(r.deep_view() =~= before.push(keys[i as int]@));
        }
        i = i + 1;
    }
    assert(kv.subrange(0, keys@.len() as int) =~= kv);
    r
}

/// Whether any subtitles or captions are available.
pub fn has_subtitles(keys: &SubtitleKeys) -> (r: bool)
    ensures
        r == (languages(keys.manual.deep_view()).len() > 0 || languages(
            keys.automatic.deep_view(),
        ).len() > 0),
{
    languages_of(&keys.manual).len() > 0 || languages_of(&keys.automatic).len() > 0
}

/// How the available subtitles are described.
pub open spec fn subtitle_label_text(manual: nat, automatic: nat) -> Seq<char> {
    if manual == 0 && automatic == 0 {
        "unavailable"@
    } else if automatic == 0 {
        spec_decimal(manual) + " manual languages"@
    } else if manual == 0 {
        spec_decimal(automatic) + " auto languages"@
    } else {
        spec_decimal(manual) + " manual + "@ + spec_decimal(automatic) + " auto languages"@
    }
}

/// Describes the available subtitles; "unavailable" without details.
pub fn subtitle_label(keys: Option<&SubtitleKeys>) -> (r: String)
    ensures
        r@ == match keys {
            None => "unavailable"@,
            Some(k) => subtitle_label_text(
                languages(k.manual.deep_view()).len(),
                languages(k.automatic.deep_view()).len(),
            ),
        },
{
    match keys {
        None => owned("unavailable"),
        Some(k) => {
            let m = languages_of(&k.manual).len();
            let a = languages_of(&k.automatic).len();
            if m == 0 && a == 0 {
                owned("unavailable")
            } else if a == 0 {
                let mut s = decimal(m as u64);
                s.append(" manual languages");
                s
            } else if m == 0 {
                let mut s = decimal(a as u64);
                s.append(" auto languages");
                s
            } else {
                let mut s = decimal(m as u64);
                s.append(" manual + ");
                s.append(decimal(a as u64).as_str());
                s.append(" auto languages");
                s
            }
        },
    }
}

/// The preferred language among `ls`: the first English one, else the
/// first one.
pub open spec fn preferred(ls: Seq<Seq<char>>) -> Option<Seq<char>> {
    if exists|i: int| 0 <= i < ls.len() && spec_starts_with(#[trigger] ls[i], "en"@) {
        Some(ls[choose_first_en(ls)])
    } else if ls.len() > 0 {
        Some(ls[0])
    } else {
        None
    }
}

/// The position of the first English language.
pub open spec fn choose_first_en(ls: Seq<Seq<char>>) -> int
    decreases ls.len(),
{
    if ls.len() == 0 {
        0
    } else if spec_starts_with(ls[0], "en"@) {
        0
    } else {
        choose_first_en(ls.drop_first()) + 1
    }
}

proof fn lemma_choose_first_en(ls: Seq<Seq<char>>)
    ensures
        (exists|i: int| 0 <= i < ls.len() && spec_starts_with(#[trigger] ls[i], "en"@)) ==> {
            let k = choose_first_en(ls);
            &&& 0 <= k < ls.len()
            &&& spec_starts_with(ls[k], "en"@)
            &&& forall|j: int| 0 <= j < k ==> !spec_starts_with(#[trigger] ls[j], "en"@)
        },
    decreases ls.len(),
{
    if ls.len() > 0 && !spec_starts_with(ls[0], "en"@) {
        let r = ls.drop_first();
        if exists|i: int| 0 <= i < ls.len() && spec_starts_with(#[trigger] ls[i], "en"@) {
            let i = choose|i: int| 0 <= i < ls.len() && spec_starts_with(#[trigger] ls[i], "en"@);
            assert(r[i - 1] == ls[i]);
        }
        lemma_choose_first_en(r);
        assert forall|j: int| 0 < j < ls.len() implies ls[j] == r[j - 1] by {}
    }
}

fn preferred_of(ls: &Vec<String>) -> (r: Option<String>)
    ensures
        match r {
            Some(l) => preferred(ls.deep_view()) == Some(l@),
            None => preferred(ls.deep_view()) is None,
        },
{
    let ghost lv = ls.deep_view();
    proof {
        lemma_choose_first_en(lv);
    }
    let mut i: usize = 0;
    while i < ls.len()
        invariant
            lv == ls.deep_view(),
            i <= ls@.len(),
            forall|j: int| 0 <= j < i ==> !spec_starts_with(#[trigger] lv[j], "en"@),
        decreases ls.len() - i,
    {
        assert(lv[i as int] == ls[i as int]@);
        if starts_with(ls[i].as_str(), "en") {
            proof {
                assert(spec_starts_with(lv[i as int], "en"@));
                lemma_choose_first_en(lv);
                let k = choose_first_en(lv);
                if k < i {
                    assert(!spec_starts_with(lv[k], "en"@));
                }
                if k > i {
                    assert(!spec_starts_with(lv[i as int], "en"@));
                }
            }
            return Some(owned(ls[i].as_str()));
        }
        i = i + 1;
    }
    if ls.len() > 0 {
        assert(lv[0] == ls[0]@);
        Some(owned(ls[0].as_str()))
    } else {
        None
    }
}

/// Which subtitles a search download takes: manual subtitles in the
/// preferred language when there are any, else automatic captions in the
/// preferred language, else none.
pub open spec fn spec_preferred_subtitle(manual: Seq<Seq<char>>, automatic: Seq<Seq<char>>) -> (bool, bool, Seq<char>) {
    match preferred(languages(manual)) {
        Some(l) => (true, false, l),
        None => match preferred(languages(automatic)) {
            Some(l) => (false, true, l),
            None => (false, false, Seq::<char>::empty()),
        },
    }
}

/// Chooses the subtitles of a search download: whether to take manual
/// subtitles, automatic captions, and in which language.
pub fn preferred_subtitle(keys: Option<&SubtitleKeys>) -> (r: (bool, bool, String))
    ensures
        match keys {
            None => r.0 == false && r.1 == false && r.2@ == Seq::<char>::empty(),
            Some(k) => (r.0, r.1, r.2@) == spec_preferred_subtitle(k.manual.deep_view(), k.automatic.deep_view()),
        },
{
    match keys {
        None => (false, false, String::new()),
        Some(k) => {
            match preferred_of(&languages_of(&k.manual)) {
                Some(l) => (true, false, l),
                None => match preferred_of(&languages_of(&k.automatic)) {
                    Some(l) => (false, true, l),
                    None => (false, false, String::new()),
                },
            }
        },
    }
}

/// The format id of the chosen slider stop (empty when there is none).
pub open spec fn chosen_id(choices: Seq<SearchFormatChoice>, index: int) -> Seq<char> {
    if 0 <= index < choices.len() {
        choices[index].format_id@
    } else {
        Seq::<char>::empty()
    }
}

/// The builder's options `o` with the mode and exact format that video
/// format `v` and audio format `a` (either may be empty) give.
pub open spec fn mixed_options(o: OptionsView, v: Seq<char>, a: Seq<char>) -> OptionsView {
    if v.len() > 0 && a.len() > 0 {
        OptionsView {
            mode: MediaMode::Video,
            quality: QualityView::Custom(v + "+"@ + a + "/"@ + v),
            ..o
        }
    } else if v.len() > 0 {
        OptionsView { mode: MediaMode::VideoOnly, quality: QualityView::Custom(v), ..o }
    } else {
        OptionsView {
            mode: MediaMode::Audio,
            quality: QualityView::Custom(a),
            audio_format: "best"@,
            embed_subtitles: false,
            ..o
        }
    }
}

/// `o` with the chosen subtitles, or with subtitles off.
pub open spec fn with_subtitles(o: OptionsView, subtitles: Option<(bool, bool, Seq<char>)>) -> OptionsView {
    match subtitles {
        Some((manual, automatic, language)) => OptionsView {
            subtitles: manual,
            auto_subtitles: automatic,
            subtitle_languages: language,
            ..o
        },
        None => OptionsView { subtitles: false, auto_subtitles: false, ..o },
    }
}

/// The options of a search download with video format `v` and audio format
/// `a` (either may be empty), starting from the builder's options `o`.
pub open spec fn search_options(o: OptionsView, v: Seq<char>, a: Seq<char>, subtitles: Option<(bool, bool, Seq<char>)>) -> OptionsView {
    with_subtitles(mixed_options(o, v, a), subtitles)
}

fn set_mode_quality(o: DownloadOptions, mode: MediaMode, q: String) -> (r: DownloadOptions)
    ensures
        r@ == (OptionsView { mode, quality: QualityView::Custom(q@), ..o@ }),
{
    let mut o = o;
    o.mode = mode;
    o.quality = crate::model::Quality::Custom(q);
    o
}

fn mix(o: DownloadOptions, v: String, a: String) -> (r: DownloadOptions)
    requires
        v@.len() > 0 || a@.len() > 0,
    ensures
        r@ == mixed_options(o@, v@, a@),
{
    if !v.as_str().is_empty() && !a.as_str().is_empty() {
        let mut q = owned(v.as_str());
        q.append("+");
        q.append(a.as_str());
        q.append("/");
        q.append(v.as_str());
        assert(q@ == v@ + "+"@ + a@ + "/"@ + v@);
        set_mode_quality(o, MediaMode::Video, q)
    } else if !v.as_str().is_empty() {
        set_mode_quality(o, MediaMode::VideoOnly, v)
    } else {
        as_audio(o, a)
    }
}

fn as_audio(o: DownloadOptions, a: String) -> (r: DownloadOptions)
    ensures
        r@ == (OptionsView {
            mode: MediaMode::Audio,
            quality: QualityView::Custom(a@),
            audio_format: "best"@,
            embed_subtitles: false,
            ..o@
        }),
{
    let mut o = o;
    o.mode = MediaMode::Audio;
    o.quality = crate::model::Quality::Custom(a);
    o.audio_format = owned("best");
    o.embed_subtitles = false;
    o
}

/// The options for downloading a search result. Without format details the
/// builder's options are used as they are. With them, the chosen video and
/// audio levels set the mode and exact format, and the subtitle switch picks
/// the preferred subtitles; choosing neither level is an error.
#[verifier::spinoff_prover]
pub fn configured_search_options(
    options: &DownloadOptions,
    details: Option<&SubtitleKeys>,
    video: &Vec<SearchFormatChoice>,
    video_index: usize,
    audio: &Vec<SearchFormatChoice>,
    audio_index: usize,
    subtitles: bool,
) -> (r: Result<DownloadOptions, String>)
    ensures
        match details {
            None => r matches Ok(o) && o@ == options@,
            Some(k) => {
                let v = chosen_id(video@, video_index as int);
                let a = chosen_id(audio@, audio_index as int);
                if v.len() == 0 && a.len() == 0 {
                    r matches Err(e) && e@ == "Choose at least video or audio before downloading"@
                } else {
                    r matches Ok(o) && o@ == search_options(
                        options@,
                        v,
                        a,
                        if subtitles {
                            Some(spec_preferred_subtitle(k.manual.deep_view(), k.automatic.deep_view()))
                        } else {
                            None
                        },
                    )
                }
            },
        },
{
    if details.is_none() {
        return Ok(options.duplicate());
    }
    let v: String = if video_index < video.len() {
        owned(video[video_index].format_id.as_str())
    } else {
        String::new()
    };
    let a: String = if audio_index < audio.len() {
        owned(audio[audio_index].format_id.as_str())
    } else {
        String::new()
    };
    if v.as_str().is_empty() && a.as_str().is_empty() {
        return Err(owned("Choose at least video or audio before downloading"));
    }
    let o = mix(options.duplicate(), v, a);
    Ok(take_subtitles(o, subtitles, details))
}

fn take_subtitles(o: DownloadOptions, subtitles: bool, details: Option<&SubtitleKeys>) -> (r: DownloadOptions)
    requires
        details is Some,
    ensures
        r@ == with_subtitles(
            o@,
            if subtitles {
                Some(
                    spec_preferred_subtitle(
                        details->0.manual.deep_view(),
                        details->0.automatic.deep_view(),
                    ),
                )
            } else {
                None
            },
        ),
{
    if subtitles {
        let (manual, automatic, language) = preferred_subtitle(details);
        set_subtitles(o, manual, automatic, language)
    } else {
        clear_subtitles(o)
    }
}

fn set_subtitles(o: DownloadOptions, manual: bool, automatic: bool, language: String) -> (r: DownloadOptions)
    ensures
        r@ == with_subtitles(o@, Some((manual, automatic, language@))),
{
    let mut o = o;
    o.subtitles = manual;
    o.auto_subtitles = automatic;
    o.subtitle_languages = language;
    o
}

fn clear_subtitles(o: DownloadOptions) -> (r: DownloadOptions)
    ensures
        r@ == with_subtitles(o@, None),
{
    let mut o = o;
    o.subtitles = false;
    o.auto_subtitles = false;
    o
}

/// `l` is the language to take from `ls`: the first that starts with `en`
/// when there is one, else the first of all.
pub open spec fn english_first(ls: Seq<Seq<char>>, l: Seq<char>) -> bool {
    if exists|i: int| 0 <= i < ls.len() && spec_starts_with(#[trigger] ls[i], "en"@) {
        exists|i: int|
            0 <= i < ls.len() && ls[i] == l && spec_starts_with(#[trigger] ls[i], "en"@) && forall|j: int|
                0 <= j < i ==> !spec_starts_with(#[trigger] ls[j], "en"@)
    } else {
        ls.len() > 0 && l == ls[0]
    }
}

/// Subtitles are chosen in this order: manual subtitles when there are any
/// (English first, else the first language), else automatic captions (again
/// English first, else the first language), else none. Live chat replays
/// are never taken for subtitles.
pub proof fn lemma_subtitle_preference(manual: Seq<Seq<char>>, automatic: Seq<Seq<char>>)
    ensures
        ({
            let (m, a, l) = spec_preferred_subtitle(manual, automatic);
            let lm = languages(manual);
            let la = languages(automatic);
            &&& lm.len() > 0 ==> m && !a && english_first(lm, l)
            &&& lm.len() == 0 && la.len() > 0 ==> !m && a && english_first(la, l)
            &&& lm.len() == 0 && la.len() == 0 ==> !m && !a && l.len() == 0
            &&& l != "live_chat"@
        }),
{
    lemma_choose_first_en(languages(manual));
    lemma_choose_first_en(languages(automatic));
    lemma_languages_skip_live_chat(manual);
    lemma_languages_skip_live_chat(automatic);
    reveal_strlit("live_chat");
}

proof fn lemma_languages_skip_live_chat(keys: Seq<Seq<char>>)
    ensures
        forall|i: int| 0 <= i < languages(keys).len() ==> #[trigger] languages(keys)[i] != "live_chat"@,
    decreases keys.len(),
{
    if keys.len() > 0 {
        let p = keys.drop_last();
        lemma_languages_skip_live_chat(p);
        if keys.last() != "live_chat"@ {
            let l = languages(p).push(keys.last());
            assert forall|i: int| 0 <= i < l.len() implies #[trigger] l[i] != "live_chat"@ by {
                if i < languages(p).len() {
                    assert(l[i] == languages(p)[i]);
                }
            }
        }
    }
}

} // verus!
