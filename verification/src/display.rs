//! Choosing the physical display whose size caps the "best for screen"
//! preset. Compositor data (Hyprland) is preferred over `xrandr`, which is
//! preferred over the kernel's DRM connector list, because Xwayland may
//! report a synthetic desktop rectangle.
//!
//! The probes themselves (running `hyprctl` and `xrandr`, reading sysfs) are
//! done by the caller, which hands their results in as plain values.
use crate::text::{
    chars_of, contains, find_char, find_char_in, lemma_find_char, lemma_words_nonempty, lines,
    lines_of, owned, parse_u32, spec_contains, spec_parse_u32, spec_trim, split_whitespace,
    string_between, trim, words_of,
};
use vstd::prelude::*;

verus! {

/// A display and the size used to cap video downloads.
#[derive(Clone, Debug)]
pub struct DisplayInfo {
    pub name: String,
    pub width: u32,
    pub height: u32,
    pub source: &'static str,
}

/// A monitor as `hyprctl monitors -j` describes it.
#[derive(Clone, Debug)]
pub struct HyprMonitor {
    pub name: String,
    pub width: i64,
    pub height: i64,
    pub transform: i64,
    pub focused: bool,
    pub disabled: bool,
}

/// A DRM connector: its name and the contents of its `status` and `modes`
/// files, `None` where a file could not be read.
#[derive(Clone, Debug)]
pub struct DrmConnector {
    pub name: String,
    pub status: Option<String>,
    pub modes: Option<String>,
}

/// `s` up to its first `c` (all of `s` when there is none), as
/// `s.split(c).next()` gives it.
pub open spec fn before_char(s: Seq<char>, c: char) -> Seq<char> {
    match find_char(s, c) {
        Some(i) => s.subrange(0, i),
        None => s,
    }
}

/// The `WIDTHxHEIGHT` at the start of an `xrandr` geometry or DRM mode such
/// as `3440x1440+0+0`; anything after the first `+` is ignored.
pub open spec fn spec_parse_geometry(token: Seq<char>) -> Option<(u32, u32)> {
    let dims = before_char(token, '+');
    match find_char(dims, 'x') {
        None => None,
        Some(i) => match (
            spec_parse_u32(dims.subrange(0, i)),
            spec_parse_u32(dims.subrange(i + 1, dims.len() as int)),
        ) {
            (Some(w), Some(h)) => Some((w, h)),
            _ => None,
        },
    }
}

/// Reads a `WIDTHxHEIGHT` geometry.
pub fn parse_geometry(token: &str) -> (r: Option<(u32, u32)>)
    ensures
        r == spec_parse_geometry(token@),
{
    let v = chars_of(token);
    let end = match find_char_in(&v, '+') {
        Some(i) => i,
        None => v.len(),
    };
    proof {
        lemma_find_char(v@, '+');
    }
    let dims = string_between(&v, 0, end);
    assert(dims@ == before_char(token@, '+')) by {
        if find_char(v@, '+') is None {
            assert(v@.subrange(0, v@.len() as int) =~= v@);
        }
    }
    let d = chars_of(dims.as_str());
    match find_char_in(&d, 'x') {
        None => None,
        Some(i) => {
            proof {
                lemma_find_char(d@, 'x');
            }
            let w = string_between(&d, 0, i);
            let h = string_between(&d, i + 1, d.len());
            match (parse_u32(w.as_str()), parse_u32(h.as_str())) {
                (Some(a), Some(b)) => Some((a, b)),
                _ => None,
            }
        },
    }
}

/// The first geometry among `w[j..]`.
pub open spec fn first_geometry(w: Seq<Seq<char>>, j: int) -> Option<(u32, u32)>
    decreases w.len() - j,
{
    if j < 0 || j >= w.len() {
        None
    } else {
        match spec_parse_geometry(w[j]) {
            Some(g) => Some(g),
            None => first_geometry(w, j + 1),
        }
    }
}

/// A connected output found in `xrandr` output: whether it is the primary
/// one, its name, and its size.
pub struct Output {
    pub primary: bool,
    pub name: Seq<char>,
    pub width: u32,
    pub height: u32,
}

/// The connected output a line of `xrandr --current` describes, if any: a
/// line containing ` connected ` whose name is its first word and whose size
/// is the first later word that reads as a geometry.
pub open spec fn xrandr_output(line: Seq<char>) -> Option<Output> {
    if !spec_contains(line, " connected "@) {
        None
    } else {
        let w = words_of(line);
        match first_geometry(w, 1) {
            None => None,
            Some(g) => Some(
                Output {
                    primary: spec_contains(line, " connected primary "@),
                    name: w[0],
                    width: g.0,
                    height: g.1,
                },
            ),
        }
    }
}

/// The connected outputs of all lines, in order.
pub open spec fn xrandr_outputs(ls: Seq<Seq<char>>) -> Seq<Output>
    decreases ls.len(),
{
    if ls.len() == 0 {
        seq![]
    } else {
        xrandr_outputs(ls.drop_last()) + match xrandr_output(ls.last()) {
            Some(o) => seq![o],
            None => seq![],
        }
    }
}

/// Ranking of outputs: primary ones first, then by area.
pub open spec fn output_at_least(a: Output, b: Output) -> bool {
    (a.primary && !b.primary) || (a.primary == b.primary && a.width * a.height >= b.width
        * b.height)
}

/// The position of the best output; among equals the last one wins, as with
/// `Iterator::max_by_key`.
pub open spec fn best_output(os: Seq<Output>) -> int
    decreases os.len(),
{
    if os.len() <= 1 {
        0
    } else {
        let b = best_output(os.drop_last());
        if output_at_least(os.last(), os[b]) {
            os.len() - 1
        } else {
            b
        }
    }
}

/// The display `xrandr --current` reports as most relevant: the primary
/// connected output, else the largest; `None` when no connected output has a
/// readable size.
pub open spec fn spec_parse_xrandr(text: Seq<char>) -> Option<(Seq<char>, u32, u32)> {
    let os = xrandr_outputs(lines_of(text));
    if os.len() == 0 {
        None
    } else {
        let o = os[best_output(os)];
        Some((o.name, o.width, o.height))
    }
}

/// The area of a `w` by `h` rectangle.
pub fn area(w: u32, h: u32) -> (r: u64)
    ensures
        r == w * h,
{
    assert(w * h <= u32::MAX * u32::MAX) by (nonlinear_arith)
        requires
            w <= u32::MAX,
            h <= u32::MAX,
    ;
    (w as u64) * (h as u64)
}

fn first_geometry_in(w: &Vec<String>, j: usize) -> (r: Option<(u32, u32)>)
    requires
        j <= w.len(),
    ensures
        r == first_geometry(w.deep_view(), j as int),
    decreases w.len() - j,
{
    if j >= w.len() {
        None
    } else {
        assert(w.deep_view()[j as int] == w[j as int]@);
        match parse_geometry(w[j].as_str()) {
            Some(g) => Some(g),
            None => first_geometry_in(w, j + 1),
        }
    }
}

proof fn lemma_best_output_in_range(os: Seq<Output>)
    ensures
        os.len() > 0 ==> 0 <= best_output(os) < os.len(),
    decreases os.len(),
{
    if os.len() > 1 {
        lemma_best_output_in_range(os.drop_last());
    }
}

/// Reads the most relevant display from `xrandr --current` output.
pub fn parse_xrandr(text: &str) -> (r: Option<DisplayInfo>)
    ensures
        info_is(r, spec_parse_xrandr(text@), "xrandr"@),
{
    let ls = lines(text);
    let ghost lv = ls.deep_view();
    let mut found = false;
    let mut best_primary = false;
    let mut best_name = String::new();
    let mut best_w: u32 = 0;
    let mut best_h: u32 = 0;
    let ghost mut os: Seq<Output> = seq![];
    let mut i: usize = 0;
    while i < ls.len()
        invariant
            lv == ls.deep_view(),
            lv == lines_of(text@),
            i <= ls.len(),
            os == xrandr_outputs(lv.subrange(0, i as int)),
            found == (os.len() > 0),
            found ==> ({
                let o = os[best_output(os)];
                o.primary == best_primary && o.name == best_name@ && o.width == best_w
                    && o.height == best_h
            }),
        decreases ls.len() - i,
    {
        let line = ls[i].as_str();
        let ghost prefix = lv.subrange(0, i as int);
        let ghost next = lv.subrange(0, i + 1);
        assert(next.drop_last() =~= prefix);
        assert(next.last() == line@);
        if contains(line, " connected ") {
            let w = split_whitespace(line);
            proof {
                let k = choose|k: int| crate::text::occurs_at(line@, " connected "@, k);
                reveal_strlit(" connected ");
                assert(line@[k + 1] == " connected "@[1]);
                lemma_words_nonempty(line@, k + 1);
            }
            match first_geometry_in(&w, 1) {
                None => {
                    assert(xrandr_output(line@) is None);
                },
                Some((gw, gh)) => {
                    let primary = contains(line, " connected primary ");
                    assert(w.deep_view()[0] == w[0]@);
                    let ghost o = Output { primary, name: w[0]@, width: gw, height: gh };
                    assert(xrandr_output(line@) == Some(o));
                    proof {
                        lemma_best_output_in_range(os);
                    }
                    let better = if !found {
                        true
                    } else {
                        (primary && !best_primary) || (primary == best_primary && area(gw, gh) >= area(
                            best_w,
                            best_h,
                        ))
                    };
                    if better {
                        best_primary = primary;
                        best_name = owned(w[0].as_str());
                        best_w = gw;
                        best_h = gh;
                    }
                    found = true;
                    proof {
                        let os2 = os.push(o);
                        assert(os2.drop_last() =~= os);
                        os = os2;
                    }
                },
            }
        } else {
            assert(xrandr_output(line@) is None);
        }
        proof {
            if xrandr_output(line@) is None {
                assert(xrandr_outputs(prefix) + seq![] =~= xrandr_outputs(prefix));
            } else {
                assert(xrandr_outputs(prefix).push(xrandr_output(line@)->0) =~= xrandr_outputs(
                    prefix,
                ) + seq![xrandr_output(line@)->0]);
            }
        }
        i = i + 1;
    }
    assert(lv.subrange(0, ls.len() as int) =~= lv);
    if found {
        Some(DisplayInfo { name: best_name, width: best_w, height: best_h, source: "xrandr" })
    } else {
        None
    }
}


/// `r` is the display `d` says, reported by `source`.
pub open spec fn info_is(r: Option<DisplayInfo>, d: Option<(Seq<char>, u32, u32)>, source: Seq<
    char,
>) -> bool {
    match d {
        None => r is None,
        Some((name, width, height)) => r matches Some(i) && i.name@ == name && i.width == width
            && i.height == height && i.source@ == source,
    }
}

/// A Hyprland monitor is a candidate when it is enabled and has a size.
pub open spec fn hypr_eligible(m: HyprMonitor) -> bool {
    !m.disabled && m.width > 0 && m.height > 0
}

/// Ranking of monitors: the focused one first, then by area.
pub open spec fn hypr_at_least(a: HyprMonitor, b: HyprMonitor) -> bool {
    (a.focused && !b.focused) || (a.focused == b.focused && a.width * a.height >= b.width
        * b.height)
}

/// The position of the best eligible monitor; among equals the last wins.
pub open spec fn best_monitor(ms: Seq<HyprMonitor>) -> Option<int>
    decreases ms.len(),
{
    if ms.len() == 0 {
        None
    } else {
        let b = best_monitor(ms.drop_last());
        let m = ms.last();
        if !hypr_eligible(m) {
            b
        } else {
            match b {
                None => Some(ms.len() - 1),
                Some(i) => if hypr_at_least(m, ms[i]) {
                    Some(ms.len() - 1)
                } else {
                    Some(i)
                },
            }
        }
    }
}

/// A rotation by a quarter or three quarters turn (possibly flipped) swaps
/// width and height.
pub open spec fn rotated(transform: i64) -> bool {
    transform == 1 || transform == 3 || transform == 5 || transform == 7
}

/// The display Hyprland reports as most relevant: the focused enabled
/// monitor, else the largest, with width and height swapped when it is
/// rotated; the sizes are narrowed to 32 bits as `as u32` does.
pub open spec fn spec_hyprland_display(ms: Seq<HyprMonitor>) -> Option<(Seq<char>, u32, u32)> {
    match best_monitor(ms) {
        None => None,
        Some(i) => {
            let m = ms[i];
            if rotated(m.transform) {
                Some((m.name@, m.height as u32, m.width as u32))
            } else {
                Some((m.name@, m.width as u32, m.height as u32))
            }
        },
    }
}

proof fn lemma_best_monitor_in_range(ms: Seq<HyprMonitor>)
    ensures
        best_monitor(ms) matches Some(i) ==> 0 <= i < ms.len() && hypr_eligible(ms[i]),
    decreases ms.len(),
{
    if ms.len() > 0 {
        lemma_best_monitor_in_range(ms.drop_last());
        let b = best_monitor(ms.drop_last());
        if b is Some {
            assert(ms.drop_last()[b->0] == ms[b->0]);
        }
    }
}

/// The product of two positive sizes, without overflow.
fn monitor_area(w: i64, h: i64) -> (r: i128)
    requires
        w > 0,
        h > 0,
    ensures
        r == w * h,
{
    assert(w * h <= i64::MAX * i64::MAX) by (nonlinear_arith)
        requires
            0 < w <= i64::MAX,
            0 < h <= i64::MAX,
    ;
    assert(w * h > 0) by (nonlinear_arith)
        requires
            0 < w,
            0 < h,
    ;
    (w as i128) * (h as i128)
}

/// Chooses the display from the monitors `hyprctl monitors -j` lists.
pub fn hyprland_display(monitors: &Vec<HyprMonitor>) -> (r: Option<DisplayInfo>)
    ensures
        info_is(r, spec_hyprland_display(monitors@), "Hyprland"@),
{
    let mut best: Option<usize> = None;
    let mut i: usize = 0;
    while i < monitors.len()
        invariant
            i <= monitors.len(),
            match best {
                None => best_monitor(monitors@.subrange(0, i as int)) is None,
                Some(b) => best_monitor(monitors@.subrange(0, i as int)) == Some(b as int),
            },
        decreases monitors.len() - i,
    {
        let ghost prefix = monitors@.subrange(0, i as int);
        let ghost next = monitors@.subrange(0, i + 1);
        assert(next.drop_last() =~= prefix);
        proof {
            lemma_best_monitor_in_range(prefix);
        }
        let m = &monitors[i];
        if !m.disabled && m.width > 0 && m.height > 0 {
            match best {
                None => {
                    best = Some(i);
                },
                Some(b) => {
                    let o = &monitors[b];
                    assert(prefix[b as int] == monitors@[b as int]);
                    let wins = (m.focused && !o.focused) || (m.focused == o.focused && monitor_area(
                        m.width,
                        m.height,
                    ) >= monitor_area(o.width, o.height));
                    if wins {
                        best = Some(i);
                    }
                },
            }
        }
        i = i + 1;
    }
    assert(monitors@.subrange(0, monitors@.len() as int) =~= monitors@);
    proof {
        lemma_best_monitor_in_range(monitors@);
    }
    match best {
        None => None,
        Some(b) => {
            let m = &monitors[b];
            let name = owned(m.name.as_str());
            if m.transform == 1 || m.transform == 3 || m.transform == 5 || m.transform == 7 {
                Some(
                    DisplayInfo {
                        name,
                        width: m.height as u32,
                        height: m.width as u32,
                        source: "Hyprland",
                    },
                )
            } else {
                Some(
                    DisplayInfo {
                        name,
                        width: m.width as u32,
                        height: m.height as u32,
                        source: "Hyprland",
                    },
                )
            }
        },
    }
}

/// The display a DRM connector offers, if it is connected and lists a mode
/// that reads as a geometry.
pub open spec fn drm_candidate(c: DrmConnector) -> Option<(Seq<char>, u32, u32)> {
    match (c.status, c.modes) {
        (Some(status), Some(modes)) => if spec_trim(status@) == "connected"@ {
            match first_geometry(lines_of(modes@), 0) {
                Some((w, h)) => Some((c.name@, w, h)),
                None => None,
            }
        } else {
            None
        },
        _ => None,
    }
}

/// The position of the largest DRM candidate; among equals the last wins.
pub open spec fn best_drm(cs: Seq<DrmConnector>) -> Option<int>
    decreases cs.len(),
{
    if cs.len() == 0 {
        None
    } else {
        let b = best_drm(cs.drop_last());
        match drm_candidate(cs.last()) {
            None => b,
            Some((_, w, h)) => match b {
                None => Some(cs.len() - 1),
                Some(i) => {
                    let o = drm_candidate(cs[i])->0;
                    if w * h >= o.1 * o.2 {
                        Some(cs.len() - 1)
                    } else {
                        Some(i)
                    }
                },
            },
        }
    }
}

/// The display the DRM connectors offer: the largest connected one.
pub open spec fn spec_drm_display(cs: Seq<DrmConnector>) -> Option<(Seq<char>, u32, u32)> {
    match best_drm(cs) {
        None => None,
        Some(i) => drm_candidate(cs[i]),
    }
}

proof fn lemma_best_drm_in_range(cs: Seq<DrmConnector>)
    ensures
        best_drm(cs) matches Some(i) ==> 0 <= i < cs.len() && drm_candidate(cs[i]) is Some,
    decreases cs.len(),
{
    if cs.len() > 0 {
        lemma_best_drm_in_range(cs.drop_last());
        let b = best_drm(cs.drop_last());
        if b is Some {
            assert(cs.drop_last()[b->0] == cs[b->0]);
        }
    }
}

fn drm_candidate_of(c: &DrmConnector) -> (r: Option<(u32, u32)>)
    ensures
        match drm_candidate(*c) {
            None => r is None,
            Some((_, w, h)) => r == Some((w, h)),
        },
{
    match (&c.status, &c.modes) {
        (Some(status), Some(modes)) => {
            let t = trim(status.as_str());
            if crate::text::str_eq(t.as_str(), "connected") {
                let ls = lines(modes.as_str());
                first_geometry_in(&ls, 0)
            } else {
                None
            }
        },
        _ => None,
    }
}

/// Chooses the display from the DRM connectors.
pub fn drm_display(connectors: &Vec<DrmConnector>) -> (r: Option<DisplayInfo>)
    ensures
        info_is(r, spec_drm_display(connectors@), "DRM"@),
{
    let mut best: Option<(usize, u32, u32)> = None;
    let mut i: usize = 0;
    while i < connectors.len()
        invariant
            i <= connectors.len(),
            match best {
                None => best_drm(connectors@.subrange(0, i as int)) is None,
                Some((b, w, h)) => {
                    &&& best_drm(connectors@.subrange(0, i as int)) == Some(b as int)
                    &&& b < i
                    &&& drm_candidate(connectors@[b as int]) matches Some((_, cw, ch)) && cw == w
                        && ch == h
                },
            },
        decreases connectors.len() - i,
    {
        let ghost prefix = connectors@.subrange(0, i as int);
        let ghost next = connectors@.subrange(0, i + 1);
        assert(next.drop_last() =~= prefix);
        proof {
            lemma_best_drm_in_range(prefix);
            if let Some((b, _, _)) = best {
                assert(prefix[b as int] == connectors@[b as int]);
            }
        }
        match drm_candidate_of(&connectors[i]) {
            None => {},
            Some((w, h)) => {
                match best {
                    None => {
                        best = Some((i, w, h));
                    },
                    Some((_, bw, bh)) => {
                        if area(w, h) >= area(bw, bh) {
                            best = Some((i, w, h));
                        }
                    },
                }
            },
        }
        i = i + 1;
    }
    assert(connectors@.subrange(0, connectors@.len() as int) =~= connectors@);
    match best {
        None => None,
        Some((b, w, h)) => Some(
            DisplayInfo {
                name: owned(connectors[b].name.as_str()),
                width: w,
                height: h,
                source: "DRM",
            },
        ),
    }
}

/// The display that caps video downloads, from the three probes in order of
/// preference: Hyprland's monitor list, `xrandr --current` output, and the
/// DRM connectors. A probe that could not run is `None`.
pub fn detect(
    hyprland: Option<&Vec<HyprMonitor>>,
    xrandr: Option<&str>,
    drm: Option<&Vec<DrmConnector>>,
) -> (r: Option<DisplayInfo>)
    ensures
        ({
            let h = match hyprland {
                Some(ms) => spec_hyprland_display(ms@),
                None => None,
            };
            let x = match xrandr {
                Some(t) => spec_parse_xrandr(t@),
                None => None,
            };
            let d = match drm {
                Some(cs) => spec_drm_display(cs@),
                None => None,
            };
            if h is Some {
                info_is(r, h, "Hyprland"@)
            } else if x is Some {
                info_is(r, x, "xrandr"@)
            } else {
                info_is(r, d, "DRM"@)
            }
        }),
{
    if let Some(ms) = hyprland {
        let found = hyprland_display(ms);
        if found.is_some() {
            return found;
        }
    }
    if let Some(t) = xrandr {
        let found = parse_xrandr(t);
        if found.is_some() {
            return found;
        }
    }
    match drm {
        Some(cs) => drm_display(cs),
        None => None,
    }
}

} // verus!
