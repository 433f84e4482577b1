//! Reading the lines a yt-dlp worker prints.
//!
//! Progress lines carry the marker `PROGRESS_PREFIX` followed by tab-separated
//! fields (status, downloaded bytes, total bytes, speed, ETA, title); the line
//! announcing the final file carries `DONE_PREFIX`; everything else is log
//! output, some of which announces post-processing.
use crate::text::{
    chars_of, contains, lemma_split_on_nonempty, parse_u64, spec_contains, spec_parse_u64,
    spec_starts_with, spec_trim, split_chars, split_on, starts_with, string_between, string_of,
    trim,
};
use crate::ytdlp::{DONE_PREFIX, PROGRESS_PREFIX};
use vstd::prelude::*;

verus! {

/// What one line of worker output means.
#[derive(Clone, Debug)]
pub enum OutputLine {
    /// A progress report. The byte counts and the speed are the raw texts
    /// yt-dlp printed; the ETA is read as whole seconds when it is a number.
    Progress {
        status: String,
        downloaded: String,
        total: String,
        speed: String,
        eta: Option<u64>,
        title: String,
    },
    /// A progress line with too few fields; it is dropped.
    Malformed,
    /// The final path of the downloaded file.
    Done { path: String },
    /// Any other line; `processing` when it announces post-processing.
    Log { line: String, processing: bool },
}

/// Whether a log line announces a post-processing step.
pub open spec fn announces_processing(line: Seq<char>) -> bool {
    ||| spec_contains(line, "Post-process"@)
    ||| spec_contains(line, "Merger"@)
    ||| spec_contains(line, "ExtractAudio"@)
}

/// The meaning of `line`, where `fields` are the tab-separated pieces after a
/// progress marker (only the first six matter).
pub open spec fn line_meaning(line: Seq<char>, o: OutputLine) -> bool {
    let p = PROGRESS_PREFIX@;
    let d = DONE_PREFIX@;
    if spec_starts_with(line, p) {
        let f = split_on(line.subrange(p.len() as int, line.len() as int), '\t');
        if f.len() >= 6 {
            o matches OutputLine::Progress { status, downloaded, total, speed, eta, title } && {
                &&& status@ == f[0]
                &&& downloaded@ == f[1]
                &&& total@ == f[2]
                &&& speed@ == f[3]
                &&& eta == spec_parse_u64(spec_trim(f[4]))
                &&& title@ == f[5]
            }
        } else {
            o is Malformed
        }
    } else if spec_starts_with(line, d) {
        o matches OutputLine::Done { path } && path@ == line.subrange(d.len() as int, line.len() as int)
    } else {
        o matches OutputLine::Log { line: l, processing } && l@ == line && processing
            == announces_processing(line)
    }
}

/// Classifies one line of worker output.
pub fn classify_line(line: &str) -> (r: OutputLine)
    ensures
        line_meaning(line@, r),
{
    let v = chars_of(line);
    let p = chars_of(PROGRESS_PREFIX);
    let d = chars_of(DONE_PREFIX);
    if starts_with(line, PROGRESS_PREFIX) {
        let f = split_chars(&v, p.len(), '\t');
        if f.len() >= 6 {
            let status = string_of(f[0].as_slice());
            let downloaded = string_of(f[1].as_slice());
            let total = string_of(f[2].as_slice());
            let speed = string_of(f[3].as_slice());
            let eta_text = string_of(f[4].as_slice());
            let eta = parse_u64(trim(eta_text.as_str()).as_str());
            let title = string_of(f[5].as_slice());
            proof {
                assert(f.deep_view()[0] == f[0]@);
                assert(f.deep_view()[1] == f[1]@);
                assert(f.deep_view()[2] == f[2]@);
                assert(f.deep_view()[3] == f[3]@);
                assert(f.deep_view()[4] == f[4]@);
                assert(f.deep_view()[5] == f[5]@);
            }
            OutputLine::Progress { status, downloaded, total, speed, eta, title }
        } else {
            OutputLine::Malformed
        }
    } else if starts_with(line, DONE_PREFIX) {
        OutputLine::Done { path: string_between(&v, d.len(), v.len()) }
    } else {
        let processing = contains(line, "Post-process") || contains(line, "Merger") || contains(
            line,
            "ExtractAudio",
        );
        OutputLine::Log { line: crate::text::owned(line), processing }
    }
}

/// A line that is neither a progress report nor the final path is logged as
/// it is, and it marks the job as post-processing exactly when it mentions
/// `Post-process`, `Merger` (joining streams) or `ExtractAudio` (audio
/// extraction).
pub proof fn lemma_log_lines_mark_processing(line: Seq<char>, o: OutputLine)
    requires
        line_meaning(line, o),
        !spec_starts_with(line, PROGRESS_PREFIX@),
        !spec_starts_with(line, DONE_PREFIX@),
    ensures
        o matches OutputLine::Log { line: l, processing } && l@ == line && (processing <==> (
        spec_contains(line, "Post-process"@) || spec_contains(line, "Merger"@) || spec_contains(
            line,
            "ExtractAudio"@,
        ))),
{
}

/// Fields written one after another with a tab between each two.
pub open spec fn tab_joined(fs: Seq<Seq<char>>) -> Seq<char>
    decreases fs.len(),
{
    if fs.len() == 0 {
        Seq::<char>::empty()
    } else if fs.len() == 1 {
        fs[0]
    } else {
        tab_joined(fs.drop_last()) + seq!['\t'] + fs.last()
    }
}

proof fn lemma_split_append(a: Seq<char>, b: Seq<char>, c: char)
    requires
        forall|i: int| 0 <= i < b.len() ==> b[i] != c,
    ensures
        split_on(a + b, c) == split_on(a, c).update(
            split_on(a, c).len() - 1,
            split_on(a, c).last() + b,
        ),
    decreases b.len(),
{
    lemma_split_on_nonempty(a, c);
    if b.len() == 0 {
        assert(a + b =~= a);
        assert(split_on(a, c).last() + b =~= split_on(a, c).last());
        assert(split_on(a, c).update(split_on(a, c).len() - 1, split_on(a, c).last()) =~= split_on(a, c));
    } else {
        let b0 = b.drop_last();
        lemma_split_append(a, b0, c);
        assert((a + b).drop_last() =~= a + b0);
        assert((a + b).last() == b.last());
        let q = split_on(a, c);
        let p = split_on(a + b0, c);
        assert(b.last() != c);
        assert(split_on(a + b, c) == p.update(p.len() - 1, p.last().push(b.last())));
        assert(p.len() == q.len());
        assert(p.last() == q.last() + b0);
        assert(q.last() + b0 + seq![b.last()] =~= q.last() + b);
        assert(p.last().push(b.last()) =~= q.last() + b);
        assert(split_on(a + b, c) =~= q.update(q.len() - 1, q.last() + b));
    }
}

proof fn lemma_split_tab_joined(fs: Seq<Seq<char>>)
    requires
        fs.len() >= 1,
        forall|k: int, i: int| 0 <= k < fs.len() && 0 <= i < fs[k].len() ==> #[trigger] fs[k][i] != '\t',
    ensures
        split_on(tab_joined(fs), '\t') == fs,
    decreases fs.len(),
{
    let e = Seq::<char>::empty();
    if fs.len() == 1 {
        assert(forall|i: int| 0 <= i < fs[0].len() ==> fs[0][i] != '\t');
        lemma_split_append(e, fs[0], '\t');
        assert(e + fs[0] =~= fs[0]);
        assert(split_on(e, '\t') == seq![e]);
        assert(e + fs[0] =~= fs[0]);
        assert(split_on(fs[0], '\t') =~= fs);
    } else {
        let init = fs.drop_last();
        let last = fs.last();
        assert forall|k: int, i: int| 0 <= k < init.len() && 0 <= i < init[k].len() implies #[trigger] init[k][i]
            != '\t' by {
            assert(init[k] == fs[k]);
        }
        lemma_split_tab_joined(init);
        let j = tab_joined(init);
        let jt = j.push('\t');
        assert(j + seq!['\t'] =~= jt);
        assert(jt.drop_last() =~= j);
        assert(split_on(jt, '\t') == init.push(e));
        assert(forall|i: int| 0 <= i < last.len() ==> last[i] != '\t');
        lemma_split_append(jt, last, '\t');
        assert(e + last =~= last);
        assert(split_on(jt + last, '\t') =~= fs);
    }
}

/// A progress report written as the marker and six tab-free fields, one tab
/// between each two, reads back field by field: status, downloaded bytes,
/// total bytes, speed, ETA (as whole seconds when it is a number) and title.
pub proof fn lemma_progress_fields_read_back(fields: Seq<Seq<char>>, o: OutputLine)
    requires
        fields.len() == 6,
        forall|k: int, i: int| 0 <= k < 6 && 0 <= i < fields[k].len() ==> #[trigger] fields[k][i] != '\t',
        line_meaning(PROGRESS_PREFIX@ + tab_joined(fields), o),
    ensures
        o matches OutputLine::Progress { status, downloaded, total, speed, eta, title } && status@
            == fields[0] && downloaded@ == fields[1] && total@ == fields[2] && speed@ == fields[3]
            && title@ == fields[5] && eta == spec_parse_u64(spec_trim(fields[4])),
{
    let p = PROGRESS_PREFIX@;
    let line = p + tab_joined(fields);
    lemma_split_tab_joined(fields);
    assert(line.subrange(0, p.len() as int) =~= p);
    assert(line.subrange(p.len() as int, line.len() as int) =~= tab_joined(fields));
}

/// The line naming the final file reads back as exactly that path.
pub proof fn lemma_done_line_reads_path(path: Seq<char>, o: OutputLine)
    requires
        line_meaning(DONE_PREFIX@ + path, o),
    ensures
        o matches OutputLine::Done { path: q } && q@ == path,
{
    let d = DONE_PREFIX@;
    let line = d + path;
    reveal_strlit("__YOUTUIBE_DONE__\t");
    reveal_strlit("__YOUTUIBE_PROGRESS__\t");
    assert(line[11] == 'D');
    assert(PROGRESS_PREFIX@[11] == 'P');
    if spec_starts_with(line, PROGRESS_PREFIX@) {
        assert(line.subrange(0, PROGRESS_PREFIX@.len() as int)[11] == line[11]);
    }
    assert(line.subrange(0, d.len() as int) =~= d);
    assert(line.subrange(d.len() as int, line.len() as int) =~= path);
}

} // verus!
