//! The job list: what worker events do to jobs, which queued jobs start when
//! a slot is free, the queue and history views, retries, cancellation, and
//! recovery of jobs interrupted by a restart.
use crate::model::{
    is_fresh_job, is_new_job, DownloadOptions, DownloadStatus, Job, OptionsView, Progress,
    Settings,
};
use crate::player::Control;
use crate::links::{normalize_url, spec_normalize_url};
use crate::text::{owned, spec_starts_with, split_whitespace, starts_with, words_of};
use crate::ytdlp::{command_preview, preview_text, HostFacts};
use vstd::prelude::*;

verus! {

broadcast use vstd::seq_lib::group_seq_properties, vstd::seq_lib::group_to_multiset_ensures;

/// What a download worker reports about its job.
#[derive(Debug)]
pub enum JobEvent {
    /// The yt-dlp process was launched.
    Started,
    /// A progress report; the speed is in whole bytes per second.
    Progress { downloaded: u64, total: u64, speed: u64, eta: Option<u64>, title: String },
    /// A post-processing step began.
    Processing,
    /// The final path of the downloaded file.
    Output { path: String },
    /// The process group was stopped.
    Paused,
    /// The process group was continued.
    Resumed,
    /// The process ended; `error` says why when it did not succeed.
    Finished { success: bool, error: String },
}

/// The share done in tenths of a percent, rounded down (0 while the total is
/// unknown, capped at the largest 64-bit value).
pub open spec fn permille_of(downloaded: u64, total: u64) -> u64 {
    if total == 0 {
        0
    } else if (downloaded as int) * 1000 / (total as int) > u64::MAX {
        u64::MAX
    } else {
        ((downloaded as int) * 1000 / (total as int)) as u64
    }
}

/// The state a finished job ends in: completed on success, cancelled when the
/// error says it was cancelled, failed otherwise.
pub open spec fn finished_status(success: bool, error: Seq<char>) -> DownloadStatus {
    if success {
        DownloadStatus::Completed
    } else if spec_starts_with(error, "Cancelled"@) {
        DownloadStatus::Cancelled
    } else {
        DownloadStatus::Failed
    }
}

/// The job after `e` arrived at time `now`.
pub open spec fn after_event(j: Job, e: JobEvent, now: i64) -> Job {
    match e {
        JobEvent::Started => Job { status: DownloadStatus::Downloading, started_at: Some(now), ..j },
        JobEvent::Progress { downloaded, total, speed, eta, title } => Job {
            status: DownloadStatus::Downloading,
            progress: Progress {
                permille: permille_of(downloaded, total),
                downloaded,
                total,
                speed,
                eta,
            },
            title: if title@.len() > 0 {
                title
            } else {
                j.title
            },
            ..j
        },
        JobEvent::Processing => Job { status: DownloadStatus::Processing, ..j },
        JobEvent::Output { path } => Job { output_path: path, ..j },
        JobEvent::Paused => Job { status: DownloadStatus::Paused, ..j },
        JobEvent::Resumed => Job { status: DownloadStatus::Downloading, ..j },
        JobEvent::Finished { success, error } => Job {
            status: finished_status(success, error@),
            error,
            finished_at: Some(now),
            progress: if success {
                Progress { permille: 1000, ..j.progress }
            } else {
                j.progress
            },
            ..j
        },
    }
}

/// The position of the first job with identifier `id`.
pub open spec fn position_of(s: Seq<Job>, id: u128) -> Option<int>
    decreases s.len(),
{
    if s.len() == 0 {
        None
    } else if s[0].id == id {
        Some(0)
    } else {
        match position_of(s.drop_first(), id) {
            Some(i) => Some(i + 1),
            None => None,
        }
    }
}

proof fn lemma_position_of(s: Seq<Job>, id: u128)
    ensures
        position_of(s, id) matches Some(i) ==> 0 <= i < s.len() && s[i].id == id && forall|k: int|
            0 <= k < i ==> s[k].id != id,
        position_of(s, id) is None ==> forall|k: int| 0 <= k < s.len() ==> s[k].id != id,
    decreases s.len(),
{
    if s.len() > 0 && s[0].id != id {
        lemma_position_of(s.drop_first(), id);
        assert forall|k: int| 0 < k < s.len() implies s[k] == s.drop_first()[k - 1] by {}
    }
}

proof fn lemma_position_is(s: Seq<Job>, id: u128, i: int)
    requires
        0 <= i < s.len(),
        s[i].id == id,
        forall|k: int| 0 <= k < i ==> s[k].id != id,
    ensures
        position_of(s, id) == Some(i),
    decreases i,
{
    if i > 0 {
        let r = s.drop_first();
        assert forall|k: int| 0 <= k < i - 1 implies r[k].id != id by {
            assert(r[k] == s[k + 1]);
        }
        lemma_position_is(r, id, i - 1);
    }
}

/// The position of the first job with identifier `id`.
pub fn find_job(jobs: &Vec<Job>, id: u128) -> (r: Option<usize>)
    ensures
        match r {
            Some(i) => position_of(jobs@, id) == Some(i as int),
            None => position_of(jobs@, id) is None,
        },
{
    proof {
        lemma_position_of(jobs@, id);
    }
    let mut i: usize = 0;
    while i < jobs.len()
        invariant
            i <= jobs.len(),
            forall|k: int| 0 <= k < i ==> jobs@[k].id != id,
        decreases jobs.len() - i,
    {
        if jobs[i].id == id {
            proof {
                lemma_position_is(jobs@, id, i as int);
            }
            return Some(i);
        }
        i = i + 1;
    }
    None
}

fn permille(downloaded: u64, total: u64) -> (r: u64)
    ensures
        r == permille_of(downloaded, total),
{
    if total == 0 {
        0
    } else {
        let p = (downloaded as u128) * 1000 / (total as u128);
        if p > 0xffff_ffff_ffff_ffff {
            0xffff_ffff_ffff_ffff
        } else {
            p as u64
        }
    }
}

/// Applies a worker event to the first job with identifier `id`, at time
/// `now`; returns that job's position. Nothing changes when no job has the
/// identifier.
pub fn apply_event_at(jobs: &mut Vec<Job>, id: u128, event: JobEvent, now: i64) -> (r: Option<usize>)
    ensures
        match position_of(old(jobs)@, id) {
            None => r is None && final(jobs)@ == old(jobs)@,
            Some(k) => r == Some(k as usize) && final(jobs)@ == old(jobs)@.update(
                k,
                after_event(old(jobs)@[k], event, now),
            ),
        },
{
    let found = find_job(jobs, id);
    match found {
        None => None,
        Some(k) => {
            proof {
                lemma_position_of(jobs@, id);
            }
            let ghost before = jobs@;
            let mut j = jobs.remove(k);
            let ghost oldj = j;
            match event {
                JobEvent::Started => {
                    j.status = DownloadStatus::Downloading;
                    j.started_at = Some(now);
                },
                JobEvent::Progress { downloaded, total, speed, eta, title } => {
                    j.status = DownloadStatus::Downloading;
                    j.progress = Progress {
                        permille: permille(downloaded, total),
                        downloaded,
                        total,
                        speed,
                        eta,
                    };
                    if !title.as_str().is_empty() {
                        j.title = title;
                    }
                },
                JobEvent::Processing => {
                    j.status = DownloadStatus::Processing;
                },
                JobEvent::Output { path } => {
                    j.output_path = path;
                },
                JobEvent::Paused => {
                    j.status = DownloadStatus::Paused;
                },
                JobEvent::Resumed => {
                    j.status = DownloadStatus::Downloading;
                },
                JobEvent::Finished { success, error } => {
                    j.status = if success {
                        DownloadStatus::Completed
                    } else if starts_with(error.as_str(), "Cancelled") {
                        DownloadStatus::Cancelled
                    } else {
                        DownloadStatus::Failed
                    };
                    j.error = error;
                    j.finished_at = Some(now);
                    if success {
                        j.progress.permille = 1000;
                    }
                },
            }
            assert(j == after_event(oldj, event, now));
            jobs.insert(k, j);
            assert(jobs@ =~= before.update(k as int, after_event(before[k as int], event, now)));
            Some(k)
        },
    }
}

/// Applies a worker event to the job with identifier `id`, stamped with the
/// current time.
pub fn apply_event(jobs: &mut Vec<Job>, id: u128, event: JobEvent) -> (r: Option<usize>)
    ensures
        match position_of(old(jobs)@, id) {
            None => r is None && final(jobs)@ == old(jobs)@,
            Some(k) => r == Some(k as usize) && exists|now: i64|
                final(jobs)@ == old(jobs)@.update(k, after_event(old(jobs)@[k], event, now)),
        },
{
    let now = crate::model::now_micros();
    apply_event_at(jobs, id, event, now)
}

/// A job whose worker may still be running.
pub open spec fn is_active(s: DownloadStatus) -> bool {
    s is Downloading || s is Processing || s is Inspecting || s is Paused
}

/// `b` is `a` with only its status and error possibly different.
pub open spec fn same_but_status_error(a: Job, b: Job) -> bool {
    &&& a.id == b.id
    &&& a.url == b.url
    &&& a.title == b.title
    &&& a.preset == b.preset
    &&& a.options == b.options
    &&& a.progress == b.progress
    &&& a.created_at == b.created_at
    &&& a.started_at == b.started_at
    &&& a.finished_at == b.finished_at
    &&& a.output_path == b.output_path
    &&& a.command_preview == b.command_preview
}

/// `b` is what a restart makes of `a`: a job whose worker was running is
/// queued again (its partial files let yt-dlp resume), with a note saying so;
/// any other job is kept as it was.
pub open spec fn recovered(a: Job, b: Job) -> bool {
    if is_active(a.status) {
        &&& same_but_status_error(a, b)
        &&& b.status == DownloadStatus::Queued
        &&& b.error@ == "Recovered after an interrupted session"@
    } else {
        b == a
    }
}

/// Requeues the jobs whose worker cannot have survived a restart.
pub fn recover_interrupted(jobs: &mut Vec<Job>)
    ensures
        final(jobs)@.len() == old(jobs)@.len(),
        forall|i: int| 0 <= i < old(jobs)@.len() ==> recovered(old(jobs)@[i], #[trigger] final(jobs)@[i]),
{
    let ghost start = jobs@;
    let mut i: usize = 0;
    while i < jobs.len()
        invariant
            jobs@.len() == start.len(),
            i <= jobs.len(),
            forall|k: int| 0 <= k < i ==> recovered(start[k], #[trigger] jobs@[k]),
            forall|k: int| i <= k < jobs@.len() ==> jobs@[k] == start[k],
        decreases jobs.len() - i,
    {
        let s = jobs[i].status;
        if s == DownloadStatus::Downloading || s == DownloadStatus::Processing || s
            == DownloadStatus::Inspecting || s == DownloadStatus::Paused {
            let ghost before = jobs@;
            let mut j = jobs.remove(i);
            j.status = DownloadStatus::Queued;
            j.error = owned("Recovered after an interrupted session");
            jobs.insert(i, j);
            assert(jobs@ =~= before.update(i as int, j));
        }
        i = i + 1;
    }
}

/// After a restart no job is left running, and every job that was not running
/// is untouched.
pub proof fn lemma_recovery_leaves_nothing_running(before: Seq<Job>, after: Seq<Job>)
    requires
        after.len() == before.len(),
        forall|i: int| 0 <= i < before.len() ==> recovered(before[i], #[trigger] after[i]),
    ensures
        forall|i: int| 0 <= i < after.len() ==> !is_active(#[trigger] after[i].status),
        forall|i: int|
            0 <= i < before.len() && !is_active(#[trigger] before[i].status) ==> after[i]
                == before[i],
{
    assert forall|i: int| 0 <= i < after.len() implies !is_active(#[trigger] after[i].status) by {
        assert(recovered(before[i], after[i]));
    }
    assert forall|i: int| 0 <= i < before.len() && !is_active(#[trigger] before[i].status) implies after[i]
        == before[i] by {
        assert(recovered(before[i], after[i]));
    }
}


/// The jobs still in the queue (not finished), in order.
pub open spec fn unfinished(s: Seq<Job>) -> Seq<Job>
    decreases s.len(),
{
    if s.len() == 0 {
        seq![]
    } else if s.last().status.spec_is_terminal() {
        unfinished(s.drop_last())
    } else {
        unfinished(s.drop_last()).push(s.last())
    }
}

/// The finished jobs, most recent first.
pub open spec fn finished(s: Seq<Job>) -> Seq<Job>
    decreases s.len(),
{
    if s.len() == 0 {
        seq![]
    } else if s.last().status.spec_is_terminal() {
        seq![s.last()] + finished(s.drop_last())
    } else {
        finished(s.drop_last())
    }
}

/// The jobs shown in the queue: every unfinished job, in order.
pub fn queue_jobs(jobs: &Vec<Job>) -> (r: Vec<&Job>)
    ensures
        r@.len() == unfinished(jobs@).len(),
        forall|i: int| 0 <= i < r@.len() ==> *r@[i] == unfinished(jobs@)[i],
{
    let mut r: Vec<&Job> = Vec::new();
    let mut i: usize = 0;
    while i < jobs.len()
        invariant
            i <= jobs.len(),
            r@.len() == unfinished(jobs@.subrange(0, i as int)).len(),
            forall|k: int| 0 <= k < r@.len() ==> *r@[k] == unfinished(jobs@.subrange(0, i as int))[k],
        decreases jobs.len() - i,
    {
        let ghost prefix = jobs@.subrange(0, i as int);
        let ghost next = jobs@.subrange(0, i + 1);
        assert(next.drop_last() =~= prefix);
        assert(next.last() == jobs@[i as int]);
        if !jobs[i].status.is_terminal() {
            r.push(&jobs[i]);
        }
        i = i + 1;
    }
    assert(jobs@.subrange(0, jobs@.len() as int) =~= jobs@);
    r
}

/// The jobs shown in the history: every finished job, most recent first.
pub fn history_jobs(jobs: &Vec<Job>) -> (r: Vec<&Job>)
    ensures
        r@.len() == finished(jobs@).len(),
        forall|i: int| 0 <= i < r@.len() ==> *r@[i] == finished(jobs@)[i],
{
    let mut r: Vec<&Job> = Vec::new();
    let mut i: usize = jobs.len();
    while i > 0
        invariant
            i <= jobs.len(),
            r@.len() + finished(jobs@.subrange(0, i as int)).len() == finished(jobs@).len(),
            forall|k: int| 0 <= k < r@.len() ==> *r@[k] == finished(jobs@)[k],
            forall|k: int|
                0 <= k < finished(jobs@.subrange(0, i as int)).len() ==> finished(
                    jobs@.subrange(0, i as int),
                )[k] == finished(jobs@)[k + r@.len()],
        decreases i,
    {
        let ghost prefix = jobs@.subrange(0, i as int);
        let ghost shorter = jobs@.subrange(0, i - 1);
        assert(prefix.drop_last() =~= shorter);
        assert(prefix.last() == jobs@[i - 1]);
        if jobs[i - 1].status.is_terminal() {
            assert(finished(prefix)[0] == jobs@[i - 1]);
            assert forall|k: int| 0 <= k < finished(shorter).len() implies finished(shorter)[k]
                == finished(jobs@)[k + r@.len() + 1] by {
                assert(finished(prefix)[k + 1] == finished(shorter)[k]);
            }
            r.push(&jobs[i - 1]);
        }
        i = i - 1;
    }
    assert(jobs@.subrange(0, 0) =~= Seq::<Job>::empty());
    r
}

/// Every job is shown exactly once: in the queue while unfinished, in the
/// history once finished.
pub proof fn lemma_queue_and_history_partition(s: Seq<Job>)
    ensures
        unfinished(s).to_multiset().add(finished(s).to_multiset()) =~= s.to_multiset(),
        forall|i: int| 0 <= i < unfinished(s).len() ==> !(#[trigger] unfinished(s)[i]).status.spec_is_terminal(),
        forall|i: int| 0 <= i < finished(s).len() ==> (#[trigger] finished(s)[i]).status.spec_is_terminal(),
    decreases s.len(),
{
    broadcast use vstd::multiset::group_multiset_axioms;
    if s.len() > 0 {
        let r = s.drop_last();
        lemma_queue_and_history_partition(r);
        assert(s =~= r.push(s.last()));
        vstd::seq_lib::to_multiset_build(r, s.last());
        if s.last().status.spec_is_terminal() {
            vstd::seq_lib::lemma_multiset_commutative(seq![s.last()], finished(r));
            assert(seq![s.last()].to_multiset() =~= vstd::multiset::Multiset::empty().insert(s.last())) by {
                vstd::seq_lib::to_multiset_build(Seq::<Job>::empty(), s.last());
            }
            assert forall|i: int| 0 <= i < finished(s).len() implies (#[trigger] finished(s)[i]).status.spec_is_terminal() by {
                if i > 0 {
                    assert(finished(s)[i] == finished(r)[i - 1]);
                }
            }
        } else {
            vstd::seq_lib::to_multiset_build(unfinished(r), s.last());
            assert forall|i: int| 0 <= i < unfinished(s).len() implies !(#[trigger] unfinished(s)[i]).status.spec_is_terminal() by {
                if i < unfinished(r).len() {
                    assert(unfinished(s)[i] == unfinished(r)[i]);
                }
            }
        }
    }
}

/// The positions of the queued jobs, in order.
pub open spec fn queued_positions(s: Seq<Job>) -> Seq<int>
    decreases s.len(),
{
    if s.len() == 0 {
        seq![]
    } else if s.last().status == DownloadStatus::Queued {
        queued_positions(s.drop_last()).push(s.len() - 1)
    } else {
        queued_positions(s.drop_last())
    }
}

/// How many more downloads may run: the limit minus those running, never
/// below zero.
pub open spec fn free_slots(max_parallel: usize, active: usize) -> nat {
    if max_parallel > active {
        (max_parallel - active) as nat
    } else {
        0
    }
}

/// The first `n` elements of `s` (all of them when there are fewer).
pub open spec fn first_n(s: Seq<int>, n: nat) -> Seq<int> {
    if s.len() <= n {
        s
    } else {
        s.take(n as int)
    }
}

proof fn lemma_queued_positions_bounds(s: Seq<Job>)
    ensures
        forall|k: int| 0 <= k < queued_positions(s).len() ==> 0 <= #[trigger] queued_positions(s)[k] < s.len()
            && s[queued_positions(s)[k]].status == DownloadStatus::Queued,
        forall|a: int, b: int|
            0 <= a < b < queued_positions(s).len() ==> queued_positions(s)[a] < queued_positions(s)[b],
    decreases s.len(),
{
    if s.len() > 0 {
        let r = s.drop_last();
        lemma_queued_positions_bounds(r);
        assert forall|k: int| 0 <= k < queued_positions(r).len() implies s[queued_positions(r)[k]] == r[queued_positions(r)[k]] by {}
    }
}

/// Marks the first queued jobs as starting, as many as there are free slots
/// (`max_parallel` downloads at once, `active` of them running), and returns
/// their positions, in order; their workers are to be launched next.
pub fn start_available(jobs: &mut Vec<Job>, max_parallel: usize, active: usize) -> (r: Vec<usize>)
    ensures
        r@.len() == first_n(queued_positions(old(jobs)@), free_slots(max_parallel, active)).len(),
        forall|k: int| 0 <= k < r@.len() ==> r@[k] as int == first_n(queued_positions(old(jobs)@), free_slots(max_parallel, active))[k],
        final(jobs)@.len() == old(jobs)@.len(),
        forall|i: int| 0 <= i < old(jobs)@.len() ==> #[trigger] final(jobs)@[i] == (if r@.contains(i as usize) {
            Job { status: DownloadStatus::Inspecting, ..old(jobs)@[i] }
        } else {
            old(jobs)@[i]
        }),
{
    let ghost start = jobs@;
    let slots: usize = if max_parallel > active {
        max_parallel - active
    } else {
        0
    };
    let mut r: Vec<usize> = Vec::new();
    let mut i: usize = 0;
    while i < jobs.len()
        invariant
            jobs@.len() == start.len(),
            i <= jobs.len(),
            slots == free_slots(max_parallel, active),
            r@.len() == first_n(queued_positions(start.subrange(0, i as int)), slots as nat).len(),
            forall|k: int| 0 <= k < r@.len() ==> r@[k] as int == first_n(queued_positions(start.subrange(0, i as int)), slots as nat)[k],
            forall|k: int| 0 <= k < r@.len() ==> r@[k] < i,
            forall|k: int| 0 <= k < jobs@.len() ==> #[trigger] jobs@[k] == (if r@.contains(k as usize) {
                Job { status: DownloadStatus::Inspecting, ..start[k] }
            } else {
                start[k]
            }),
        decreases jobs.len() - i,
    {
        let ghost prefix = start.subrange(0, i as int);
        let ghost next = start.subrange(0, i + 1);
        assert(next.drop_last() =~= prefix);
        assert(next.last() == start[i as int]);
        assert(!r@.contains(i)) by {
            if r@.contains(i) {
                let k = choose|k: int| 0 <= k < r@.len() && r@[k] == i;
                assert(r@[k] < i);
            }
        }
        assert(jobs@[i as int] == start[i as int]);
        if jobs[i].status == DownloadStatus::Queued && r.len() < slots {
            let ghost before = jobs@;
            let ghost rb = r@;
            let mut j = jobs.remove(i);
            j.status = DownloadStatus::Inspecting;
            jobs.insert(i, j);
            assert(jobs@ =~= before.update(i as int, j));
            r.push(i);
            assert forall|k: int| 0 <= k < jobs@.len() implies #[trigger] jobs@[k] == (if r@.contains(k as usize) {
                Job { status: DownloadStatus::Inspecting, ..start[k] }
            } else {
                start[k]
            }) by {
                if k != i {
                    assert(r@.contains(k as usize) == rb.contains(k as usize)) by {
                        if r@.contains(k as usize) {
                            let m = choose|m: int| 0 <= m < r@.len() && r@[m] == k as usize;
                            if m < rb.len() {
                                assert(rb[m] == r@[m]);
                            }
                        }
                        if rb.contains(k as usize) {
                            let m = choose|m: int| 0 <= m < rb.len() && rb[m] == k as usize;
                            assert(r@[m] == rb[m]);
                        }
                    }
                } else {
                    assert(r@[r@.len() - 1] == i);
                }
            }
        } else {
            assert forall|k: int| 0 <= k < jobs@.len() implies #[trigger] jobs@[k] == (if r@.contains(k as usize) {
                Job { status: DownloadStatus::Inspecting, ..start[k] }
            } else {
                start[k]
            }) by {}
        }
        i = i + 1;
    }
    assert(start.subrange(0, start.len() as int) =~= start);
    r
}

/// The control that toggles a running download: resume when it is paused,
/// pause otherwise.
pub fn pause_or_resume(status: DownloadStatus) -> (r: Control)
    ensures
        r == (if status == DownloadStatus::Paused {
            Control::Resume
        } else {
            Control::Pause
        }),
{
    if status == DownloadStatus::Paused {
        Control::Resume
    } else {
        Control::Pause
    }
}

/// Cancels a job that has no running worker, at time `now`: the first job
/// with identifier `id` becomes cancelled and finished.
pub fn cancel_idle_at(jobs: &mut Vec<Job>, id: u128, now: i64) -> (r: Option<usize>)
    ensures
        match position_of(old(jobs)@, id) {
            None => r is None && final(jobs)@ == old(jobs)@,
            Some(k) => r == Some(k as usize) && final(jobs)@ == old(jobs)@.update(
                k,
                Job { status: DownloadStatus::Cancelled, finished_at: Some(now), ..old(jobs)@[k] },
            ),
        },
{
    let found = find_job(jobs, id);
    match found {
        None => None,
        Some(k) => {
            proof {
                lemma_position_of(jobs@, id);
            }
            let ghost before = jobs@;
            let mut j = jobs.remove(k);
            j.status = DownloadStatus::Cancelled;
            j.finished_at = Some(now);
            jobs.insert(k, j);
            assert(jobs@ =~= before.update(k as int, j));
            Some(k)
        },
    }
}

/// The options of a retry: the same, plus `--force-overwrites` when forced.
pub open spec fn retried_options(o: OptionsView, force: bool) -> OptionsView {
    if force {
        OptionsView { raw_args: o.raw_args + " --force-overwrites"@, ..o }
    } else {
        o
    }
}

/// A new queued job repeating `old` (same URL, preset and options, plus
/// `--force-overwrites` when `force`), with its command preview.
pub fn retry_job(old: &Job, force: bool, settings: &Settings, host: &HostFacts) -> (r: Job)
    ensures
        is_new_job(r, old.url@, old.preset@, retried_options(old.options@, force)),
        r.command_preview@ == preview_text(r.options@, r.url@, *settings, *host),
{
    let mut options = old.options.duplicate();
    if force {
        options.raw_args.append(" --force-overwrites");
    }
    let mut next = Job::new(owned(old.url.as_str()), owned(old.preset.as_str()), options);
    next.command_preview = command_preview(&next, settings, host);
    next
}

/// How a download worker's process ended.
#[derive(Clone, Debug)]
pub enum WorkerExit {
    /// The process exited; `status` is how its exit status displays.
    Exited { success: bool, status: String },
    /// Waiting for the process failed; `error` is how the failure displays.
    WaitFailed { error: String },
}

/// What the worker reports when its process ends: success, or the reason it
/// did not succeed. A cancelled job keeps its partial data for resuming.
pub open spec fn spec_outcome(exit: WorkerExit, cancelled: bool) -> (bool, Seq<char>) {
    match exit {
        WorkerExit::Exited { success, status } => if success {
            (true, Seq::<char>::empty())
        } else if cancelled {
            (false, "Cancelled by user; partial data was kept for resuming"@)
        } else {
            (false, "yt-dlp exited with "@ + status@)
        },
        WorkerExit::WaitFailed { error } => (false, "Could not wait for yt-dlp: "@ + error@),
    }
}

/// The `Finished` report for a worker whose process ended as `exit`, after
/// a cancel request when `cancelled`.
pub fn outcome(exit: &WorkerExit, cancelled: bool) -> (r: JobEvent)
    ensures
        r matches JobEvent::Finished { success, error } && (success, error@) == spec_outcome(*exit, cancelled),
{
    match exit {
        WorkerExit::Exited { success, status } => {
            if *success {
                JobEvent::Finished { success: true, error: String::new() }
            } else if cancelled {
                JobEvent::Finished {
                    success: false,
                    error: owned("Cancelled by user; partial data was kept for resuming"),
                }
            } else {
                let mut e = owned("yt-dlp exited with ");
                e.append(status.as_str());
                JobEvent::Finished { success: false, error: e }
            }
        },
        WorkerExit::WaitFailed { error } => {
            let mut e = owned("Could not wait for yt-dlp: ");
            e.append(error.as_str());
            JobEvent::Finished { success: false, error: e }
        },
    }
}

/// A worker that was cancelled and did not succeed leaves its job cancelled;
/// one that succeeded leaves it completed; any other end leaves it failed.
pub proof fn lemma_outcome_status(exit: WorkerExit, cancelled: bool)
    ensures
        ({
            let (success, error) = spec_outcome(exit, cancelled);
            &&& (exit matches WorkerExit::Exited { success: true, .. }) ==> finished_status(success, error) == DownloadStatus::Completed
            &&& (exit matches WorkerExit::Exited { success: false, .. }) && cancelled ==> finished_status(success, error) == DownloadStatus::Cancelled
            &&& (exit matches WorkerExit::Exited { success: false, .. }) && !cancelled ==> finished_status(success, error) == DownloadStatus::Failed
            &&& exit is WaitFailed ==> finished_status(success, error) == DownloadStatus::Failed
        }),
{
    reveal_strlit("Cancelled by user; partial data was kept for resuming");
    reveal_strlit("Cancelled");
    reveal_strlit("yt-dlp exited with ");
    reveal_strlit("Could not wait for yt-dlp: ");
    let (success, error) = spec_outcome(exit, cancelled);
    let c = "Cancelled"@;
    match exit {
        WorkerExit::Exited { success: ok, status } => {
            if !ok {
                if cancelled {
                    assert(error.subrange(0, 9) =~= c);
                } else {
                    assert(error.subrange(0, 9)[0] == 'y');
                    assert(!spec_starts_with(error, c));
                }
            }
        },
        WorkerExit::WaitFailed { error: e } => {
            assert(error.subrange(0, 9)[1] == 'o');
            assert(!spec_starts_with(error, c));
        },
    }
}


/// The download URLs among the typed words, in order; words that do not
/// normalise to an http(s) URL are skipped.
pub open spec fn valid_urls(ws: Seq<Seq<char>>) -> Seq<Seq<char>>
    decreases ws.len(),
{
    if ws.len() == 0 {
        seq![]
    } else {
        valid_urls(ws.drop_last()) + match spec_normalize_url(ws.last()) {
            Some(u) => seq![u],
            None => seq![],
        }
    }
}

/// `job` was queued for `url` with `preset` and `options` and carries the
/// preview of its command.
pub open spec fn is_queued_download(job: Job, url: Seq<char>, preset: Seq<char>, options: OptionsView, settings: Settings, host: HostFacts) -> bool {
    &&& is_new_job(job, url, preset, options)
    &&& job.command_preview@ == preview_text(options, url, settings, host)
}

/// Queues a download for every URL in the whitespace-separated `text`, with
/// `preset` and `options`; returns how many were queued.
pub fn enqueue_urls(
    jobs: &mut Vec<Job>,
    text: &str,
    preset: &str,
    options: &DownloadOptions,
    settings: &Settings,
    host: &HostFacts,
) -> (r: usize)
    ensures
        ({
            let urls = valid_urls(words_of(text@));
            &&& r == urls.len()
            &&& final(jobs)@.len() == old(jobs)@.len() + urls.len()
            &&& final(jobs)@.subrange(0, old(jobs)@.len() as int) == old(jobs)@
            &&& forall|i: int|
                0 <= i < urls.len() ==> is_queued_download(
                    #[trigger] final(jobs)@[old(jobs)@.len() + i],
                    urls[i],
                    preset@,
                    options@,
                    *settings,
                    *host,
                )
        }),
{
    let ws = split_whitespace(text);
    let ghost wv = ws.deep_view();
    let ghost start = jobs@;
    let mut added: usize = 0;
    let mut i: usize = 0;
    while i < ws.len()
        invariant
            wv == ws.deep_view(),
            wv == words_of(text@),
            i <= ws.len(),
            added <= i,
            added == valid_urls(wv.subrange(0, i as int)).len(),
            jobs@.len() == start.len() + added,
            jobs@.subrange(0, start.len() as int) == start,
            forall|k: int|
                0 <= k < added ==> is_queued_download(
                    #[trigger] jobs@[start.len() + k],
                    valid_urls(wv.subrange(0, i as int))[k],
                    preset@,
                    options@,
                    *settings,
                    *host,
                ),
        decreases ws.len() - i,
    {
        let ghost prefix = wv.subrange(0, i as int);
        let ghost next = wv.subrange(0, i + 1);
        assert(next.drop_last() =~= prefix);
        assert(next.last() == ws[i as int]@);
        match normalize_url(ws[i].as_str()) {
            Some(u) => {
                let mut job = Job::new(u, owned(preset), options.duplicate());
                job.command_preview = command_preview(&job, settings, host);
                let ghost before = jobs@;
                jobs.push(job);
                assert(valid_urls(next) =~= valid_urls(prefix).push(job.url@));
                assert(jobs@.subrange(0, start.len() as int) =~= before.subrange(0, start.len() as int));
                assert forall|k: int| 0 <= k < added + 1 implies is_queued_download(
                    #[trigger] jobs@[start.len() + k],
                    valid_urls(next)[k],
                    preset@,
                    options@,
                    *settings,
                    *host,
                ) by {
                    if k < added {
                        assert(jobs@[start.len() + k] == before[start.len() + k]);
                    }
                }
                added = added + 1;
            },
            None => {
                assert(valid_urls(next) =~= valid_urls(prefix));
            },
        }
        i = i + 1;
    }
    assert(wv.subrange(0, ws.len() as int) =~= wv);
    added
}

/// The URL of the first typed word, if it normalises to one.
pub fn first_url(text: &str) -> (r: Option<String>)
    ensures
        match r {
            Some(u) => words_of(text@).len() > 0 && spec_normalize_url(words_of(text@)[0]) == Some(u@),
            None => words_of(text@).len() == 0 || spec_normalize_url(words_of(text@)[0]) is None,
        },
{
    let ws = split_whitespace(text);
    if ws.len() == 0 {
        None
    } else {
        assert(ws.deep_view()[0] == ws[0]@);
        normalize_url(ws[0].as_str())
    }
}

/// A paused job shows as paused (so the pause key asks to resume it) and a
/// resumed one as downloading (so the key asks to pause it); neither event
/// changes anything else. So pausing a downloading job and resuming it gives
/// the job back exactly.
pub proof fn lemma_pause_then_resume(j: Job, paused_at: i64, resumed_at: i64)
    ensures
        after_event(j, JobEvent::Paused, paused_at) == (Job { status: DownloadStatus::Paused, ..j }),
        after_event(j, JobEvent::Resumed, resumed_at) == (Job {
            status: DownloadStatus::Downloading,
            ..j
        }),
        j.status == DownloadStatus::Downloading ==> after_event(
            after_event(j, JobEvent::Paused, paused_at),
            JobEvent::Resumed,
            resumed_at,
        ) == j,
{
}

/// No worker event changes which job it is or what it downloads: the
/// identifier, URL, preset, options, creation time and command preview stay.
/// A finished worker leaves the job finished for good, completed exactly
/// when it succeeded, with its finishing time; any other event leaves it
/// unfinished. Only a start records a start time.
pub proof fn lemma_event_effects(j: Job, e: JobEvent, now: i64)
    ensures
        ({
            let n = after_event(j, e, now);
            &&& n.id == j.id && n.url == j.url && n.preset == j.preset && n.options == j.options
            &&& n.created_at == j.created_at && n.command_preview == j.command_preview
            &&& (e matches JobEvent::Finished { success, .. } ==> n.status.spec_is_terminal() && (n.status
                == DownloadStatus::Completed <==> success) && n.finished_at == Some(now))
            &&& (e matches JobEvent::Started ==> n.started_at == Some(now))
            &&& (!(e is Started) ==> n.started_at == j.started_at)
            &&& (!(e is Finished) && !(e is Output) ==> !n.status.spec_is_terminal())
        }),
{
}

} // verus!
