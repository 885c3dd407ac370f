//! The work on a job: where it goes, how it is stopped, and what comes after it.

use crate::foreign::{keeps_path, url_of};
use crate::job::{is_over, Job, JobModel, JobUpdate};
use crate::links::{is_direct_media_url, tells_direct};
use crate::store::{JobStore, StoreModel};
use crate::text::{
    is_blank, is_space, opt, step_outcome, trim, trimmed, trimmed_is_between_blanks,
};
use crate::tool::{is_last_step, last_step};
use vstd::hash_map::StringHashMap;
use vstd::prelude::*;

verus! {

/// How a job is worked on.
pub struct Work {
    /// The folder that the finished file goes to.
    pub dir: String,
    /// The folder in it that the download tool works in.
    pub work_dir_name: String,
    /// Whether the link leads to the media file itself.
    pub direct: bool,
}

/// Whether `work` is how a job is worked on, where `downloads_dir` is the folder for jobs that
/// name none.
pub open spec fn is_work_for(job: JobModel, downloads_dir: Seq<char>, work: Work) -> bool {
    &&& work.dir@ == if trimmed(job.target_dir).len() == 0 {
        downloads_dir
    } else {
        job.target_dir
    }
    &&& work.work_dir_name@ == ".siphon-tmp-"@ + job.id
    &&& tells_direct(job.url, work.direct)
}

/// How a job is worked on.
pub fn plan_work(job: &Job, downloads_dir: &str) -> (r: Work)
    ensures
        is_work_for(job@, downloads_dir@, r),
        keeps_path(job@.url, url_of(job@.url)),
{
    let dir = if trim(job.target_dir.as_str()).as_str().is_empty() {
        downloads_dir.to_owned()
    } else {
        job.target_dir.clone()
    };
    let direct = is_direct_media_url(job.url.as_str());
    Work { dir, work_dir_name: String::from_str(".siphon-tmp-").concat(job.id.as_str()), direct }
}

/// What comes after the work on a job.
pub struct Aftermath {
    /// The last step of the job; none where the work itself took it.
    pub step: Option<JobUpdate>,
    /// The file that is opened.
    pub open: Option<String>,
    /// The file that is shown in its folder.
    pub reveal: Option<String>,
}

/// The finished file of a job, where the job wants something done with it.
pub open spec fn wished(job: Option<JobModel>, wish: spec_fn(JobModel) -> bool) -> Option<Seq<char>> {
    match job {
        Some(j) if wish(j) => j.output_path,
        _ => None,
    }
}

/// Whether `after` is what comes after work that ended with `result` on a job that stands as
/// `job` then; the job may be gone.
pub open spec fn is_aftermath(
    result: Result<(), Seq<char>>,
    canceled: bool,
    job: Option<JobModel>,
    after: Aftermath,
) -> bool {
    &&& is_last_step(result, canceled, after.step)
    &&& opt(after.open) == if result is Ok {
        wished(job, |j: JobModel| j.auto_open)
    } else {
        None
    }
    &&& opt(after.reveal) == if result is Ok {
        wished(job, |j: JobModel| j.auto_reveal)
    } else {
        None
    }
}

/// What comes after the work on a job.
pub fn after_work(result: Result<(), String>, canceled: bool, job: Option<&Job>) -> (r: Aftermath)
    ensures
        is_aftermath(
            step_outcome(result),
            canceled,
            match job {
                Some(j) => Some(j@),
                None => None,
            },
            r,
        ),
{
    let done = result.is_ok();
    let step = last_step(result, canceled);
    match job {
        Some(j) => Aftermath {
            step,
            open: if done && j.auto_open {
                j.output_path.clone()
            } else {
                None
            },
            reveal: if done && j.auto_reveal {
                j.output_path.clone()
            } else {
                None
            },
        },
        None => Aftermath { step, open: None, reveal: None },
    }
}

/// The store after the work on the job `id` ended.
pub open spec fn is_store_after(
    before: StoreModel,
    id: Seq<char>,
    step: Option<JobUpdate>,
    now: Seq<char>,
    after: StoreModel,
) -> bool {
    match step {
        Some(update) => after == before.after(id, update, now),
        None => after == before,
    }
}

/// The job `id` of a store.
pub open spec fn job_of(store: StoreModel, id: Seq<char>) -> Option<JobModel> {
    if store.jobs.contains_key(id) {
        Some(store.jobs[id])
    } else {
        None
    }
}

/// What is left to do after the work on a job ended.
pub struct Ending {
    /// The job as it stands then, where it took its last step now.
    pub changed: Option<Job>,
    pub open: Option<String>,
    pub reveal: Option<String>,
}

/// Takes the job `id`, whose work ended with `result` at the time `now`, through its last step.
pub fn end_job(
    store: &mut JobStore,
    id: &str,
    result: Result<(), String>,
    canceled: bool,
    now: String,
) -> (r: Ending)
    requires
        old(store)@.wf(),
    ensures
        final(store)@.wf(),
        exists|after: Aftermath| #[trigger]
            is_aftermath(step_outcome(result), canceled, job_of(old(store)@, id@), after) && {
                &&& is_store_after(old(store)@, id@, after.step, now@, final(store)@)
                &&& opt(r.open) == opt(after.open)
                &&& opt(r.reveal) == opt(after.reveal)
                &&& match r.changed {
                    Some(job) => after.step is Some && job_of(final(store)@, id@) == Some(job@),
                    None => after.step is None || job_of(old(store)@, id@) is None,
                }
            },
{
    let after = after_work(result, canceled, store.get(id));
    let ghost a = after;
    proof {
        assert(is_aftermath(step_outcome(result), canceled, job_of(store@, id@), a));
    }
    let changed = match after.step {
        Some(update) => store.mutate(id, update, now),
        None => None,
    };
    Ending { changed, open: after.open, reveal: after.reveal }
}

/// A job whose work failed is over, and its error is told; it counts as stopped where the user
/// stopped it, and else as failed.
pub proof fn failed_work_ends_job(
    before: StoreModel,
    id: Seq<char>,
    error: Seq<char>,
    canceled: bool,
    now: Seq<char>,
    aftermath: Aftermath,
    after: StoreModel,
)
    requires
        before.jobs.contains_key(id),
        is_aftermath(Err(error), canceled, job_of(before, id), aftermath),
        is_store_after(before, id, aftermath.step, now, after),
    ensures
        is_over(after.jobs[id].status),
        after.jobs[id].phase is None,
        after.jobs[id].error is Some,
        canceled ==> after.jobs[id].status == "canceled"@,
        !canceled && error != "__SIPHON_CANCELED__"@ ==> after.jobs[id].status == "error"@
            && after.jobs[id].error == Some(error),
        aftermath.open is None && aftermath.reveal is None,
{
}

/// The jobs that are being worked on, each with whether the user stopped it.
pub struct Running {
    pub flags: StringHashMap<bool>,
}

impl View for Running {
    type V = Map<Seq<char>, bool>;

    open spec fn view(&self) -> Map<Seq<char>, bool> {
        self.flags@
    }
}

impl Running {
    /// No job is being worked on.
    pub fn new() -> (r: Running)
        ensures
            r@ == Map::<Seq<char>, bool>::empty(),
    {
        Running { flags: StringHashMap::new() }
    }

    /// The work on the job `id` begins.
    pub fn begin(&mut self, id: &str)
        ensures
            final(self)@ == old(self)@.insert(id@, false),
    {
        self.flags.insert(id.to_owned(), false);
    }

    /// Whether the user stopped the job `id`.
    pub fn is_canceled(&self, id: &str) -> (r: bool)
        ensures
            r == (self@.contains_key(id@) && self@[id@]),
    {
        match self.flags.get(id) {
            Some(flag) => *flag,
            None => false,
        }
    }

    /// The work on the job `id` is over; returns whether the user stopped it.
    pub fn finish(&mut self, id: &str) -> (r: bool)
        ensures
            final(self)@ == old(self)@.remove(id@),
            r == (old(self)@.contains_key(id@) && old(self)@[id@]),
    {
        let canceled = self.is_canceled(id);
        self.flags.remove(id);
        canceled
    }
}

/// Stops the job `id`, where it is being worked on; returns whether it is.
pub fn cancel_download(running: &mut Running, id: &str) -> (r: bool)
    ensures
        r == old(running)@.contains_key(id@),
        final(running)@ == if old(running)@.contains_key(id@) {
            old(running)@.insert(id@, true)
        } else {
            old(running)@
        },
{
    if running.flags.contains_key(id) {
        running.flags.insert(id.to_owned(), true);
        true
    } else {
        false
    }
}

/// Stopping a job stops no other.
pub proof fn stop_concerns_one_job(
    before: Map<Seq<char>, bool>,
    after: Map<Seq<char>, bool>,
    id: Seq<char>,
    other: Seq<char>,
)
    requires
        after == (if before.contains_key(id) {
            before.insert(id, true)
        } else {
            before
        }),
        other != id,
    ensures
        after.contains_key(other) == before.contains_key(other),
        before.contains_key(other) ==> after[other] == before[other],
        before.contains_key(id) ==> after.contains_key(id) && after[id],
{
}

/// A job is worked on in the folder that it names, or in the one for all downloads where it names
/// none; the tool works in a folder of the job's own, so that no two jobs share one.
pub proof fn work_goes_to_the_jobs_folder(
    job: Job,
    other: Job,
    downloads_dir: &str,
    work: Work,
    other_work: Work,
)
    requires
        call_ensures(plan_work, (&job, downloads_dir), work),
        call_ensures(plan_work, (&other, downloads_dir), other_work),
    ensures
        is_blank(job.target_dir@) ==> work.dir@ == downloads_dir@,
        !is_blank(job.target_dir@) ==> work.dir@ == job.target_dir@,
        tells_direct(job.url@, work.direct),
        work.work_dir_name@ == ".siphon-tmp-"@ + job.id@,
        work.work_dir_name@ == other_work.work_dir_name@ <==> job.id@ == other.id@,
{
    let t = job.target_dir@;
    trimmed_is_between_blanks(t);
    let (a, b) = choose|a: Seq<char>, b: Seq<char>|
        #[trigger] is_blank(a) && #[trigger] is_blank(b) && t == a + trimmed(t) + b;
    if trimmed(t).len() == 0 {
        assert forall|i: int| 0 <= i < t.len() implies is_space(#[trigger] t[i]) by {
            if i < a.len() {
                assert(t[i] == a[i]);
            } else {
                assert(t[i] == b[i - a.len()]);
            }
        }
    } else {
        assert(t[a.len() as int] == trimmed(t)[0]);
    }
    let front = ".siphon-tmp-"@;
    let n = front.len() as int;
    assert((front + job.id@).skip(n) =~= job.id@);
    assert((front + other.id@).skip(n) =~= other.id@);
}

/// A finished file is opened or shown exactly where the work succeeded and the job wants that, and
/// it is the file of that very job; the job takes a last step exactly where the work failed.
pub proof fn finished_file_is_opened_on_wish(
    result: Result<(), String>,
    canceled: bool,
    job: Option<&Job>,
    r: Aftermath,
)
    requires
        call_ensures(after_work, (result, canceled, job), r),
    ensures
        r.step is None <==> result is Ok,
        opt(r.open) == (match job {
            Some(j) => if result is Ok && j.auto_open {
                opt(j.output_path)
            } else {
                None
            },
            None => None,
        }),
        opt(r.reveal) == (match job {
            Some(j) => if result is Ok && j.auto_reveal {
                opt(j.output_path)
            } else {
                None
            },
            None => None,
        }),
{
}

/// Work that failed ends its job: as canceled where the user stopped it, and else with the error
/// that it failed with. Work that succeeded leaves the store as it is, and the file of the job is
/// opened or shown where the job wants that. No other job is touched.
pub proof fn ended_work_ends_its_job(
    store: &mut JobStore,
    id: &str,
    result: Result<(), String>,
    canceled: bool,
    now: String,
    r: Ending,
    other: Seq<char>,
)
    requires
        old(store)@.wf(),
        call_ensures(end_job, (store, id, result, canceled, now), r),
    ensures
        result is Ok ==> final(store)@ == old(store)@ && r.changed is None,
        result matches Err(e) ==> old(store)@.jobs.contains_key(id@) ==> {
            let job = final(store)@.jobs[id@];
            let stopped = canceled || e@ == "__SIPHON_CANCELED__"@;
            &&& final(store)@.jobs.contains_key(id@)
            &&& r.changed matches Some(changed) && changed@ == job
            &&& stopped ==> job.status == "canceled"@ && job.error == Some("Canceled."@)
            &&& !stopped ==> job.status == "error"@ && job.error == Some(e@)
            &&& job.phase is None
            &&& job.updated_at == now@
            &&& r.open is None && r.reveal is None
        },
        !old(store)@.jobs.contains_key(id@) ==> final(store)@ == old(store)@ && r.changed is None
            && r.open is None && r.reveal is None,
        result is Ok && old(store)@.jobs.contains_key(id@) ==> {
            let job = old(store)@.jobs[id@];
            &&& job.auto_open ==> opt(r.open) == job.output_path
            &&& !job.auto_open ==> r.open is None
            &&& job.auto_reveal ==> opt(r.reveal) == job.output_path
            &&& !job.auto_reveal ==> r.reveal is None
        },
        final(store)@.order == old(store)@.order,
        other != id@ ==> (final(store)@.jobs.contains_key(other) <==> old(
            store,
        )@.jobs.contains_key(other)) && (old(store)@.jobs.contains_key(other)
            ==> final(store)@.jobs[other] == old(store)@.jobs[other]),
{
    let after = choose|after: Aftermath| #[trigger]
        is_aftermath(step_outcome(result), canceled, job_of(old(store)@, id@), after) && {
            &&& is_store_after(old(store)@, id@, after.step, now@, final(store)@)
            &&& opt(r.open) == opt(after.open)
            &&& opt(r.reveal) == opt(after.reveal)
            &&& match r.changed {
                Some(job) => after.step is Some && job_of(final(store)@, id@) == Some(job@),
                None => after.step is None || job_of(old(store)@, id@) is None,
            }
        };
}

/// A job counts as stopped from when the user stops it until its work is over, and only where it
/// is being worked on; no job is stopped by stopping, beginning or ending another.
pub proof fn stopped_jobs_are_known(
    running: &mut Running,
    id: &str,
    known: bool,
    was_stopped: bool,
    other: Seq<char>,
)
    ensures
        call_ensures(Running::begin, (running, id), ()) ==> {
            &&& final(running)@.contains_key(id@) && !final(running)@[id@]
            &&& other != id@ ==> final(running)@.contains_key(other) == old(running)@.contains_key(
                other,
            ) && final(running)@[other] == old(running)@[other]
        },
        call_ensures(cancel_download, (running, id), known) ==> {
            &&& known <==> old(running)@.contains_key(id@)
            &&& known ==> final(running)@.contains_key(id@) && final(running)@[id@]
            &&& !known ==> final(running)@ == old(running)@
            &&& other != id@ ==> final(running)@.contains_key(other) == old(running)@.contains_key(
                other,
            ) && final(running)@[other] == old(running)@[other]
        },
        call_ensures(Running::finish, (running, id), was_stopped) ==> {
            &&& was_stopped <==> old(running)@.contains_key(id@) && old(running)@[id@]
            &&& !final(running)@.contains_key(id@)
            &&& other != id@ ==> final(running)@.contains_key(other) == old(running)@.contains_key(
                other,
            ) && (old(running)@.contains_key(other) ==> final(running)@[other] == old(
                running,
            )@[other])
        },
        call_ensures(Running::is_canceled, (&*old(running), id), was_stopped) ==> (was_stopped
            <==> old(running)@.contains_key(id@) && old(running)@[id@]),
{
}

/// No job is being worked on in the beginning.
pub proof fn nothing_runs_at_first(running: Running, id: &str, stopped: bool)
    requires
        call_ensures(Running::new, (), running),
        call_ensures(Running::is_canceled, (&running, id), stopped),
    ensures
        !running@.contains_key(id@),
        !stopped,
{
}

} // verus!
