//! A download job and the steps it goes through.

use crate::text::{opt, same};
use vstd::prelude::*;

verus! {

/// A download that was asked for.
pub struct Job {
    pub id: String,
    pub url: String,
    pub preset: String,
    /// `queued`, `running`, `complete`, `error` or `canceled`.
    pub status: String,
    pub title: String,
    pub thumbnail: Option<String>,
    /// The stage of a running job: `downloading`, `converting` or `merging`. None when the job is
    /// not running.
    pub phase: Option<String>,
    pub percent: Option<String>,
    pub total_size: Option<String>,
    pub speed: Option<String>,
    pub eta: Option<String>,
    pub error: Option<String>,
    pub output_name: Option<String>,
    pub output_path: Option<String>,
    pub target_dir: String,
    /// Sent along with the request, for servers that check where it comes from.
    pub referer: Option<String>,
    pub auto_open: bool,
    pub auto_reveal: bool,
    pub created_at: String,
    pub updated_at: String,
}

/// The model of `Job`.
#[verifier::ext_equal]
pub struct JobModel {
    pub id: Seq<char>,
    pub url: Seq<char>,
    pub preset: Seq<char>,
    pub status: Seq<char>,
    pub title: Seq<char>,
    pub thumbnail: Option<Seq<char>>,
    pub phase: Option<Seq<char>>,
    pub percent: Option<Seq<char>>,
    pub total_size: Option<Seq<char>>,
    pub speed: Option<Seq<char>>,
    pub eta: Option<Seq<char>>,
    pub error: Option<Seq<char>>,
    pub output_name: Option<Seq<char>>,
    pub output_path: Option<Seq<char>>,
    pub target_dir: Seq<char>,
    pub referer: Option<Seq<char>>,
    pub auto_open: bool,
    pub auto_reveal: bool,
    pub created_at: Seq<char>,
    pub updated_at: Seq<char>,
}

impl View for Job {
    type V = JobModel;

    open spec fn view(&self) -> JobModel {
        JobModel {
            id: self.id@,
            url: self.url@,
            preset: self.preset@,
            status: self.status@,
            title: self.title@,
            thumbnail: opt(self.thumbnail),
            phase: opt(self.phase),
            percent: opt(self.percent),
            total_size: opt(self.total_size),
            speed: opt(self.speed),
            eta: opt(self.eta),
            error: opt(self.error),
            output_name: opt(self.output_name),
            output_path: opt(self.output_path),
            target_dir: self.target_dir@,
            referer: opt(self.referer),
            auto_open: self.auto_open,
            auto_reveal: self.auto_reveal,
            created_at: self.created_at@,
            updated_at: self.updated_at@,
        }
    }
}

impl Clone for Job {
    fn clone(&self) -> (r: Self)
        ensures
            r@ == self@,
    {
        Job {
            id: self.id.clone(),
            url: self.url.clone(),
            preset: self.preset.clone(),
            status: self.status.clone(),
            title: self.title.clone(),
            thumbnail: self.thumbnail.clone(),
            phase: self.phase.clone(),
            percent: self.percent.clone(),
            total_size: self.total_size.clone(),
            speed: self.speed.clone(),
            eta: self.eta.clone(),
            error: self.error.clone(),
            output_name: self.output_name.clone(),
            output_path: self.output_path.clone(),
            target_dir: self.target_dir.clone(),
            referer: self.referer.clone(),
            auto_open: self.auto_open,
            auto_reveal: self.auto_reveal,
            created_at: self.created_at.clone(),
            updated_at: self.updated_at.clone(),
        }
    }
}

/// One step of a job.
pub enum JobUpdate {
    /// The work begins.
    Started,
    /// Bytes arrived from a direct source.
    Received {
        percent: Option<String>,
        total_size: Option<String>,
        rate: String,
        eta: Option<String>,
    },
    /// A direct source arrived in full and is turned into the wanted format.
    ConvertingSource,
    /// The file of a direct source is in place.
    SourceDone { name: String, path: String },
    /// The download tool reported progress.
    Progress {
        percent: Option<String>,
        speed: Option<String>,
        total_size: Option<String>,
        eta: Option<String>,
    },
    /// The download tool turns what it loaded into the wanted format.
    Converting,
    /// The download tool puts sound and picture together.
    Merging,
    /// The file that the download tool made is in place.
    Done { name: String, path: String },
    /// The user stopped the job.
    Canceled,
    /// The job failed.
    Failed { message: String },
}

/// Whether a job in the given phase is past its download.
pub open spec fn is_post_processing(phase: Option<Seq<char>>) -> bool {
    phase == Some("converting"@) || phase == Some("merging"@)
}

/// What a step makes of a job.
pub open spec fn stepped(job: JobModel, update: JobUpdate) -> JobModel {
    match update {
        JobUpdate::Started => JobModel {
            status: "running"@,
            phase: Some("downloading"@),
            ..job
        },
        JobUpdate::Received { percent, total_size, rate, eta } => JobModel {
            phase: Some("downloading"@),
            percent: opt(percent),
            total_size: opt(total_size),
            speed: Some(rate@),
            eta: opt(eta),
            ..job
        },
        JobUpdate::ConvertingSource => JobModel {
            phase: Some("converting"@),
            percent: None,
            speed: Some("Converting"@),
            eta: None,
            ..job
        },
        JobUpdate::SourceDone { name, path } => JobModel {
            output_name: Some(name@),
            output_path: Some(path@),
            status: "complete"@,
            phase: None,
            percent: Some("100.0%"@),
            speed: Some("Done"@),
            eta: Some("0s"@),
            ..job
        },
        JobUpdate::Progress { percent, speed, total_size, eta } => JobModel {
            phase: if is_post_processing(job.phase) {
                job.phase
            } else {
                Some("downloading"@)
            },
            percent: opt(percent),
            speed: opt(speed),
            total_size: opt(total_size),
            eta: opt(eta),
            ..job
        },
        JobUpdate::Converting => JobModel {
            phase: Some("converting"@),
            percent: None,
            eta: None,
            speed: None,
            ..job
        },
        JobUpdate::Merging => JobModel {
            phase: Some("merging"@),
            percent: None,
            eta: None,
            speed: None,
            ..job
        },
        JobUpdate::Done { name, path } => JobModel {
            output_name: Some(name@),
            output_path: Some(path@),
            status: "complete"@,
            phase: None,
            percent: Some("100.0%"@),
            eta: Some("0s"@),
            ..job
        },
        JobUpdate::Canceled => JobModel {
            status: "canceled"@,
            phase: None,
            error: Some("Canceled."@),
            ..job
        },
        JobUpdate::Failed { message } => JobModel {
            status: "error"@,
            phase: None,
            error: Some(message@),
            ..job
        },
    }
}

/// Whether an optional text is the given one.
fn is_text(value: &Option<String>, text: &str) -> (r: bool)
    ensures
        r == (opt(*value) == Some(text@)),
{
    match value {
        Some(v) => same(v.as_str(), text),
        None => false,
    }
}

fn text(s: &str) -> (r: String)
    ensures
        r@ == s@,
{
    String::from_str(s)
}

impl Job {
    /// Takes the job through one step.
    pub fn apply(&mut self, update: JobUpdate)
        ensures
            final(self)@ == stepped(old(self)@, update),
    {
        match update {
            JobUpdate::Started => {
                self.status = text("running");
                self.phase = Some(text("downloading"));
            },
            JobUpdate::Received { percent, total_size, rate, eta } => {
                self.phase = Some(text("downloading"));
                self.percent = percent;
                self.total_size = total_size;
                self.speed = Some(rate);
                self.eta = eta;
            },
            JobUpdate::ConvertingSource => {
                self.phase = Some(text("converting"));
                self.percent = None;
                self.speed = Some(text("Converting"));
                self.eta = None;
            },
            JobUpdate::SourceDone { name, path } => {
                self.output_name = Some(name);
                self.output_path = Some(path);
                self.status = text("complete");
                self.phase = None;
                self.percent = Some(text("100.0%"));
                self.speed = Some(text("Done"));
                self.eta = Some(text("0s"));
            },
            JobUpdate::Progress { percent, speed, total_size, eta } => {
                if !is_text(&self.phase, "converting") && !is_text(&self.phase, "merging") {
                    self.phase = Some(text("downloading"));
                }
                self.percent = percent;
                self.speed = speed;
                self.total_size = total_size;
                self.eta = eta;
            },
            JobUpdate::Converting => {
                self.phase = Some(text("converting"));
                self.percent = None;
                self.eta = None;
                self.speed = None;
            },
            JobUpdate::Merging => {
                self.phase = Some(text("merging"));
                self.percent = None;
                self.eta = None;
                self.speed = None;
            },
            JobUpdate::Done { name, path } => {
                self.output_name = Some(name);
                self.output_path = Some(path);
                self.status = text("complete");
                self.phase = None;
                self.percent = Some(text("100.0%"));
                self.eta = Some(text("0s"));
            },
            JobUpdate::Canceled => {
                self.status = text("canceled");
                self.phase = None;
                self.error = Some(text("Canceled."));
            },
            JobUpdate::Failed { message } => {
                self.status = text("error");
                self.phase = None;
                self.error = Some(message);
            },
        }
    }
}

/// Whether a job with the given status is over.
pub open spec fn is_over(status: Seq<char>) -> bool {
    status == "complete"@ || status == "error"@ || status == "canceled"@
}

/// Whether a job with the given status is over.
pub fn is_finished(status: &str) -> (r: bool)
    ensures
        r == is_over(status@),
{
    same(status, "complete") || same(status, "error") || same(status, "canceled")
}

/// The statuses that a job can have.
pub open spec fn is_status(status: Seq<char>) -> bool {
    status == "queued"@ || status == "running"@ || is_over(status)
}

/// The phases that a job can be in.
pub open spec fn is_phase(phase: Option<Seq<char>>) -> bool {
    phase is None || phase == Some("downloading"@) || is_post_processing(phase)
}

/// A step keeps the status and the phase of a job among the known ones.
pub proof fn step_keeps_states(job: JobModel, update: JobUpdate)
    requires
        is_status(job.status),
        is_phase(job.phase),
    ensures
        is_status(stepped(job, update).status),
        is_phase(stepped(job, update).phase),
{
}

/// Whatever a running job is told, and whenever a job is started or ended, it has a phase after
/// that only if it runs.
pub proof fn phase_means_running(job: JobModel, update: JobUpdate)
    requires
        ({
            ||| job.status == "running"@
            ||| update is Started
            ||| update is SourceDone
            ||| update is Done
            ||| update is Canceled
            ||| update is Failed
        }),
    ensures
        stepped(job, update).phase is Some ==> stepped(job, update).status == "running"@,
        is_over(stepped(job, update).status) ==> stepped(job, update).phase is None,
{
    reveal_strlit("running");
    reveal_strlit("complete");
    reveal_strlit("error");
    reveal_strlit("canceled");
    assert("running"@[0] != "complete"@[0]);
    assert("running"@[0] != "error"@[0]);
    assert("running"@[0] != "canceled"@[0]);
}

/// The steps that put the file in place complete a job, and tell where the file is.
pub proof fn placed_file_completes_job(job: JobModel, update: JobUpdate)
    requires
        update is SourceDone || update is Done,
    ensures
        stepped(job, update).status == "complete"@,
        stepped(job, update).phase is None,
        stepped(job, update).percent == Some("100.0%"@),
        stepped(job, update).output_path is Some,
{
}

/// No step changes what a job was asked to do: its identity, source, format, title, folder and
/// wishes stay as they are.
pub proof fn step_keeps_request(job: JobModel, update: JobUpdate)
    ensures
        stepped(job, update).id == job.id,
        stepped(job, update).url == job.url,
        stepped(job, update).preset == job.preset,
        stepped(job, update).title == job.title,
        stepped(job, update).thumbnail == job.thumbnail,
        stepped(job, update).target_dir == job.target_dir,
        stepped(job, update).referer == job.referer,
        stepped(job, update).auto_open == job.auto_open,
        stepped(job, update).auto_reveal == job.auto_reveal,
        stepped(job, update).created_at == job.created_at,
{
}

/// A late progress report does not take a job back from post-processing to its download.
pub proof fn late_progress_keeps_phase(job: JobModel, update: JobUpdate)
    requires
        is_post_processing(job.phase),
        update is Progress,
    ensures
        stepped(job, update).phase == job.phase,
{
}

/// After a step that tells that a file of a given name is in place at a given path, by the tool or
/// from a direct source, the job is complete and has that name and that path; no other step
/// changes where the file is.
pub proof fn finished_file_is_noted(job: &mut Job, update: JobUpdate)
    requires
        call_ensures(Job::apply, (job, update), ()),
    ensures
        update matches JobUpdate::Done { name, path } ==> {
            &&& opt(final(job).output_name) == Some(name@)
            &&& opt(final(job).output_path) == Some(path@)
        },
        update matches JobUpdate::SourceDone { name, path } ==> {
            &&& opt(final(job).output_name) == Some(name@)
            &&& opt(final(job).output_path) == Some(path@)
        },
        final(job).status@ == "complete"@ <==> update is Done || update is SourceDone || old(
            job,
        ).status@ == "complete"@ && !(update is Started || update is Canceled || update is Failed),
        update is Done || update is SourceDone ==> {
            &&& opt(final(job).percent) == Some("100.0%"@)
            &&& opt(final(job).eta) == Some("0s"@)
            &&& opt(final(job).total_size) == opt(old(job).total_size)
            &&& opt(final(job).error) == opt(old(job).error)
        },
        !(update is Done || update is SourceDone) ==> opt(final(job).output_name) == opt(
            old(job).output_name,
        ) && opt(final(job).output_path) == opt(old(job).output_path),
{
    lemma_statuses_differ();
}

proof fn lemma_statuses_differ()
    ensures
        "complete"@ != "running"@,
        "complete"@ != "canceled"@,
        "complete"@ != "error"@,
        "complete"@ != "queued"@,
        "running"@ != "canceled"@,
        "running"@ != "error"@,
        "running"@ != "queued"@,
        "error"@ != "canceled"@,
        "error"@ != "queued"@,
        "canceled"@ != "queued"@,
{
    reveal_strlit("running");
    reveal_strlit("complete");
    reveal_strlit("error");
    reveal_strlit("canceled");
    reveal_strlit("queued");
    assert("running"@[0] == 'r' && "complete"@[0] == 'c' && "error"@[0] == 'e' && "queued"@[0]
        == 'q');
    assert("canceled"@[0] == 'c' && "canceled"@[1] == 'a' && "complete"@[1] == 'o');
}

/// What is reported of the progress of a job is what the job then shows, each number in its place:
/// how much has arrived, of how much, how fast, and how long the rest takes.
pub proof fn reported_progress_is_shown(job: &mut Job, update: JobUpdate)
    requires
        call_ensures(Job::apply, (job, update), ()),
    ensures
        update matches JobUpdate::Progress { percent, speed, total_size, eta } ==> {
            &&& opt(final(job).percent) == opt(percent)
            &&& opt(final(job).speed) == opt(speed)
            &&& opt(final(job).total_size) == opt(total_size)
            &&& opt(final(job).eta) == opt(eta)
        },
        update matches JobUpdate::Received { percent, total_size, rate, eta } ==> {
            &&& opt(final(job).percent) == opt(percent)
            &&& opt(final(job).speed) == Some(rate@)
            &&& opt(final(job).total_size) == opt(total_size)
            &&& opt(final(job).eta) == opt(eta)
        },
        update is Converting || update is Merging || update is ConvertingSource ==> {
            &&& final(job).percent is None
            &&& final(job).eta is None
            &&& opt(final(job).total_size) == opt(old(job).total_size)
        },
        update is Progress || update is Received || update is Converting || update is Merging
            || update is ConvertingSource ==> final(job).status@ == old(job).status@ && opt(
            final(job).error,
        ) == opt(old(job).error),
{
}

/// The phase of a job is that of the work that was reported last, but for a report of progress,
/// which leaves post-processing as it is; a job that has ended has none.
pub proof fn phase_follows_reports(job: &mut Job, update: JobUpdate)
    requires
        call_ensures(Job::apply, (job, update), ()),
    ensures
        update is Started || update is Received ==> opt(final(job).phase) == Some("downloading"@),
        update is Progress ==> opt(final(job).phase) == (if opt(old(job).phase) == Some(
            "converting"@,
        ) || opt(old(job).phase) == Some("merging"@) {
            opt(old(job).phase)
        } else {
            Some("downloading"@)
        }),
        update is Converting || update is ConvertingSource ==> opt(final(job).phase) == Some(
            "converting"@,
        ),
        update is Merging ==> opt(final(job).phase) == Some("merging"@),
        update is Done || update is SourceDone || update is Canceled || update is Failed
            ==> final(job).phase is None,
{
}

/// A job runs once it is started; one that is stopped says so, and one that fails says why, in the
/// very words that it failed with. Neither changes anything else that is shown of the job.
pub proof fn ended_job_says_why(job: &mut Job, update: JobUpdate)
    requires
        call_ensures(Job::apply, (job, update), ()),
    ensures
        update is Started ==> final(job).status@ == "running"@ && opt(final(job).error) == opt(
            old(job).error,
        ),
        update is Canceled ==> final(job).status@ == "canceled"@ && opt(final(job).error) == Some(
            "Canceled."@,
        ),
        update matches JobUpdate::Failed { message } ==> final(job).status@ == "error"@ && opt(
            final(job).error,
        ) == Some(message@),
        update is Started || update is Canceled || update is Failed ==> {
            &&& opt(final(job).percent) == opt(old(job).percent)
            &&& opt(final(job).speed) == opt(old(job).speed)
            &&& opt(final(job).total_size) == opt(old(job).total_size)
            &&& opt(final(job).eta) == opt(old(job).eta)
        },
{
}

/// A step leaves alone all that the job was asked to do, and when it was created and last changed.
pub proof fn apply_keeps_request(job: &mut Job, update: JobUpdate)
    requires
        call_ensures(Job::apply, (job, update), ()),
    ensures
        final(job).id@ == old(job).id@,
        final(job).url@ == old(job).url@,
        final(job).preset@ == old(job).preset@,
        final(job).title@ == old(job).title@,
        opt(final(job).thumbnail) == opt(old(job).thumbnail),
        final(job).target_dir@ == old(job).target_dir@,
        opt(final(job).referer) == opt(old(job).referer),
        final(job).auto_open == old(job).auto_open,
        final(job).auto_reveal == old(job).auto_reveal,
        final(job).created_at@ == old(job).created_at@,
        final(job).updated_at@ == old(job).updated_at@,
{
    step_keeps_request(old(job)@, update);
}

/// The finished jobs are those that completed, failed or were stopped.
pub proof fn waiting_and_running_jobs_are_not_finished(status: &str, finished: bool)
    requires
        call_ensures(is_finished, (status,), finished),
    ensures
        status@ == "complete"@ || status@ == "error"@ || status@ == "canceled"@ ==> finished,
        is_status(status@) ==> finished == !(status@ == "queued"@ || status@ == "running"@),
        finished ==> is_status(status@),
{
    lemma_statuses_differ();
}

} // verus!
