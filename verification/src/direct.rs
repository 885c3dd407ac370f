//! A download straight from a media file's own link.

use crate::foreign::{keeps_path, url_of};
use crate::job::{stepped, JobModel, JobUpdate};
use crate::links::{
    infer_title_from_url, is_link_extension, is_segment_title, segment_of, url_extension,
};
use crate::names::{
    basename, candidate, extension_dot, free_name_is_kept, is_base_name, is_unique_path,
    new_file_takes_free_path, parts_of, sanitize_file_name, sanitized, unique_path, FilePath,
    FilePathModel,
};
use crate::number::{bytes_text, eta_text, fmt_eta, human_bytes};
use crate::report::{source_status_error, source_status_text};
use crate::text::{opt, same, step_outcome, views};
use crate::tool::{canceled_error, conversion_arguments, ffmpeg_args};
use vstd::prelude::*;

verus! {

/// The dotted extension of the file that is fetched.
pub open spec fn source_suffix(ext: Option<Seq<char>>) -> Seq<char> {
    match ext {
        Some(e) => "."@ + e,
        None => ".bin"@,
    }
}

/// Whether a file with the given dotted extension is in the wanted format already.
pub open spec fn is_in_format(preset: Seq<char>, suffix: Seq<char>) -> bool {
    ||| preset == "mp4"@ && suffix == ".mp4"@
    ||| preset == "mp3"@ && suffix == ".mp3"@
    ||| preset == "wav"@ && suffix == ".wav"@
}

/// The names that a direct download gives its files.
pub struct DirectNames {
    /// The name of the file as it is fetched.
    pub source: String,
    /// The name of the file in the wanted format.
    pub target: String,
    /// Whether the fetched file has to be converted.
    pub converts: bool,
}

/// The model of `DirectNames`.
#[verifier::ext_equal]
pub struct DirectNamesModel {
    pub source: Seq<char>,
    pub target: Seq<char>,
    pub converts: bool,
}

impl View for DirectNames {
    type V = DirectNamesModel;

    open spec fn view(&self) -> DirectNamesModel {
        DirectNamesModel { source: self.source@, target: self.target@, converts: self.converts }
    }
}

/// The names that a direct download of a medium with the given title and extension gives its
/// files.
pub open spec fn names_for(
    title: Seq<char>,
    ext: Option<Seq<char>>,
    preset: Seq<char>,
) -> DirectNamesModel {
    DirectNamesModel {
        source: sanitized(title) + " [source]"@ + source_suffix(ext),
        target: sanitized(title) + " [direct]."@ + preset,
        converts: !is_in_format(preset, source_suffix(ext)),
    }
}

/// The names that a direct download of a medium with the given title and extension gives its
/// files.
pub fn direct_names(title: &str, ext: &Option<String>, preset: &str) -> (r: DirectNames)
    ensures
        r@ == names_for(title@, opt(*ext), preset@),
{
    let suffix = match ext {
        Some(e) => String::from_str(".").concat(e.as_str()),
        None => String::from_str(".bin"),
    };
    let base = sanitize_file_name(title);
    let in_format = (same(preset, "mp4") && same(suffix.as_str(), ".mp4")) || (same(preset, "mp3")
        && same(suffix.as_str(), ".mp3")) || (same(preset, "wav") && same(
        suffix.as_str(),
        ".wav",
    ));
    DirectNames {
        source: base.clone().concat(" [source]").concat(suffix.as_str()),
        target: base.concat(" [direct].").concat(preset),
        converts: !in_format,
    }
}

/// Whether `chosen` is the title under which a link is downloaded: the given one, or what the
/// link suggests where none is given.
pub open spec fn is_chosen_title(title: Seq<char>, url: Seq<char>, chosen: Seq<char>) -> bool {
    if title.len() > 0 {
        chosen == title
    } else {
        is_segment_title(segment_of(url_of(url)), chosen)
    }
}

/// The title under which a link is downloaded.
pub fn choose_title(title: &str, url: &str) -> (r: String)
    ensures
        is_chosen_title(title@, url@, r@),
{
    if title.is_empty() {
        infer_title_from_url(url)
    } else {
        title.to_owned()
    }
}

/// Where a direct download puts its files.
pub struct DirectPlan {
    pub source: FilePath,
    pub target: FilePath,
    pub converts: bool,
}

/// Whether `r` is where a direct download with the given names puts its files in `dir`; there is
/// no such place where every candidate name is taken.
pub open spec fn is_plan<F: Fn(&FilePath) -> bool>(
    exists_at: F,
    dir: Seq<char>,
    names: DirectNamesModel,
    r: Option<DirectPlan>,
) -> bool {
    match r {
        Some(plan) => {
            &&& is_unique_path(exists_at, dir, names.source, Some(plan.source))
            &&& is_unique_path(exists_at, dir, names.target, Some(plan.target))
            &&& plan.converts == names.converts
        },
        None => is_unique_path(exists_at, dir, names.source, None) || is_unique_path(
            exists_at,
            dir,
            names.target,
            None,
        ),
    }
}

/// Where a direct download puts its files, none of which is there yet.
pub fn plan_direct<F: Fn(&FilePath) -> bool>(
    dir: &str,
    url: &str,
    preset: &str,
    title: &str,
    exists_at: &F,
) -> (r: Option<DirectPlan>)
    requires
        forall|p: &FilePath| call_requires(*exists_at, (p,)),
    ensures
        exists|ext: Option<Seq<char>>, chosen: Seq<char>| #[trigger]
            is_link_extension(url@, ext) && #[trigger] is_chosen_title(title@, url@, chosen)
                && is_plan(*exists_at, dir@, names_for(chosen, ext, preset@), r),
        keeps_path(url@, url_of(url@)),
{
    let ext = url_extension(url);
    let chosen = choose_title(title, url);
    let names = direct_names(chosen.as_str(), &ext, preset);
    assert(is_link_extension(url@, opt(ext)));
    assert(is_chosen_title(title@, url@, chosen@));
    let source = match unique_path(dir, names.source.as_str(), exists_at) {
        Some(p) => p,
        None => {
            return None;
        },
    };
    let target = match unique_path(dir, names.target.as_str(), exists_at) {
        Some(p) => p,
        None => {
            return None;
        },
    };
    Some(DirectPlan { source, target, converts: names.converts })
}

proof fn lemma_candidate_keeps_tag(front: Seq<char>, rest: Seq<char>, n: nat)
    requires
        front.len() > 0,
    ensures
        front.is_prefix_of(candidate(front + "."@ + rest, parts_of(front + "."@ + rest), n)),
{
    reveal_strlit(".");
    let name = front + "."@ + rest;
    let at = front.len() as int;
    assert(name[at] == '.');
    name.index_of_last_ensures('.');
    let dot = extension_dot(name)->0;
    assert(extension_dot(name) is Some && dot >= at);
    let parts = parts_of(name);
    assert(parts.stem.take(at) =~= front);
    assert(candidate(name, parts, n).take(at) =~= front);
}

/// The fetched file and the target file never have the same path, whichever of their candidate
/// names are free.
pub proof fn source_is_not_target(
    title: Seq<char>,
    ext: Option<Seq<char>>,
    preset: Seq<char>,
    m: nat,
    n: nat,
)
    ensures
        ({
            let names = names_for(title, ext, preset);
            candidate(names.source, parts_of(names.source), m) != candidate(
                names.target,
                parts_of(names.target),
                n,
            )
        }),
{
    reveal_strlit(".");
    reveal_strlit(".bin");
    reveal_strlit(" [source]");
    reveal_strlit(" [direct].");
    reveal_strlit(" [direct]");
    let names = names_for(title, ext, preset);
    let base = sanitized(title);
    let suffix = source_suffix(ext);
    lemma_candidate_keeps_tag(base + " [source]"@, suffix.skip(1), m);
    lemma_candidate_keeps_tag(base + " [direct]"@, preset, n);
    assert(names.source =~= base + " [source]"@ + "."@ + suffix.skip(1));
    assert(names.target =~= base + " [direct]"@ + "."@ + preset);
    let a = candidate(names.source, parts_of(names.source), m);
    let b = candidate(names.target, parts_of(names.target), n);
    let i = base.len() + 2;
    assert((base + " [source]"@)[i as int] == 's');
    assert((base + " [direct]"@)[i as int] == 'd');
    assert(a[i as int] == 's');
    assert(b[i as int] == 'd');
}

/// How much time passes between two reports of received bytes, in milliseconds.
pub const REPORT_INTERVAL_MS: u128 = 120;

/// Whether it is time to report received bytes again.
pub fn is_report_due(elapsed_ms: u128) -> (r: bool)
    ensures
        r == (elapsed_ms >= REPORT_INTERVAL_MS),
{
    elapsed_ms >= REPORT_INTERVAL_MS
}

/// How fast bytes arrive, as measured since the last report.
pub struct Pace {
    /// Whole bytes per second.
    pub rate: u64,
    /// The seconds left at that rate.
    pub eta_secs: u64,
    /// The part of the whole that has arrived, as text.
    pub percent: String,
}

/// Whether `update` reports `written` of `total` bytes; a `total` of 0 is not known.
pub open spec fn is_received(total: u64, written: u64, pace: Pace, update: JobUpdate) -> bool {
    update matches JobUpdate::Received { percent, total_size, rate, eta } && {
        &&& opt(percent) == if total > 0 {
            Some(pace.percent@)
        } else {
            None
        }
        &&& opt(total_size) == Some(
            bytes_text(
                if total > 0 {
                    total as nat
                } else {
                    written as nat
                },
            ),
        )
        &&& rate@ == if pace.rate >= 1 {
            bytes_text(pace.rate as nat) + "/s"@
        } else {
            "Receiving"@
        }
        &&& opt(eta) == if total == 0 {
            None
        } else if pace.rate >= 1 {
            Some(eta_text(pace.eta_secs as nat))
        } else {
            Some("Calculating"@)
        }
    }
}

/// The report of `written` of `total` bytes; a `total` of 0 is not known.
pub fn received(total: u64, written: u64, pace: Pace) -> (r: JobUpdate)
    ensures
        is_received(total, written, pace, r),
{
    let rate = if pace.rate >= 1 {
        human_bytes(pace.rate).concat("/s")
    } else {
        String::from_str("Receiving")
    };
    let size = if total > 0 {
        human_bytes(total)
    } else {
        human_bytes(written)
    };
    let eta = if total > 0 && pace.rate >= 1 {
        Some(fmt_eta(pace.eta_secs))
    } else if total > 0 {
        Some(String::from_str("Calculating"))
    } else {
        None
    };
    let percent = if total > 0 {
        Some(pace.percent)
    } else {
        None
    };
    JobUpdate::Received { percent, total_size: Some(size), rate, eta }
}

/// What a direct download waits for.
#[derive(PartialEq, Eq, Structural, Clone, Copy)]
pub enum DirectStage {
    New,
    Starting,
    Requesting,
    Opening,
    Polling,
    Reading,
    Writing,
    Measuring,
    Reporting,
    Flushing,
    Announcing,
    Converting,
    Removing,
    Moving,
    Completing,
    Discarding,
    Over,
}

/// What happened, in answer to the last action of a direct download.
pub enum DirectEvent {
    Begin,
    /// A report reached the job.
    Reported,
    /// No client for requests could be made.
    ClientFailed(String),
    /// The request could not be sent.
    RequestFailed(String),
    /// The source answered, with the length of the file where it tells it.
    Replied { success: bool, code: u16, reason: Option<String>, length: Option<u64> },
    Opened(Result<(), String>),
    /// Whether the user stopped the job.
    Polled(bool),
    /// The number of bytes that were read; none are left at 0.
    Read(Result<u64, String>),
    Wrote(Result<(), String>),
    /// How fast bytes arrive, where it is time to report it.
    Measured(Option<Pace>),
    Flushed(Result<(), String>),
    Converted(Result<(), String>),
    Removed,
    Moved(Result<(), String>),
    Discarded,
}

/// What a direct download does next.
pub enum DirectAction {
    /// Take the job through a step.
    Report(JobUpdate),
    /// Ask the source for the file at a link.
    Request(String),
    /// Create the file that is fetched.
    Open(String),
    /// Look whether the user stopped the job.
    Poll,
    /// Read the next bytes.
    Read,
    /// Write the bytes that were read.
    Write,
    /// Measure how fast bytes arrive.
    Measure,
    /// Write what is held back.
    Flush,
    /// Run the converter with the given arguments.
    Convert(Vec<String>),
    /// Remove the fetched file, which was converted.
    Remove(String),
    /// Move the fetched file to the target file.
    Move { from: String, to: String },
    /// Close and remove the fetched file, which is not wanted any more.
    Discard(String),
    /// The download is over.
    Finish(Result<(), String>),
}

/// What is fetched, and where it goes.
pub struct DirectRequest {
    pub url: String,
    /// The wanted format.
    pub preset: String,
    /// The path of the fetched file.
    pub source: String,
    /// The path of the target file.
    pub target: String,
    /// Whether the fetched file has to be converted.
    pub converts: bool,
}

/// The model of `DirectRequest`.
#[verifier::ext_equal]
pub struct DirectRequestModel {
    pub url: Seq<char>,
    pub preset: Seq<char>,
    pub source: Seq<char>,
    pub target: Seq<char>,
    pub converts: bool,
}

impl View for DirectRequest {
    type V = DirectRequestModel;

    open spec fn view(&self) -> DirectRequestModel {
        DirectRequestModel {
            url: self.url@,
            preset: self.preset@,
            source: self.source@,
            target: self.target@,
            converts: self.converts,
        }
    }
}

/// The state of a direct download.
pub struct DirectDownload {
    pub request: DirectRequest,
    pub stage: DirectStage,
    /// The length of the file; 0 where it is not known.
    pub total: u64,
    /// The bytes that were read so far.
    pub written: u64,
}

/// The model of `DirectDownload`.
#[verifier::ext_equal]
pub struct DirectModel {
    pub request: DirectRequestModel,
    pub stage: DirectStage,
    pub total: u64,
    pub written: u64,
}

impl View for DirectDownload {
    type V = DirectModel;

    open spec fn view(&self) -> DirectModel {
        DirectModel {
            request: self.request@,
            stage: self.stage,
            total: self.total,
            written: self.written,
        }
    }
}

impl DirectModel {
    /// Whether an event answers the last action.
    pub open spec fn expects(self, event: DirectEvent) -> bool {
        match event {
            DirectEvent::Begin => self.stage == DirectStage::New,
            DirectEvent::Reported => {
                ||| self.stage == DirectStage::Starting
                ||| self.stage == DirectStage::Reporting
                ||| self.stage == DirectStage::Announcing
                ||| self.stage == DirectStage::Completing
            },
            DirectEvent::ClientFailed(_) => self.stage == DirectStage::Requesting,
            DirectEvent::RequestFailed(_) => self.stage == DirectStage::Requesting,
            DirectEvent::Replied { .. } => self.stage == DirectStage::Requesting,
            DirectEvent::Opened(_) => self.stage == DirectStage::Opening,
            DirectEvent::Polled(_) => self.stage == DirectStage::Polling,
            DirectEvent::Read(r) => self.stage == DirectStage::Reading && (r matches Ok(n) ==> self.written
                + n <= u64::MAX),
            DirectEvent::Wrote(_) => self.stage == DirectStage::Writing,
            DirectEvent::Measured(_) => self.stage == DirectStage::Measuring,
            DirectEvent::Flushed(_) => self.stage == DirectStage::Flushing,
            DirectEvent::Converted(_) => self.stage == DirectStage::Converting,
            DirectEvent::Removed => self.stage == DirectStage::Removing,
            DirectEvent::Moved(_) => self.stage == DirectStage::Moving,
            DirectEvent::Discarded => self.stage == DirectStage::Discarding,
        }
    }

    pub open spec fn at(self, stage: DirectStage) -> DirectModel {
        DirectModel { stage, ..self }
    }

    /// The state after an event that answers the last action.
    pub open spec fn next(self, event: DirectEvent) -> DirectModel {
        match event {
            DirectEvent::Begin => self.at(DirectStage::Starting),
            DirectEvent::Reported => match self.stage {
                DirectStage::Starting => self.at(DirectStage::Requesting),
                DirectStage::Reporting => self.at(DirectStage::Polling),
                DirectStage::Announcing => self.at(DirectStage::Converting),
                _ => self.at(DirectStage::Over),
            },
            DirectEvent::ClientFailed(_) => self.at(DirectStage::Over),
            DirectEvent::RequestFailed(_) => self.at(DirectStage::Over),
            DirectEvent::Replied { success, code, reason, length } => if success {
                DirectModel {
                    stage: DirectStage::Opening,
                    total: match length {
                        Some(n) => n,
                        None => 0,
                    },
                    ..self
                }
            } else {
                self.at(DirectStage::Over)
            },
            DirectEvent::Opened(r) => match r {
                Ok(()) => self.at(DirectStage::Polling),
                Err(_) => self.at(DirectStage::Over),
            },
            DirectEvent::Polled(canceled) => if canceled {
                self.at(DirectStage::Discarding)
            } else {
                self.at(DirectStage::Reading)
            },
            DirectEvent::Read(r) => match r {
                Ok(n) => if n == 0 {
                    self.at(DirectStage::Flushing)
                } else {
                    DirectModel {
                        stage: DirectStage::Writing,
                        written: (self.written + n) as u64,
                        ..self
                    }
                },
                Err(_) => self.at(DirectStage::Over),
            },
            DirectEvent::Wrote(r) => match r {
                Ok(()) => self.at(DirectStage::Measuring),
                Err(_) => self.at(DirectStage::Over),
            },
            DirectEvent::Measured(pace) => match pace {
                Some(_) => self.at(DirectStage::Reporting),
                None => self.at(DirectStage::Polling),
            },
            DirectEvent::Flushed(r) => match r {
                Ok(()) => if self.request.converts {
                    self.at(DirectStage::Announcing)
                } else {
                    self.at(DirectStage::Moving)
                },
                Err(_) => self.at(DirectStage::Over),
            },
            DirectEvent::Converted(r) => match r {
                Ok(()) => self.at(DirectStage::Removing),
                Err(_) => self.at(DirectStage::Over),
            },
            DirectEvent::Removed => self.at(DirectStage::Completing),
            DirectEvent::Moved(r) => match r {
                Ok(()) => self.at(DirectStage::Completing),
                Err(_) => self.at(DirectStage::Over),
            },
            DirectEvent::Discarded => self.at(DirectStage::Over),
        }
    }

    /// Whether `action` tells that the target file is in place.
    pub open spec fn is_completion(self, action: DirectAction) -> bool {
        action matches DirectAction::Report(JobUpdate::SourceDone { name, path }) && path@
            == self.request.target && is_base_name(self.request.target, name@)
    }

    /// Whether `action` is what follows an event that answers the last action.
    pub open spec fn is_answer(self, event: DirectEvent, action: DirectAction) -> bool {
        match event {
            DirectEvent::Begin => action == DirectAction::Report(JobUpdate::Started),
            DirectEvent::Reported => match self.stage {
                DirectStage::Starting => action matches DirectAction::Request(url) && url@
                    == self.request.url,
                DirectStage::Reporting => action == DirectAction::Poll,
                DirectStage::Announcing => action matches DirectAction::Convert(args) && views(
                    args@,
                ) == conversion_arguments(
                    self.request.preset,
                    self.request.source,
                    self.request.target,
                ),
                _ => action == DirectAction::Finish(Ok(())),
            },
            DirectEvent::ClientFailed(e) => fails_with(action, e@),
            DirectEvent::RequestFailed(e) => fails_with(action, "Source request failed: "@ + e@),
            DirectEvent::Replied { success, code, reason, length } => if success {
                action matches DirectAction::Open(path) && path@ == self.request.source
            } else {
                fails_with(action, source_status_text(code, opt(reason)))
            },
            DirectEvent::Opened(r) => match r {
                Ok(()) => action == DirectAction::Poll,
                Err(e) => fails_with(action, e@),
            },
            DirectEvent::Polled(canceled) => if canceled {
                action matches DirectAction::Discard(path) && path@ == self.request.source
            } else {
                action == DirectAction::Read
            },
            DirectEvent::Read(r) => match r {
                Ok(n) => action == if n == 0 {
                    DirectAction::Flush
                } else {
                    DirectAction::Write
                },
                Err(e) => fails_with(action, e@),
            },
            DirectEvent::Wrote(r) => match r {
                Ok(()) => action == DirectAction::Measure,
                Err(e) => fails_with(action, e@),
            },
            DirectEvent::Measured(pace) => match pace {
                Some(pace) => action matches DirectAction::Report(update) && is_received(
                    self.total,
                    self.written,
                    pace,
                    update,
                ),
                None => action == DirectAction::Poll,
            },
            DirectEvent::Flushed(r) => match r {
                Ok(()) => if self.request.converts {
                    action == DirectAction::Report(JobUpdate::ConvertingSource)
                } else {
                    action matches DirectAction::Move { from, to } && from@ == self.request.source
                        && to@ == self.request.target
                },
                Err(e) => fails_with(action, e@),
            },
            DirectEvent::Converted(r) => match r {
                Ok(()) => action matches DirectAction::Remove(path) && path@
                    == self.request.source,
                Err(e) => fails_with(action, e@),
            },
            DirectEvent::Removed => self.is_completion(action),
            DirectEvent::Moved(r) => match r {
                Ok(()) => self.is_completion(action),
                Err(e) => fails_with(action, e@),
            },
            DirectEvent::Discarded => fails_with(action, "__SIPHON_CANCELED__"@),
        }
    }

    /// The state after a row of events.
    pub open spec fn after(self, events: Seq<DirectEvent>) -> DirectModel
        decreases events.len(),
    {
        if events.len() == 0 {
            self
        } else {
            self.after(events.drop_last()).next(events.last())
        }
    }

    /// Whether each event of a row answers the action before it.
    pub open spec fn takes(self, events: Seq<DirectEvent>) -> bool
        decreases events.len(),
    {
        events.len() > 0 ==> self.takes(events.drop_last()) && self.after(
            events.drop_last(),
        ).expects(events.last())
    }
}

/// Whether `action` ends a download with the given error.
pub open spec fn fails_with(action: DirectAction, error: Seq<char>) -> bool {
    action matches DirectAction::Finish(r) && step_outcome(r) == Err::<(), Seq<char>>(error)
}

/// The state of a direct download before it begins.
pub open spec fn fresh(request: DirectRequestModel) -> DirectModel {
    DirectModel { request, stage: DirectStage::New, total: 0, written: 0 }
}

impl DirectDownload {
    /// The state of a direct download before it begins.
    pub fn new(request: DirectRequest) -> (r: DirectDownload)
        ensures
            r@ == fresh(request@),
    {
        DirectDownload { request, stage: DirectStage::New, total: 0, written: 0 }
    }

    /// Whether an event answers the last action.
    fn is_due(&self, event: &DirectEvent) -> (r: bool)
        ensures
            r == self@.expects(*event),
    {
        match event {
            DirectEvent::Begin => self.stage == DirectStage::New,
            DirectEvent::Reported => self.stage == DirectStage::Starting || self.stage
                == DirectStage::Reporting || self.stage == DirectStage::Announcing || self.stage
                == DirectStage::Completing,
            DirectEvent::ClientFailed(_) => self.stage == DirectStage::Requesting,
            DirectEvent::RequestFailed(_) => self.stage == DirectStage::Requesting,
            DirectEvent::Replied { .. } => self.stage == DirectStage::Requesting,
            DirectEvent::Opened(_) => self.stage == DirectStage::Opening,
            DirectEvent::Polled(_) => self.stage == DirectStage::Polling,
            DirectEvent::Read(r) => self.stage == DirectStage::Reading && match r {
                Ok(n) => *n <= u64::MAX - self.written,
                Err(_) => true,
            },
            DirectEvent::Wrote(_) => self.stage == DirectStage::Writing,
            DirectEvent::Measured(_) => self.stage == DirectStage::Measuring,
            DirectEvent::Flushed(_) => self.stage == DirectStage::Flushing,
            DirectEvent::Converted(_) => self.stage == DirectStage::Converting,
            DirectEvent::Removed => self.stage == DirectStage::Removing,
            DirectEvent::Moved(_) => self.stage == DirectStage::Moving,
            DirectEvent::Discarded => self.stage == DirectStage::Discarding,
        }
    }

    fn fail(&mut self, error: String) -> (r: DirectAction)
        ensures
            final(self)@ == old(self)@.at(DirectStage::Over),
            fails_with(r, error@),
    {
        self.stage = DirectStage::Over;
        DirectAction::Finish(Err(error))
    }

    fn go(&mut self, stage: DirectStage, action: DirectAction) -> (r: DirectAction)
        ensures
            final(self)@ == old(self)@.at(stage),
            r == action,
    {
        self.stage = stage;
        action
    }

    fn complete(&mut self) -> (r: DirectAction)
        ensures
            final(self)@ == old(self)@.at(DirectStage::Completing),
            old(self)@.is_completion(r),
    {
        self.stage = DirectStage::Completing;
        let name = basename(self.request.target.as_str());
        let path = self.request.target.clone();
        DirectAction::Report(JobUpdate::SourceDone { name, path })
    }

    /// Takes an event in and returns what to do next. An event that does not answer the last
    /// action changes nothing and is followed by nothing.
    pub fn step(&mut self, event: DirectEvent) -> (r: Option<DirectAction>)
        ensures
            match r {
                Some(action) => {
                    &&& old(self)@.expects(event)
                    &&& final(self)@ == old(self)@.next(event)
                    &&& old(self)@.is_answer(event, action)
                },
                None => !old(self)@.expects(event) && final(self)@ == old(self)@,
            },
    {
        if !self.is_due(&event) {
            return None;
        }
        let action = match event {
            DirectEvent::Begin => self.go(
                DirectStage::Starting,
                DirectAction::Report(JobUpdate::Started),
            ),
            DirectEvent::Reported => match self.stage {
                DirectStage::Starting => {
                    let url = self.request.url.clone();
                    self.go(DirectStage::Requesting, DirectAction::Request(url))
                },
                DirectStage::Reporting => self.go(DirectStage::Polling, DirectAction::Poll),
                DirectStage::Announcing => {
                    let args = ffmpeg_args(
                        self.request.preset.as_str(),
                        self.request.source.as_str(),
                        self.request.target.as_str(),
                    );
                    self.go(DirectStage::Converting, DirectAction::Convert(args))
                },
                _ => self.go(DirectStage::Over, DirectAction::Finish(Ok(()))),
            },
            DirectEvent::ClientFailed(e) => self.fail(e),
            DirectEvent::RequestFailed(e) => self.fail(
                String::from_str("Source request failed: ").concat(e.as_str()),
            ),
            DirectEvent::Replied { success, code, reason, length } => if success {
                self.total = match length {
                    Some(n) => n,
                    None => 0,
                };
                let source = self.request.source.clone();
                self.go(DirectStage::Opening, DirectAction::Open(source))
            } else {
                self.fail(source_status_error(code, &reason))
            },
            DirectEvent::Opened(r) => match r {
                Ok(()) => self.go(DirectStage::Polling, DirectAction::Poll),
                Err(e) => self.fail(e),
            },
            DirectEvent::Polled(canceled) => if canceled {
                let source = self.request.source.clone();
                self.go(DirectStage::Discarding, DirectAction::Discard(source))
            } else {
                self.go(DirectStage::Reading, DirectAction::Read)
            },
            DirectEvent::Read(r) => match r {
                Ok(n) => if n == 0 {
                    self.go(DirectStage::Flushing, DirectAction::Flush)
                } else {
                    self.written = self.written + n;
                    self.go(DirectStage::Writing, DirectAction::Write)
                },
                Err(e) => self.fail(e),
            },
            DirectEvent::Wrote(r) => match r {
                Ok(()) => self.go(DirectStage::Measuring, DirectAction::Measure),
                Err(e) => self.fail(e),
            },
            DirectEvent::Measured(pace) => match pace {
                Some(pace) => {
                    let update = received(self.total, self.written, pace);
                    self.go(DirectStage::Reporting, DirectAction::Report(update))
                },
                None => self.go(DirectStage::Polling, DirectAction::Poll),
            },
            DirectEvent::Flushed(r) => match r {
                Ok(()) => if self.request.converts {
                    self.go(
                        DirectStage::Announcing,
                        DirectAction::Report(JobUpdate::ConvertingSource),
                    )
                } else {
                    let from = self.request.source.clone();
                    let to = self.request.target.clone();
                    self.go(DirectStage::Moving, DirectAction::Move { from, to })
                },
                Err(e) => self.fail(e),
            },
            DirectEvent::Converted(r) => match r {
                Ok(()) => {
                    let source = self.request.source.clone();
                    self.go(DirectStage::Removing, DirectAction::Remove(source))
                },
                Err(e) => self.fail(e),
            },
            DirectEvent::Removed => self.complete(),
            DirectEvent::Moved(r) => match r {
                Ok(()) => self.complete(),
                Err(e) => self.fail(e),
            },
            DirectEvent::Discarded => self.fail(canceled_error()),
        };
        Some(action)
    }
}

/// The number of bytes that a row of events reads.
pub open spec fn bytes_read(events: Seq<DirectEvent>) -> nat
    decreases events.len(),
{
    if events.len() == 0 {
        0
    } else {
        bytes_read(events.drop_last()) + match events.last() {
            DirectEvent::Read(Ok(n)) => n as nat,
            _ => 0,
        }
    }
}

/// What is reported as received is the number of all bytes that were read.
pub proof fn received_counts_all_bytes(request: DirectRequestModel, events: Seq<DirectEvent>)
    requires
        fresh(request).takes(events),
    ensures
        fresh(request).after(events).written == bytes_read(events),
    decreases events.len(),
{
    if events.len() > 0 {
        received_counts_all_bytes(request, events.drop_last());
    }
}

/// A direct download speaks of the same link and of the same two files from its beginning to its
/// end.
pub proof fn request_stays(request: DirectRequestModel, events: Seq<DirectEvent>)
    ensures
        fresh(request).after(events).request == request,
    decreases events.len(),
{
    if events.len() > 0 {
        request_stays(request, events.drop_last());
    }
}

/// Whether the fetched file is whole at a stage.
pub open spec fn is_fetched(stage: DirectStage) -> bool {
    ||| stage == DirectStage::Announcing
    ||| stage == DirectStage::Converting
    ||| stage == DirectStage::Removing
    ||| stage == DirectStage::Moving
    ||| stage == DirectStage::Completing
}

proof fn lemma_contains_drop(events: Seq<DirectEvent>, e: DirectEvent)
    requires
        events.len() > 0,
        events.drop_last().contains(e),
    ensures
        events.contains(e),
{
    let i = choose|i: int| 0 <= i < events.drop_last().len() && events.drop_last()[i] == e;
    assert(events[i] == e);
}

/// The fetched file is converted or moved only after its source was read to the end and all was
/// written; and the target file is reported only after it was moved there, or was converted and
/// the fetched file removed.
pub proof fn file_is_used_when_whole(request: DirectRequestModel, events: Seq<DirectEvent>)
    requires
        fresh(request).takes(events),
    ensures
        is_fetched(fresh(request).after(events).stage) ==> events.contains(
            DirectEvent::Read(Ok(0)),
        ) && events.contains(DirectEvent::Flushed(Ok(()))),
        fresh(request).after(events).stage == DirectStage::Completing ==> {
            ||| events.contains(DirectEvent::Moved(Ok(())))
            ||| events.contains(DirectEvent::Converted(Ok(()))) && events.contains(
                DirectEvent::Removed,
            )
        },
{
    lemma_history(request, events);
}

proof fn lemma_history(request: DirectRequestModel, events: Seq<DirectEvent>)
    requires
        fresh(request).takes(events),
    ensures
        ({
            let stage = fresh(request).after(events).stage;
            &&& is_fetched(stage) || stage == DirectStage::Flushing ==> events.contains(
                DirectEvent::Read(Ok(0)),
            )
            &&& is_fetched(stage) ==> events.contains(DirectEvent::Flushed(Ok(())))
            &&& stage == DirectStage::Removing ==> events.contains(DirectEvent::Converted(Ok(())))
            &&& stage == DirectStage::Completing ==> {
                ||| events.contains(DirectEvent::Moved(Ok(())))
                ||| events.contains(DirectEvent::Converted(Ok(()))) && events.contains(
                    DirectEvent::Removed,
                )
            }
        }),
    decreases events.len(),
{
    if events.len() > 0 {
        let before = events.drop_last();
        lemma_history(request, before);
        let last = events.last();
        assert(events[events.len() - 1] == last);
        assert(events.contains(last));
        assert forall|e: DirectEvent| #[trigger] before.contains(e) implies events.contains(e) by {
            lemma_contains_drop(events, e);
        }
        match last {
            DirectEvent::Flushed(Ok(u)) => assert(u == ()),
            DirectEvent::Moved(Ok(u)) => assert(u == ()),
            DirectEvent::Converted(Ok(u)) => assert(u == ()),
            _ => {},
        }
    }
}

/// A direct download ends well only after its job was told that the target file is in place.
pub proof fn success_is_told_first(
    download: DirectModel,
    event: DirectEvent,
    action: DirectAction,
    job: JobModel,
)
    requires
        download.expects(event),
        download.is_answer(event, action),
        download.next(event).stage == DirectStage::Completing,
    ensures
        action matches DirectAction::Report(update) && stepped(job, update).status == "complete"@
            && stepped(job, update).output_path == Some(download.request.target),
        forall|last: DirectAction| #[trigger]
            download.next(event).is_answer(DirectEvent::Reported, last) ==> last
                == DirectAction::Finish(Ok(())),
{
}

/// A download that the user stopped removes the fetched file, and then ends with the error that
/// stands for a stopped job.
pub proof fn stopped_download_leaves_no_source(
    download: DirectModel,
    first: DirectAction,
    second: DirectAction,
)
    requires
        download.expects(DirectEvent::Polled(true)),
        download.is_answer(DirectEvent::Polled(true), first),
        download.next(DirectEvent::Polled(true)).is_answer(DirectEvent::Discarded, second),
    ensures
        first matches DirectAction::Discard(path) && path@ == download.request.source,
        download.next(DirectEvent::Polled(true)).expects(DirectEvent::Discarded),
        fails_with(second, "__SIPHON_CANCELED__"@),
{
}

proof fn lemma_dotted(ext: Option<Seq<char>>, format: Seq<char>)
    requires
        format == "mp4"@ || format == "mp3"@ || format == "wav"@,
    ensures
        source_suffix(ext) == "."@ + format <==> ext == Some(format),
        ".mp4"@ == "."@ + "mp4"@,
        ".mp3"@ == "."@ + "mp3"@,
        ".wav"@ == "."@ + "wav"@,
        "mp4"@ != "mp3"@ && "mp4"@ != "wav"@ && "mp3"@ != "wav"@,
{
    reveal_strlit(".");
    reveal_strlit(".bin");
    reveal_strlit("mp4");
    reveal_strlit("mp3");
    reveal_strlit("wav");
    reveal_strlit(".mp4");
    reveal_strlit(".mp3");
    reveal_strlit(".wav");
    assert(".mp4"@ =~= "."@ + "mp4"@);
    assert(".mp3"@ =~= "."@ + "mp3"@);
    assert(".wav"@ =~= "."@ + "wav"@);
    assert("mp4"@[2] != "mp3"@[2]);
    assert("mp4"@[0] != "wav"@[0]);
    assert("mp3"@[0] != "wav"@[0]);
    assert(("."@ + format).skip(1) =~= format);
    match ext {
        Some(e) => {
            assert(("."@ + e).skip(1) =~= e);
        },
        None => {
            assert(".bin"@[1] == 'b');
            assert(("."@ + format)[1] == format[0]);
        },
    }
}

/// For each of the formats, a fetched file is moved as it is exactly where the extension of its
/// link is that format, and is converted in every other case. The target file has the format as
/// its extension, the fetched file that of its link, and both are named after the title.
pub proof fn only_files_in_format_are_moved(
    title: &str,
    ext: &Option<String>,
    preset: &str,
    names: DirectNames,
)
    requires
        call_ensures(direct_names, (title, ext, preset), names),
    ensures
        preset@ == "mp4"@ || preset@ == "mp3"@ || preset@ == "wav"@ ==> (names.converts <==> opt(
            *ext,
        ) != Some(preset@)),
        !names.converts ==> opt(*ext) == Some(preset@),
        names.target@ == sanitized(title@) + " [direct]"@ + "."@ + preset@,
        opt(*ext) matches Some(e) ==> names.source@ == sanitized(title@) + " [source]"@ + "."@ + e,
        *ext is None ==> names.source@ == sanitized(title@) + " [source]"@ + ".bin"@,
{
    lemma_dotted(opt(*ext), "mp4"@);
    lemma_dotted(opt(*ext), "mp3"@);
    lemma_dotted(opt(*ext), "wav"@);
    reveal_strlit(" [direct].");
    reveal_strlit(" [direct]");
    reveal_strlit(".");
    assert(" [direct]."@ =~= " [direct]"@ + "."@);
    assert(names.target@ =~= sanitized(title@) + " [direct]"@ + "."@ + preset@);
    if let Some(e) = opt(*ext) {
        assert(names.source@ =~= sanitized(title@) + " [source]"@ + "."@ + e);
    }
}

/// The files of a direct download go to the folder that was named, to paths that are free where
/// `exists_at` tells which are taken; and the fetched file is converted unless its link has the
/// wanted format as its extension.
pub proof fn direct_files_replace_none<F: Fn(&FilePath) -> bool>(
    dir: &str,
    url: &str,
    preset: &str,
    title: &str,
    exists_at: &F,
    taken: spec_fn(FilePathModel) -> bool,
    r: Option<DirectPlan>,
)
    requires
        forall|p: FilePath, b: bool| #[trigger]
            call_ensures(*exists_at, (&p,), b) ==> b == taken(p@),
        call_ensures(plan_direct::<F>, (dir, url, preset, title, exists_at), r),
    ensures
        r matches Some(plan) ==> {
            &&& plan.source.dir@ == dir@ && !taken(plan.source@)
            &&& plan.target.dir@ == dir@ && !taken(plan.target@)
            &&& exists|ext: Option<Seq<char>>| #[trigger]
                is_link_extension(url@, ext) && (!plan.converts ==> ext == Some(preset@)) && (
                preset@ == "mp4"@ || preset@ == "mp3"@ || preset@ == "wav"@ ==> (plan.converts
                    <==> ext != Some(preset@)))
            &&& title@.len() > 0 ==> {
                let target = sanitized(title@) + " [direct]."@ + preset@;
                !taken(FilePathModel { dir: dir@, name: target }) ==> plan.target.name@ == target
            }
            &&& title@.len() > 0 ==> exists|ext: Option<Seq<char>>| #[trigger]
                is_link_extension(url@, ext) && {
                    let source = sanitized(title@) + " [source]"@ + (match ext {
                        Some(e) => "."@ + e,
                        None => ".bin"@,
                    });
                    !taken(FilePathModel { dir: dir@, name: source }) ==> plan.source.name@
                        == source
                }
        },
{
    if let Some(plan) = r {
        let (ext, chosen) = choose|ext: Option<Seq<char>>, chosen: Seq<char>| #[trigger]
            is_link_extension(url@, ext) && #[trigger] is_chosen_title(title@, url@, chosen)
                && is_plan(*exists_at, dir@, names_for(chosen, ext, preset@), r);
        let names = names_for(chosen, ext, preset@);
        new_file_takes_free_path(*exists_at, taken, dir@, names.source, Some(plan.source));
        new_file_takes_free_path(*exists_at, taken, dir@, names.target, Some(plan.target));
        if !taken(FilePathModel { dir: dir@, name: names.target }) {
            free_name_is_kept(*exists_at, taken, dir@, names.target, Some(plan.target));
        }
        if !taken(FilePathModel { dir: dir@, name: names.source }) {
            free_name_is_kept(*exists_at, taken, dir@, names.source, Some(plan.source));
        }
        lemma_dotted(ext, "mp4"@);
        lemma_dotted(ext, "mp3"@);
        lemma_dotted(ext, "wav"@);
        assert(is_link_extension(url@, ext));
    }
}

/// A given title is the title; only where none is given, the link suggests one.
pub proof fn given_title_is_kept(title: &str, url: &str, chosen: String)
    requires
        call_ensures(choose_title, (title, url), chosen),
    ensures
        title@.len() > 0 ==> chosen@ == title@,
        title@.len() == 0 ==> is_segment_title(segment_of(url_of(url@)), chosen@),
{
}

/// A report of received bytes shows the whole where it is known, and what has arrived where it is
/// not; a part of the whole and a time left are shown only where the whole is known, and a rate
/// below one byte in a second is none.
pub proof fn report_shows_what_arrived(total: u64, written: u64, pace: Pace, update: JobUpdate)
    requires
        call_ensures(received, (total, written, pace), update),
    ensures
        update matches JobUpdate::Received { percent, total_size, rate, eta } && {
            &&& total > 0 ==> opt(percent) == Some(pace.percent@) && opt(total_size) == Some(
                bytes_text(total as nat),
            )
            &&& total == 0 ==> percent is None && eta is None && opt(total_size) == Some(
                bytes_text(written as nat),
            )
            &&& pace.rate >= 1 ==> rate@ == bytes_text(pace.rate as nat) + "/s"@
            &&& pace.rate == 0 ==> rate@ == "Receiving"@
            &&& total > 0 && pace.rate >= 1 ==> opt(eta) == Some(eta_text(pace.eta_secs as nat))
            &&& total > 0 && pace.rate == 0 ==> opt(eta) == Some("Calculating"@)
        },
{
}

/// Reports are at least 120 milliseconds apart.
pub proof fn reports_keep_apart(elapsed_ms: u128, due: bool)
    requires
        call_ensures(is_report_due, (elapsed_ms,), due),
    ensures
        due <==> elapsed_ms >= 120,
{
}

/// Whatever happened, what a direct download does next concerns its own link and its own two
/// files: the fetched file is what is created, removed and moved away, the target file is where it
/// is moved or converted to and what is reported in the end.
pub proof fn actions_concern_own_files(
    download: &mut DirectDownload,
    event: DirectEvent,
    r: Option<DirectAction>,
)
    requires
        call_ensures(DirectDownload::step, (download, event), r),
    ensures
        final(download).request@ == old(download).request@,
        r matches Some(action) ==> {
            let request = old(download).request;
            match action {
                DirectAction::Request(url) => url@ == request.url@,
                DirectAction::Open(path) => path@ == request.source@,
                DirectAction::Remove(path) => path@ == request.source@,
                DirectAction::Discard(path) => path@ == request.source@,
                DirectAction::Move { from, to } => from@ == request.source@ && to@
                    == request.target@ && !request.converts,
                DirectAction::Convert(args) => turns_source_into_target(args@, request),
                DirectAction::Report(JobUpdate::SourceDone { name, path }) => path@
                    == request.target@ && is_base_name(path@, name@),
                _ => true,
            }
        },
{
}

/// Whether arguments have the converter turn the fetched file into the target file.
pub open spec fn turns_source_into_target(args: Seq<String>, request: DirectRequest) -> bool {
    let a = views(args);
    &&& a == conversion_arguments(request.preset@, request.source@, request.target@)
    &&& a.len() > 3
    &&& a[1] == "-i"@ && a[2] == request.source@
    &&& a.last() == request.target@
}

/// The error that an event brings, if it brings one.
pub open spec fn error_in(event: DirectEvent) -> Option<Seq<char>> {
    match event {
        DirectEvent::ClientFailed(e) => Some(e@),
        DirectEvent::Opened(Err(e)) => Some(e@),
        DirectEvent::Read(Err(e)) => Some(e@),
        DirectEvent::Wrote(Err(e)) => Some(e@),
        DirectEvent::Flushed(Err(e)) => Some(e@),
        DirectEvent::Converted(Err(e)) => Some(e@),
        DirectEvent::Moved(Err(e)) => Some(e@),
        _ => None,
    }
}

/// A direct download fails exactly where something failed, or the source refused, or the user
/// stopped it and the fetched file is gone; and it fails for that reason. It succeeds only in
/// answer to the report that the target file is in place.
pub proof fn download_fails_for_a_reason(
    download: &mut DirectDownload,
    event: DirectEvent,
    r: Option<DirectAction>,
)
    requires
        call_ensures(DirectDownload::step, (download, event), r),
        r is Some,
    ensures
        (r matches Some(DirectAction::Finish(Err(e)))) <==> {
            ||| error_in(event) is Some
            ||| event is RequestFailed
            ||| event matches DirectEvent::Replied { success, code, reason, length } && !success
            ||| event is Discarded
        },
        error_in(event) matches Some(e) ==> fails_with(r->0, e),
        event matches DirectEvent::RequestFailed(e) ==> fails_with(
            r->0,
            "Source request failed: "@ + e@,
        ),
        event matches DirectEvent::Replied { success, code, reason, length } ==> !success
            ==> fails_with(r->0, source_status_text(code, opt(reason))),
        event is Discarded ==> fails_with(r->0, "__SIPHON_CANCELED__"@),
        (r matches Some(DirectAction::Finish(Ok(u)))) ==> event is Reported && old(download).stage
            == DirectStage::Completing,
        (r matches Some(DirectAction::Finish(outcome))) <==> final(download).stage
            == DirectStage::Over,
{
}

/// Bytes are read only after the user was found not to have stopped the job; what was read is
/// counted and written before more is read, the file is closed where nothing was left to read, and
/// only then converted or moved.
pub proof fn bytes_go_through_the_file(
    download: &mut DirectDownload,
    event: DirectEvent,
    r: Option<DirectAction>,
)
    requires
        call_ensures(DirectDownload::step, (download, event), r),
    ensures
        r == Some(DirectAction::Read) ==> event == DirectEvent::Polled(false),
        r is Some && event == DirectEvent::Polled(true) ==> r->0 is Discard,
        r == Some(DirectAction::Write) <==> r is Some && (event matches DirectEvent::Read(Ok(n))
            && n > 0),
        r == Some(DirectAction::Flush) <==> r is Some && event == DirectEvent::Read(Ok(0)),
        r is Some ==> final(download).written == old(download).written + (match event {
            DirectEvent::Read(Ok(n)) => n as int,
            _ => 0,
        }),
        r is None ==> final(download)@ == old(download)@,
        r is Some && event is Flushed ==> (event matches DirectEvent::Flushed(Ok(u)) ==> if old(
            download,
        ).request.converts {
            r->0 == DirectAction::Report(JobUpdate::ConvertingSource)
        } else {
            r->0 is Move
        }),
        r is Some && (r->0 is Move || r->0 is Convert) ==> event is Flushed || old(download).stage
            == DirectStage::Announcing,
        r is Some && event is Replied && !(r->0 is Finish) ==> r->0 is Open && (
        event matches DirectEvent::Replied { success, code, reason, length }
            && final(download).total == (match length {
            Some(n) => n,
            None => 0,
        })),
        !(event is Replied) ==> final(download).total == old(download).total,
        r is Some && (event matches DirectEvent::Measured(Some(pace))) ==> (
        event matches DirectEvent::Measured(Some(pace)) && r->0 matches DirectAction::Report(update)
            && is_received(old(download).total, old(download).written, pace, update)),
        r is Some && event is Converted && !(r->0 is Finish) ==> r->0 is Remove,
        r is Some && (event is Removed || event is Moved) && !(r->0 is Finish) ==> (
        r->0 matches DirectAction::Report(u) && u is SourceDone),
{
}

/// A direct download never gets stuck: whatever it asks to be done, each of the ways in which that
/// can end is what it waits for then.
pub proof fn every_action_is_answered(
    download: &mut DirectDownload,
    event: DirectEvent,
    r: Option<DirectAction>,
    answer: DirectEvent,
)
    requires
        call_ensures(DirectDownload::step, (download, event), r),
        r matches Some(action) && match action {
            DirectAction::Report(_) => answer is Reported,
            DirectAction::Request(_) => answer is ClientFailed || answer is RequestFailed || answer
                is Replied,
            DirectAction::Open(_) => answer is Opened,
            DirectAction::Poll => answer is Polled,
            DirectAction::Read => answer is Read && (answer matches DirectEvent::Read(Ok(n)) ==> n
                + old(download).written <= u64::MAX),
            DirectAction::Write => answer is Wrote,
            DirectAction::Measure => answer is Measured,
            DirectAction::Flush => answer is Flushed,
            DirectAction::Convert(_) => answer is Converted,
            DirectAction::Remove(_) => answer is Removed,
            DirectAction::Move { .. } => answer is Moved,
            DirectAction::Discard(_) => answer is Discarded,
            DirectAction::Finish(_) => false,
        },
    ensures
        forall|later: &mut DirectDownload, next: Option<DirectAction>|
            later@ == final(download)@ && #[trigger] call_ensures(
                DirectDownload::step,
                (later, answer),
                next,
            ) ==> next is Some,
{
}

/// A direct download begins with what it was asked for and nothing read, and its job is started
/// first.
pub proof fn download_begins_fresh(request: DirectRequest, download: DirectDownload)
    requires
        call_ensures(DirectDownload::new, (request,), download),
    ensures
        download.request@ == request@,
        download.written == 0,
        download.total == 0,
        forall|begun: &mut DirectDownload, first: Option<DirectAction>|
            begun@ == download@ && #[trigger] call_ensures(
                DirectDownload::step,
                (begun, DirectEvent::Begin),
                first,
            ) ==> first == Some(DirectAction::Report(JobUpdate::Started)),
{
}

} // verus!
