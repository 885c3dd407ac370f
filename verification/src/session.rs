//! A download with the download tool, from its start to the finished file.

use crate::files::{
    file_models, is_resolved, is_sorting_of, is_whole, list_files, resolve_completed_output,
    FileEntry, FileModel,
};
use crate::foreign::{self, finds_name};
use crate::job::JobUpdate;
use crate::names::{
    free_name_is_kept, is_base_name, is_first_free, is_unique_path, new_file_takes_free_path,
    parts_in, unique_path, FilePath, FilePathModel,
};
use crate::report::normalized_error;
use crate::text::{opt, same, step_outcome, trimmed, views};
use crate::tool::{
    collect_errors, download_arguments, error_text, is_given, is_meaning, lowers_failure, passes,
    progress_mark, read_line, tool_outcome, tool_result, ytdlp_args, Exit, LineEvent,
};
use vstd::prelude::*;

verus! {

/// What the tool is asked to load.
pub struct ToolRequest {
    /// The tool's binary.
    pub program: FilePath,
    /// The folder of the converter, where it is not the system's own.
    pub ffmpeg_dir: Option<String>,
    /// The folder that the tool works in.
    pub work_dir: String,
    /// The folder that the finished file goes to.
    pub final_dir: String,
    pub preset: String,
    pub referer: Option<String>,
    pub url: String,
    /// When the job began, in milliseconds.
    pub started_ms: u128,
}

/// The model of `ToolRequest`.
#[verifier::ext_equal]
pub struct ToolRequestModel {
    pub program: FilePathModel,
    pub ffmpeg_dir: Option<Seq<char>>,
    pub work_dir: Seq<char>,
    pub final_dir: Seq<char>,
    pub preset: Seq<char>,
    pub referer: Option<Seq<char>>,
    pub url: Seq<char>,
    pub started_ms: u128,
}

impl View for ToolRequest {
    type V = ToolRequestModel;

    open spec fn view(&self) -> ToolRequestModel {
        ToolRequestModel {
            program: self.program@,
            ffmpeg_dir: opt(self.ffmpeg_dir),
            work_dir: self.work_dir@,
            final_dir: self.final_dir@,
            preset: self.preset@,
            referer: opt(self.referer),
            url: self.url@,
            started_ms: self.started_ms,
        }
    }
}

/// What a download with the tool waits for.
#[derive(PartialEq, Eq, Structural, Clone, Copy)]
pub enum ToolStage {
    New,
    Starting,
    Spawning,
    Listening,
    Informing,
    Looking,
    Placing,
    Completing,
    Over,
}

/// What happened, in answer to the last action of a download with the tool.
pub enum ToolEvent {
    /// The job begins; `status` is that of the tool's binary.
    Begin { status: String },
    /// A report reached the job.
    Reported,
    /// The tool was started, with both its outputs readable or not.
    Spawned(Result<bool, String>),
    /// The tool wrote a line.
    Line(String),
    /// The tool ended; `stderr` is all that it wrote to its error output.
    Ended { canceled: bool, timed_out: bool, exit: Exit, stderr: Vec<u8> },
    /// Whether the file that the tool reported is there, and the files in the work folder.
    Seen { reported_exists: bool, files: Vec<FileEntry> },
    /// The finished file was moved to the given path.
    Moved(Result<String, String>),
}

/// What a download with the tool does next.
pub enum ToolAction {
    /// Take the job through a step.
    Report(JobUpdate),
    /// Start the tool with the given arguments.
    Spawn { program: FilePath, args: Vec<String> },
    /// Wait for the next line of the tool, or for its end.
    Listen,
    /// Look whether the reported file is there, and what files are in the given folder.
    Look { reported: Option<String>, dir: String },
    /// Move the finished file out of the work folder to a free path; there is none where every
    /// candidate is taken.
    Place { from: FilePath, to: Option<FilePath> },
    /// The download is over.
    Finish(Result<(), String>),
}

/// The state of a download with the tool.
pub struct ToolRun {
    pub request: ToolRequest,
    pub stage: ToolStage,
    /// The last file that the tool reported.
    pub reported: Option<String>,
    /// The name of the finished file in the work folder.
    pub produced: String,
}

/// The model of `ToolRun`.
#[verifier::ext_equal]
pub struct ToolModel {
    pub request: ToolRequestModel,
    pub stage: ToolStage,
    pub reported: Option<Seq<char>>,
    pub produced: Seq<char>,
}

impl View for ToolRun {
    type V = ToolModel;

    open spec fn view(&self) -> ToolModel {
        ToolModel {
            request: self.request@,
            stage: self.stage,
            reported: opt(self.reported),
            produced: self.produced@,
        }
    }
}

/// Whether `action` ends a download with the given error.
pub open spec fn ends_with_error(action: ToolAction, error: Seq<char>) -> bool {
    action matches ToolAction::Finish(r) && step_outcome(r) == Err::<(), Seq<char>>(error)
}

/// Whether `action` looks for the given file and into the given folder.
pub open spec fn looks_for(
    action: ToolAction,
    file: Option<Seq<char>>,
    folder: Seq<char>,
) -> bool {
    action matches ToolAction::Look { reported, dir } && opt(reported) == file && dir@ == folder
}

/// What is reported where the tool is not ready to be used.
pub open spec fn not_ready() -> Seq<char> {
    "The download engine is still preparing. Please wait a moment and try again."@
}

/// What the name of the finished file at `path` is, where `produced` was its name in the work
/// folder.
pub open spec fn is_final_name(path: Seq<char>, produced: Seq<char>, name: Seq<char>) -> bool {
    exists|n: Option<Seq<char>>| #[trigger]
        finds_name(path, n) && name == match n {
            Some(n) => n,
            None => produced,
        }
}

impl ToolModel {
    /// Whether an event answers the last action.
    pub open spec fn expects(self, event: ToolEvent) -> bool {
        match event {
            ToolEvent::Begin { .. } => self.stage == ToolStage::New,
            ToolEvent::Reported => {
                ||| self.stage == ToolStage::Starting
                ||| self.stage == ToolStage::Informing
                ||| self.stage == ToolStage::Completing
            },
            ToolEvent::Spawned(_) => self.stage == ToolStage::Spawning,
            ToolEvent::Line(_) => self.stage == ToolStage::Listening,
            ToolEvent::Ended { .. } => self.stage == ToolStage::Listening,
            ToolEvent::Seen { .. } => self.stage == ToolStage::Looking,
            ToolEvent::Moved(_) => self.stage == ToolStage::Placing,
        }
    }

    pub open spec fn at(self, stage: ToolStage) -> ToolModel {
        ToolModel { stage, ..self }
    }

    /// Whether a line that means `meaning` leads to the state `next` and to `action`.
    pub open spec fn hears(self, meaning: LineEvent, next: ToolModel, action: ToolAction) -> bool {
        match meaning {
            LineEvent::Step(update) => action == ToolAction::Report(update) && next == self.at(
                ToolStage::Informing,
            ),
            LineEvent::Output(path) => action == ToolAction::Listen && next == (ToolModel {
                reported: Some(path@),
                ..self
            }),
            LineEvent::Other => action == ToolAction::Listen && next == self,
        }
    }

    /// Whether what was found in the work folder leads to the state `next` and to `action`, where
    /// `exists_at` tells which paths are taken.
    pub open spec fn sees<F: Fn(&FilePath) -> bool>(
        self,
        exists_at: F,
        reported_exists: bool,
        files: Seq<FileModel>,
        next: ToolModel,
        action: ToolAction,
    ) -> bool {
        let found = |r: Result<Seq<char>, Seq<char>>|
            exists|sorted: Seq<FileModel>| #[trigger]
                is_sorting_of(sorted, files.filter(is_whole())) && is_resolved(
                    self.reported,
                    reported_exists,
                    sorted,
                    self.request.preset,
                    self.request.started_ms,
                    r,
                );
        match action {
            ToolAction::Place { from, to } => {
                &&& found(Ok(from@.name))
                &&& from@.dir == self.request.work_dir
                &&& is_unique_path(exists_at, self.request.final_dir, from@.name, to)
                &&& next == (ToolModel {
                    stage: ToolStage::Placing,
                    produced: from@.name,
                    ..self
                })
            },
            ToolAction::Finish(Err(e)) => found(Err(e@)) && next == self.at(ToolStage::Over),
            _ => false,
        }
    }

    /// Whether an event that answers the last action leads to the state `next` and to `action`,
    /// where `exists_at` tells which paths are taken.
    pub open spec fn steps<F: Fn(&FilePath) -> bool>(
        self,
        exists_at: F,
        event: ToolEvent,
        next: ToolModel,
        action: ToolAction,
    ) -> bool {
        match event {
            ToolEvent::Begin { status } => if status@ == "ready"@ {
                action == ToolAction::Report(JobUpdate::Started) && next == self.at(
                    ToolStage::Starting,
                )
            } else {
                ends_with_error(action, not_ready()) && next == self.at(ToolStage::Over)
            },
            ToolEvent::Reported => match self.stage {
                ToolStage::Starting => {
                    &&& next == self.at(ToolStage::Spawning)
                    &&& action matches ToolAction::Spawn { program, args }
                    &&& program@ == self.request.program
                    &&& views(args@) == download_arguments(
                        self.request.ffmpeg_dir,
                        self.request.work_dir,
                        self.request.preset,
                        self.request.referer,
                        self.request.url,
                    )
                },
                ToolStage::Informing => action == ToolAction::Listen && next == self.at(
                    ToolStage::Listening,
                ),
                _ => action == ToolAction::Finish(Ok(())) && next == self.at(ToolStage::Over),
            },
            ToolEvent::Spawned(r) => match r {
                Ok(readable) => if readable {
                    action == ToolAction::Listen && next == self.at(ToolStage::Listening)
                } else {
                    ends_with_error(action, "Could not read yt-dlp output."@) && next == self.at(
                        ToolStage::Over,
                    )
                },
                Err(e) => ends_with_error(action, "Failed to start yt-dlp: "@ + e@) && next
                    == self.at(ToolStage::Over),
            },
            ToolEvent::Line(line) => exists|meaning: LineEvent| #[trigger]
                is_meaning(line@, meaning) && self.hears(meaning, next, action),
            ToolEvent::Ended { canceled, timed_out, exit, stderr } => {
                &&& match tool_result(canceled, timed_out, exit, error_text(stderr@)) {
                    Ok(()) => looks_for(action, self.reported, self.request.work_dir) && next
                        == self.at(ToolStage::Looking),
                    Err(e) => ends_with_error(action, e) && next == self.at(ToolStage::Over),
                }
                &&& lowers_failure(canceled, timed_out, exit, error_text(stderr@))
            },
            ToolEvent::Seen { reported_exists, files } => self.sees(
                exists_at,
                reported_exists,
                file_models(files@),
                next,
                action,
            ),
            ToolEvent::Moved(r) => match r {
                Ok(path) => {
                    &&& next == self.at(ToolStage::Completing)
                    &&& action matches ToolAction::Report(JobUpdate::Done { name, path: p })
                    &&& p@ == path@
                    &&& is_final_name(path@, self.produced, name@)
                },
                Err(e) => ends_with_error(action, "Could not save the finished file: "@ + e@)
                    && next == self.at(ToolStage::Over),
            },
        }
    }
}

/// The state of a download with the tool before it begins.
pub open spec fn fresh(request: ToolRequestModel) -> ToolModel {
    ToolModel { request, stage: ToolStage::New, reported: None, produced: Seq::empty() }
}

impl ToolRun {
    /// The state of a download with the tool before it begins.
    pub fn new(request: ToolRequest) -> (r: ToolRun)
        ensures
            r@ == fresh(request@),
    {
        let r = ToolRun { request, stage: ToolStage::New, reported: None, produced: String::new() };
        assert(r@.produced =~= Seq::<char>::empty());
        r
    }

    /// Whether an event answers the last action.
    fn is_due(&self, event: &ToolEvent) -> (r: bool)
        ensures
            r == self@.expects(*event),
    {
        match event {
            ToolEvent::Begin { .. } => self.stage == ToolStage::New,
            ToolEvent::Reported => self.stage == ToolStage::Starting || self.stage
                == ToolStage::Informing || self.stage == ToolStage::Completing,
            ToolEvent::Spawned(_) => self.stage == ToolStage::Spawning,
            ToolEvent::Line(_) => self.stage == ToolStage::Listening,
            ToolEvent::Ended { .. } => self.stage == ToolStage::Listening,
            ToolEvent::Seen { .. } => self.stage == ToolStage::Looking,
            ToolEvent::Moved(_) => self.stage == ToolStage::Placing,
        }
    }

    fn fail(&mut self, error: String) -> (r: ToolAction)
        ensures
            final(self)@ == old(self)@.at(ToolStage::Over),
            r == ToolAction::Finish(Err(error)),
    {
        self.stage = ToolStage::Over;
        ToolAction::Finish(Err(error))
    }

    fn go(&mut self, stage: ToolStage, action: ToolAction) -> (r: ToolAction)
        ensures
            final(self)@ == old(self)@.at(stage),
            r == action,
    {
        self.stage = stage;
        action
    }

    fn hear(&mut self, line: &str) -> (r: ToolAction)
        ensures
            exists|meaning: LineEvent| #[trigger]
                is_meaning(line@, meaning) && old(self)@.hears(meaning, final(self)@, r),
    {
        let meaning = read_line(line);
        let ghost m = meaning;
        assert(is_meaning(line@, m));
        match meaning {
            LineEvent::Step(update) => self.go(ToolStage::Informing, ToolAction::Report(update)),
            LineEvent::Output(path) => {
                self.reported = Some(path);
                ToolAction::Listen
            },
            LineEvent::Other => ToolAction::Listen,
        }
    }

    fn see<F: Fn(&FilePath) -> bool>(
        &mut self,
        exists_at: &F,
        reported_exists: bool,
        files: Vec<FileEntry>,
    ) -> (r: ToolAction)
        requires
            forall|p: &FilePath| call_requires(*exists_at, (p,)),
        ensures
            old(self)@.sees(*exists_at, reported_exists, file_models(files@), final(self)@, r),
    {
        let ghost given = file_models(files@);
        let sorted = list_files(files);
        let reported = match &self.reported {
            Some(path) => Some(path.as_str()),
            None => None,
        };
        let resolved = resolve_completed_output(
            reported,
            reported_exists,
            &sorted,
            self.request.preset.as_str(),
            self.request.started_ms,
        );
        assert(is_sorting_of(file_models(sorted@), given.filter(is_whole())));
        match resolved {
            Ok(name) => {
                let to = unique_path(self.request.final_dir.as_str(), name.as_str(), exists_at);
                self.produced = name.clone();
                let from = FilePath { dir: self.request.work_dir.clone(), name };
                self.go(ToolStage::Placing, ToolAction::Place { from, to })
            },
            Err(e) => self.fail(e),
        }
    }

    fn complete(&mut self, path: String) -> (r: ToolAction)
        ensures
            final(self)@ == old(self)@.at(ToolStage::Completing),
            r matches ToolAction::Report(JobUpdate::Done { name, path: p }) && p@ == path@
                && is_final_name(path@, old(self)@.produced, name@),
    {
        let found = foreign::name_in(path.as_str());
        assert(finds_name(path@, opt(found)));
        let name = match found {
            Some(n) => n,
            None => self.produced.clone(),
        };
        self.go(ToolStage::Completing, ToolAction::Report(JobUpdate::Done { name, path }))
    }

    /// Takes an event in and returns what to do next, where `exists_at` tells which paths are
    /// taken. An event that does not answer the last action changes nothing and is followed by
    /// nothing.
    pub fn step<F: Fn(&FilePath) -> bool>(&mut self, event: ToolEvent, exists_at: &F) -> (r: Option<
        ToolAction,
    >)
        requires
            forall|p: &FilePath| call_requires(*exists_at, (p,)),
        ensures
            match r {
                Some(action) => old(self)@.expects(event) && old(self)@.steps(
                    *exists_at,
                    event,
                    final(self)@,
                    action,
                ),
                None => !old(self)@.expects(event) && final(self)@ == old(self)@,
            },
    {
        if !self.is_due(&event) {
            return None;
        }
        let action = match event {
            ToolEvent::Begin { status } => if same(status.as_str(), "ready") {
                self.go(ToolStage::Starting, ToolAction::Report(JobUpdate::Started))
            } else {
                self.fail(
                    String::from_str(
                        "The download engine is still preparing. Please wait a moment and try again.",
                    ),
                )
            },
            ToolEvent::Reported => match self.stage {
                ToolStage::Starting => {
                    let args = ytdlp_args(
                        &self.request.ffmpeg_dir,
                        self.request.work_dir.as_str(),
                        self.request.preset.as_str(),
                        &self.request.referer,
                        self.request.url.as_str(),
                    );
                    let program = self.request.program.clone();
                    self.go(ToolStage::Spawning, ToolAction::Spawn { program, args })
                },
                ToolStage::Informing => self.go(ToolStage::Listening, ToolAction::Listen),
                _ => self.go(ToolStage::Over, ToolAction::Finish(Ok(()))),
            },
            ToolEvent::Spawned(r) => match r {
                Ok(readable) => if readable {
                    self.go(ToolStage::Listening, ToolAction::Listen)
                } else {
                    self.fail(String::from_str("Could not read yt-dlp output."))
                },
                Err(e) => self.fail(String::from_str("Failed to start yt-dlp: ").concat(e.as_str())),
            },
            ToolEvent::Line(line) => self.hear(line.as_str()),
            ToolEvent::Ended { canceled, timed_out, exit, stderr } => {
                let errors = collect_errors(&stderr);
                match tool_outcome(canceled, timed_out, exit, errors.as_str()) {
                    Ok(()) => {
                        let reported = self.reported.clone();
                        let dir = self.request.work_dir.clone();
                        self.go(ToolStage::Looking, ToolAction::Look { reported, dir })
                    },
                    Err(e) => self.fail(e),
                }
            },
            ToolEvent::Seen { reported_exists, files } => self.see(
                exists_at,
                reported_exists,
                files,
            ),
            ToolEvent::Moved(r) => match r {
                Ok(path) => self.complete(path),
                Err(e) => self.fail(
                    String::from_str("Could not save the finished file: ").concat(e.as_str()),
                ),
            },
        };
        Some(action)
    }
}

/// A run of a download with the tool: the states it goes through, the event that ends each, and
/// the action that follows; `looks` tell which paths are taken at each step.
pub open spec fn is_run<F: Fn(&FilePath) -> bool>(
    looks: Seq<F>,
    states: Seq<ToolModel>,
    events: Seq<ToolEvent>,
    actions: Seq<ToolAction>,
) -> bool {
    &&& looks.len() == events.len()
    &&& states.len() == events.len() + 1
    &&& actions.len() == events.len()
    &&& states[0].stage == ToolStage::New
    &&& states[0].reported is None
    &&& forall|i: int|
        0 <= i < events.len() ==> (#[trigger] states[i]).expects(events[i]) && states[i].steps(
            looks[i],
            events[i],
            states[i + 1],
            actions[i],
        )
}

/// The file that a line names, where it is neither a progress report nor in brackets.
pub open spec fn plain_line(line: Seq<char>) -> Option<Seq<char>> {
    if progress_mark().is_prefix_of(line) || trimmed(line).len() == 0 || trimmed(line)[0] == '[' {
        None
    } else {
        Some(trimmed(line))
    }
}

/// The file that the last plain line of a row of events names.
pub open spec fn last_plain_line(events: Seq<ToolEvent>) -> Option<Seq<char>>
    decreases events.len(),
{
    if events.len() == 0 {
        None
    } else {
        match events.last() {
            ToolEvent::Line(line) if plain_line(line@) is Some => plain_line(line@),
            _ => last_plain_line(events.drop_last()),
        }
    }
}

/// The file that counts as reported by the tool is the one that its last plain line names.
pub proof fn last_plain_line_counts<F: Fn(&FilePath) -> bool>(
    looks: Seq<F>,
    states: Seq<ToolModel>,
    events: Seq<ToolEvent>,
    actions: Seq<ToolAction>,
)
    requires
        is_run(looks, states, events, actions),
    ensures
        states.last().reported == last_plain_line(events),
    decreases events.len(),
{
    if events.len() > 0 {
        let n = events.len() - 1;
        assert(is_run(
            looks.drop_last(),
            states.drop_last(),
            events.drop_last(),
            actions.drop_last(),
        )) by {
            assert forall|i: int| 0 <= i < n implies (#[trigger] states.drop_last()[i]).expects(
                events.drop_last()[i],
            ) && states.drop_last()[i].steps(
                looks.drop_last()[i],
                events.drop_last()[i],
                states.drop_last()[i + 1],
                actions.drop_last()[i],
            ) by {
                assert(states[i].expects(events[i]));
            }
        }
        last_plain_line_counts(
            looks.drop_last(),
            states.drop_last(),
            events.drop_last(),
            actions.drop_last(),
        );
        assert(states[n].expects(events[n]));
        reveal_strlit("[ExtractAudio]");
        reveal_strlit("[VideoConvertor]");
        reveal_strlit("[VideoRemuxer]");
        reveal_strlit("[Merger]");
        if let ToolEvent::Line(line) = events[n] {
            let t = trimmed(line@);
            let meaning = choose|meaning: LineEvent| #[trigger]
                is_meaning(line@, meaning) && states[n].hears(meaning, states[n + 1], actions[n]);
            assert(is_meaning(line@, meaning));
            assert("[ExtractAudio]"@[0] == '[');
            assert("[VideoConvertor]"@[0] == '[');
            assert("[VideoRemuxer]"@[0] == '[');
            assert("[Merger]"@[0] == '[');
        }
    }
}

/// The tool is started only where its binary is ready, and a download with it succeeds only
/// after the finished file was moved to its place.
pub proof fn success_needs_finished_file<F: Fn(&FilePath) -> bool>(
    looks: Seq<F>,
    states: Seq<ToolModel>,
    events: Seq<ToolEvent>,
    actions: Seq<ToolAction>,
    at: int,
)
    requires
        is_run(looks, states, events, actions),
        0 <= at < events.len(),
    ensures
        actions[at] is Spawn ==> exists|i: int|
            0 <= i < at && (#[trigger] events[i] matches ToolEvent::Begin { status } && status@
                == "ready"@),
        actions[at] == ToolAction::Finish(Ok(())) ==> exists|i: int|
            0 <= i < at && #[trigger] events[i] matches ToolEvent::Moved(Ok(_)),
{
    lemma_past(looks, states, events, actions, at);
    assert(states[at].expects(events[at]));
    if let ToolEvent::Line(line) = events[at] {
        let meaning = choose|meaning: LineEvent| #[trigger]
            is_meaning(line@, meaning) && states[at].hears(meaning, states[at + 1], actions[at]);
    }
}

proof fn lemma_past<F: Fn(&FilePath) -> bool>(
    looks: Seq<F>,
    states: Seq<ToolModel>,
    events: Seq<ToolEvent>,
    actions: Seq<ToolAction>,
    at: int,
)
    requires
        is_run(looks, states, events, actions),
        0 <= at < states.len(),
    ensures
        states[at].stage == ToolStage::Starting ==> exists|i: int|
            0 <= i < at && (#[trigger] events[i] matches ToolEvent::Begin { status } && status@
                == "ready"@),
        states[at].stage == ToolStage::Completing ==> exists|i: int|
            0 <= i < at && #[trigger] events[i] matches ToolEvent::Moved(Ok(_)),
    decreases at,
{
    if at > 0 {
        lemma_past(looks, states, events, actions, at - 1);
        let last = events[at - 1];
        assert(states[at - 1].expects(last));
        if let ToolEvent::Line(line) = last {
            let meaning = choose|meaning: LineEvent| #[trigger]
                is_meaning(line@, meaning) && states[at - 1].hears(
                    meaning,
                    states[at],
                    actions[at - 1],
                );
        }
    }
}

/// A finished file never takes the place of another: it leaves the work folder for the folder that
/// it goes to, and the path there is free where `exists_at` tells which paths are taken.
pub proof fn placed_file_replaces_none<F: Fn(&FilePath) -> bool>(
    run: ToolModel,
    exists_at: F,
    taken: spec_fn(FilePathModel) -> bool,
    event: ToolEvent,
    next: ToolModel,
    action: ToolAction,
)
    requires
        forall|p: FilePath, b: bool| #[trigger]
            call_ensures(exists_at, (&p,), b) ==> b == taken(p@),
        run.expects(event),
        run.steps(exists_at, event, next, action),
    ensures
        action matches ToolAction::Place { from, to } ==> {
            &&& from@ == (FilePathModel { dir: run.request.work_dir, name: next.produced })
            &&& to matches Some(p) ==> p@.dir == run.request.final_dir && !taken(p@)
        },
{
    if let ToolAction::Place { from, to } = action {
        if let ToolEvent::Line(line) = event {
            let meaning = choose|meaning: LineEvent| #[trigger]
                is_meaning(line@, meaning) && run.hears(meaning, next, action);
        } else {
            new_file_takes_free_path(exists_at, taken, run.request.final_dir, from@.name, to);
            assert(from@ =~= FilePathModel { dir: run.request.work_dir, name: next.produced });
        }
    }
}

/// Whatever happened, what a download with the tool does next concerns its own request: its binary
/// is started for its link, format and work folder, that folder is searched, the finished file
/// moves from there to the folder that was named, and its path there is what is reported.
pub proof fn tool_actions_concern_request<F: Fn(&FilePath) -> bool>(
    run: &mut ToolRun,
    event: ToolEvent,
    exists_at: &F,
    r: Option<ToolAction>,
)
    requires
        call_ensures(ToolRun::step::<F>, (run, event, exists_at), r),
    ensures
        final(run).request@ == old(run).request@,
        r matches Some(action) ==> {
            let request = old(run).request;
            match action {
                ToolAction::Spawn { program, args } => {
                    let a = views(args@);
                    &&& program@ == request.program@
                    &&& a.last() == request.url@
                    &&& passes(a, "-P"@, request.work_dir@)
                    &&& request.preset@ == "mp4"@ ==> passes(a, "--merge-output-format"@, "mp4"@)
                    &&& request.preset@ != "mp4"@ ==> passes(
                        a,
                        "--audio-format"@,
                        request.preset@,
                    )
                    &&& opt(request.ffmpeg_dir) matches Some(dir) ==> passes(
                        a,
                        "--ffmpeg-location"@,
                        dir,
                    )
                    &&& is_given(opt(request.referer)) ==> passes(
                        a,
                        "--referer"@,
                        opt(request.referer)->0,
                    )
                },
                ToolAction::Look { reported, dir } => dir@ == request.work_dir@ && opt(reported)
                    == opt(old(run).reported),
                ToolAction::Place { from, to } => {
                    &&& event is Seen
                    &&& from.dir@ == request.work_dir@
                    &&& from.name@ == final(run).produced@
                    &&& to matches Some(p) ==> p.dir@ == request.final_dir@
                },
                ToolAction::Report(JobUpdate::Done { name, path }) => {
                    &&& event matches ToolEvent::Moved(Ok(p)) && p@ == path@
                    &&& is_final_name(path@, old(run).produced@, name@)
                },
                _ => true,
            }
        },
{
    if let ToolEvent::Line(line) = event {
        if r is Some {
            let meaning = choose|meaning: LineEvent| #[trigger]
                is_meaning(line@, meaning) && old(run)@.hears(meaning, final(run)@, r->0);
        }
    }
    if let Some(ToolAction::Spawn { program, args }) = r {
        let request = old(run).request;
        let a = views(args@);
        let k: int = if request.ffmpeg_dir is Some {
            12
        } else {
            10
        };
        let m: int = if request.preset@ == "mp4"@ {
            k + 12
        } else {
            k + 13
        };
        assert(request.ffmpeg_dir is Some ==> a[10] == "--ffmpeg-location"@);
        assert(a[k] == "-P"@);
        assert(request.preset@ == "mp4"@ ==> a[k + 10] == "--merge-output-format"@);
        assert(request.preset@ != "mp4"@ ==> a[k + 9] == "--audio-format"@);
        assert(is_given(opt(request.referer)) ==> a[m] == "--referer"@);
    }
    if let Some(ToolAction::Place { from, to }) = r {
        assert(event is Seen);
        if let Some(p) = to {
            let name = choose|name: Option<Seq<char>>| #[trigger]
                finds_name(from@.name, name) && is_first_free(
                    *exists_at,
                    old(run).request.final_dir@,
                    from@.name,
                    parts_in(from@.name, name),
                    to,
                );
            assert(p@.dir == old(run).request.final_dir@);
        }
    }
}

/// The file that counts as the tool's is the one that its last plain line named: such a line
/// replaces it by what the line says without the blanks around it, and nothing else changes it.
pub proof fn reported_file_is_the_last<F: Fn(&FilePath) -> bool>(
    run: &mut ToolRun,
    event: ToolEvent,
    exists_at: &F,
    r: Option<ToolAction>,
)
    requires
        call_ensures(ToolRun::step::<F>, (run, event, exists_at), r),
    ensures
        opt(final(run).reported) == (match event {
            ToolEvent::Line(line) => if r is Some && !"@@SIPHON@@"@.is_prefix_of(line@) && trimmed(
                line@,
            ).len() > 0 && trimmed(line@)[0] != '[' {
                Some(trimmed(line@))
            } else {
                opt(old(run).reported)
            },
            _ => opt(old(run).reported),
        }),
        event matches ToolEvent::Line(line) ==> r is Some ==> ("@@SIPHON@@"@.is_prefix_of(line@)
            <==> (r->0 matches ToolAction::Report(u) && u is Progress)),
{
    if let ToolEvent::Line(line) = event {
        if r is Some {
            let meaning = choose|meaning: LineEvent| #[trigger]
                is_meaning(line@, meaning) && old(run)@.hears(meaning, final(run)@, r->0);
            reveal_strlit("[ExtractAudio]");
            reveal_strlit("[VideoConvertor]");
            reveal_strlit("[VideoRemuxer]");
            reveal_strlit("[Merger]");
            assert("[ExtractAudio]"@[0] == '[');
            assert("[VideoConvertor]"@[0] == '[');
            assert("[VideoRemuxer]"@[0] == '[');
            assert("[Merger]"@[0] == '[');
        }
    }
}

/// A download with the tool fails for what went wrong: the tool was not ready, could not be started
/// or read, failed or was ended, left no finished file, or that could not be moved. It succeeds only
/// in answer to the report that the file is in place.
pub proof fn tool_download_fails_for_a_reason<F: Fn(&FilePath) -> bool>(
    run: &mut ToolRun,
    event: ToolEvent,
    exists_at: &F,
    r: Option<ToolAction>,
)
    requires
        call_ensures(ToolRun::step::<F>, (run, event, exists_at), r),
        r is Some,
    ensures
        (r->0 is Finish) <==> final(run).stage == ToolStage::Over,
        (r->0 matches ToolAction::Finish(Ok(u))) ==> event is Reported && old(run).stage
            == ToolStage::Completing,
        event is Reported || event is Line ==> !(r->0 matches ToolAction::Finish(Err(e))),
        event matches ToolEvent::Begin { status } ==> {
            &&& status@ == "ready"@ ==> r->0 == ToolAction::Report(JobUpdate::Started)
            &&& status@ != "ready"@ ==> ends_with_error(
                r->0,
                "The download engine is still preparing. Please wait a moment and try again."@,
            )
        },
        event matches ToolEvent::Spawned(started) ==> match started {
            Ok(readable) => if readable {
                r->0 == ToolAction::Listen
            } else {
                ends_with_error(r->0, "Could not read yt-dlp output."@)
            },
            Err(e) => ends_with_error(r->0, "Failed to start yt-dlp: "@ + e@),
        },
        event matches ToolEvent::Ended { canceled, timed_out, exit, stderr } ==> {
            &&& r->0 is Look <==> !canceled && !timed_out && (exit matches Exit::Ended {
                success,
                code,
            } && success)
            &&& !(r->0 is Look) ==> r->0 is Finish
            &&& canceled ==> ends_with_error(r->0, "__SIPHON_CANCELED__"@)
            &&& !canceled && timed_out ==> ends_with_error(
                r->0,
                "The source stopped responding. Try a different URL or try again."@,
            )
            &&& !canceled && !timed_out ==> (exit matches Exit::Ended { success, code } ==> !success
                && trimmed(error_text(stderr@)).len() > 0 ==> ends_with_error(
                r->0,
                normalized_error(error_text(stderr@)),
            ))
        },
        event matches ToolEvent::Moved(moved) ==> match moved {
            Ok(path) => (r->0 matches ToolAction::Report(u) && u is Done),
            Err(e) => ends_with_error(r->0, "Could not save the finished file: "@ + e@),
        },
        event is Seen ==> r->0 is Place || r->0 is Finish,
        event matches ToolEvent::Seen { reported_exists, files } ==> (opt(
            old(run).reported,
        ) matches Some(path) ==> reported_exists ==> (r->0 matches ToolAction::Place { from, to }
            && is_base_name(path, from.name@))),
{
    if let ToolEvent::Line(line) = event {
        let meaning = choose|meaning: LineEvent| #[trigger]
            is_meaning(line@, meaning) && old(run)@.hears(meaning, final(run)@, r->0);
    }
}

/// A download with the tool never gets stuck: whatever it asks to be done, each of the ways in
/// which that can end is what it waits for then; and an event out of turn changes nothing.
pub proof fn every_tool_action_is_answered<F: Fn(&FilePath) -> bool>(
    run: &mut ToolRun,
    event: ToolEvent,
    exists_at: &F,
    r: Option<ToolAction>,
    answer: ToolEvent,
)
    requires
        call_ensures(ToolRun::step::<F>, (run, event, exists_at), r),
        r matches Some(action) ==> match action {
            ToolAction::Report(_) => answer is Reported,
            ToolAction::Spawn { .. } => answer is Spawned,
            ToolAction::Listen => answer is Line || answer is Ended,
            ToolAction::Look { .. } => answer is Seen,
            ToolAction::Place { .. } => answer is Moved,
            ToolAction::Finish(_) => false,
        },
    ensures
        r is None ==> final(run)@ == old(run)@,
        r is Some ==> forall|later: &mut ToolRun, next: Option<ToolAction>|
            later@ == final(run)@ && #[trigger] call_ensures(
                ToolRun::step::<F>,
                (later, answer, exists_at),
                next,
            ) ==> next is Some,
{
    if let ToolEvent::Line(line) = event {
        if r is Some {
            let meaning = choose|meaning: LineEvent| #[trigger]
                is_meaning(line@, meaning) && old(run)@.hears(meaning, final(run)@, r->0);
        }
    }
}

/// A finished file keeps the name that it has in the work folder where that name is free in the
/// folder that it goes to.
pub proof fn placed_file_keeps_its_name<F: Fn(&FilePath) -> bool>(
    run: &mut ToolRun,
    event: ToolEvent,
    exists_at: &F,
    taken: spec_fn(FilePathModel) -> bool,
    r: Option<ToolAction>,
)
    requires
        forall|p: FilePath, b: bool| #[trigger]
            call_ensures(*exists_at, (&p,), b) ==> b == taken(p@),
        call_ensures(ToolRun::step::<F>, (run, event, exists_at), r),
    ensures
        r matches Some(ToolAction::Place { from, to }) ==> {
            &&& to matches Some(p) ==> !taken(p@) && p.dir@ == old(run).request.final_dir@
            &&& !taken(FilePathModel { dir: old(run).request.final_dir@, name: from.name@ }) ==> (
            to matches Some(p) && p.name@ == from.name@)
        },
{
    if let Some(ToolAction::Place { from, to }) = r {
        if let ToolEvent::Line(line) = event {
            let meaning = choose|meaning: LineEvent| #[trigger]
                is_meaning(line@, meaning) && old(run)@.hears(meaning, final(run)@, r->0);
        } else {
            let dir = old(run).request.final_dir@;
            new_file_takes_free_path(*exists_at, taken, dir, from@.name, to);
            if !taken(FilePathModel { dir, name: from.name@ }) {
                free_name_is_kept(*exists_at, taken, dir, from@.name, to);
            }
        }
    }
}

/// A download with the tool begins with what it was asked for, and with nothing reported.
pub proof fn tool_run_begins_fresh(request: ToolRequest, run: ToolRun)
    requires
        call_ensures(ToolRun::new, (request,), run),
    ensures
        run.request@ == request@,
        run.reported is None,
        run.stage == ToolStage::New,
{
}

} // verus!
