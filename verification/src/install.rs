//! Getting the binaries: the download tool, and the converter with its companion.

use crate::archive::{
    both_binaries, extract_single_binary, fetch_ffmpeg_windows, is_writing,
    only_binaries_are_written, single_binary, write_models, Extraction, ExtractionModel, FileWrite,
    WriteModel,
};
use crate::checksum::{archive_verdict, asset_verdict, reply_view, verify_archive, verify_asset};
use crate::engine::{
    broken, downloading, ready, run_version, tool_source, version_of, yt_dlp_source, BinaryStatus,
    EngineModel, EngineState, Platform, Program, ProgramModel, Ran, StatusModel,
};
use crate::names::{FilePath, FilePathModel};
use crate::number::{decimal, is_number, lemma_decimal, value_of};
use crate::report::http_status_error;
use crate::text::{opt, step_outcome};
use vstd::prelude::*;

verus! {

/// What a request for bytes came to.
pub enum Reply {
    /// No client for requests could be made.
    NoClient(String),
    /// The request could not be sent.
    NoAnswer(String),
    /// The server answered with the given error status.
    Refused(u16),
    /// The server answered, and the bytes were read or not.
    Body(Result<Vec<u8>, String>),
}

/// The bytes that a request brought, or why there are none.
pub open spec fn bytes_of(reply: Reply) -> Result<Seq<u8>, Seq<char>> {
    match reply {
        Reply::NoClient(e) => Err(e@),
        Reply::NoAnswer(e) => Err("Download failed: "@ + e@),
        Reply::Refused(code) => Err("Download failed: HTTP "@ + decimal(code as nat)),
        Reply::Body(Ok(bytes)) => Ok(bytes@),
        Reply::Body(Err(e)) => Err(e@),
    }
}

/// The bytes that a request brought, or why there are none.
pub fn download_bytes(reply: Reply) -> (r: Result<Vec<u8>, String>)
    ensures
        reply_view(r) == bytes_of(reply),
{
    match reply {
        Reply::NoClient(e) => Err(e),
        Reply::NoAnswer(e) => Err(String::from_str("Download failed: ").concat(e.as_str())),
        Reply::Refused(code) => Err(http_status_error(code)),
        Reply::Body(body) => body,
    }
}

/// Where the list of the download tool's checksums is.
pub open spec fn sums_url() -> Seq<char> {
    "https://github.com/yt-dlp/yt-dlp/releases/latest/download/SHA2-256SUMS"@
}

/// What getting the download tool waits for.
#[derive(PartialEq, Eq, Structural, Clone, Copy)]
pub enum YtStage {
    New,
    Looking,
    Announcing,
    Fetching,
    Checking,
    Writing,
    Trying,
    Over,
}

/// What happened, in answer to the last action of getting the download tool.
pub enum YtEvent {
    Begin,
    /// Whether the file that was looked for is there.
    Looked(bool),
    /// The new status was shown.
    Announced,
    Fetched(Reply),
    Wrote(Result<(), String>),
    /// The tool was run for its version.
    Tried(Option<Ran>),
}

/// What getting the download tool does next.
pub enum YtAction {
    /// Look whether a file is there.
    Look(FilePath),
    /// Show the new status.
    Announce,
    /// Get the bytes at a link.
    Fetch(String),
    /// Write bytes to a file, and make it executable.
    Write(FileWrite),
    /// Run a program with an argument, for its version.
    Try { program: Program, arg: String },
    /// It is over: show the new status.
    Stop,
}

/// The state of getting the download tool.
pub struct YtInstall {
    pub stage: YtStage,
    /// The bytes that were got.
    pub bytes: Vec<u8>,
}

/// The model of `YtInstall`.
#[verifier::ext_equal]
pub struct YtModel {
    pub stage: YtStage,
    pub bytes: Seq<u8>,
}

impl View for YtInstall {
    type V = YtModel;

    open spec fn view(&self) -> YtModel {
        YtModel { stage: self.stage, bytes: self.bytes@ }
    }
}

/// Whether an action looks for a file.
pub open spec fn looks(action: YtAction, path: FilePathModel) -> bool {
    action matches YtAction::Look(p) && p@ == path
}

/// Whether an action runs the tool in a file for its version.
pub open spec fn runs_tool(action: YtAction, path: FilePathModel) -> bool {
    action matches YtAction::Try { program, arg } && program@ == ProgramModel::At(path) && arg@
        == "--version"@
}

/// Whether an action gets the bytes at a link.
pub open spec fn fetches(action: YtAction, url: Seq<char>) -> bool {
    action matches YtAction::Fetch(u) && u@ == url
}

impl YtModel {
    /// Whether an event answers the last action.
    pub open spec fn expects(self, event: YtEvent) -> bool {
        match event {
            YtEvent::Begin => self.stage == YtStage::New,
            YtEvent::Looked(_) => self.stage == YtStage::Looking,
            YtEvent::Announced => self.stage == YtStage::Announcing,
            YtEvent::Fetched(_) => self.stage == YtStage::Fetching || self.stage
                == YtStage::Checking,
            YtEvent::Wrote(_) => self.stage == YtStage::Writing,
            YtEvent::Tried(_) => self.stage == YtStage::Trying,
        }
    }

    pub open spec fn at(self, stage: YtStage) -> YtModel {
        YtModel { stage, ..self }
    }

    /// Whether getting the tool ends with the given status.
    pub open spec fn ends(
        self,
        engine: EngineModel,
        status: StatusModel,
        next: YtModel,
        after: EngineModel,
        action: YtAction,
    ) -> bool {
        action == YtAction::Stop && next == self.at(YtStage::Over) && after == engine.with_yt(
            status,
        )
    }

    /// Whether an event that answers the last action leads to the states `next` and `after` and to
    /// `action`.
    pub open spec fn steps(
        self,
        engine: EngineModel,
        event: YtEvent,
        next: YtModel,
        after: EngineModel,
        action: YtAction,
    ) -> bool {
        match event {
            YtEvent::Begin => looks(action, engine.binary("yt-dlp"@)) && next == self.at(
                YtStage::Looking,
            ) && after == engine,
            YtEvent::Looked(exists) => if exists {
                runs_tool(action, engine.binary("yt-dlp"@)) && next == self.at(YtStage::Trying)
                    && after == engine
            } else {
                action == YtAction::Announce && next == self.at(YtStage::Announcing) && after
                    == engine.with_yt(downloading())
            },
            YtEvent::Announced => fetches(action, tool_source(engine.platform).0) && next
                == self.at(YtStage::Fetching) && after == engine,
            YtEvent::Fetched(reply) => if self.stage == YtStage::Fetching {
                match bytes_of(reply) {
                    Ok(bytes) => fetches(action, sums_url()) && next == (YtModel {
                        stage: YtStage::Checking,
                        bytes,
                    }) && after == engine,
                    Err(e) => self.ends(engine, broken(e), next, after, action),
                }
            } else {
                match asset_verdict(
                    self.bytes,
                    bytes_of(reply),
                    tool_source(engine.platform).1,
                ) {
                    Ok(()) => (action matches YtAction::Write(write) && write@ == (WriteModel {
                        path: engine.binary("yt-dlp"@),
                        bytes: self.bytes,
                    })) && next == self.at(YtStage::Writing) && after == engine,
                    Err(e) => self.ends(engine, broken(e), next, after, action),
                }
            },
            YtEvent::Wrote(r) => match r {
                Ok(()) => runs_tool(action, engine.binary("yt-dlp"@)) && next == self.at(
                    YtStage::Trying,
                ) && after == engine,
                Err(e) => self.ends(engine, broken(e@), next, after, action),
            },
            YtEvent::Tried(ran) => match version_of(ran) {
                Some(version) => self.ends(engine, ready(version), next, after, action),
                None => self.ends(
                    engine,
                    broken("yt-dlp downloaded but failed to run."@),
                    next,
                    after,
                    action,
                ),
            },
        }
    }
}

impl YtInstall {
    /// The state before the download tool is looked for.
    pub fn new() -> (r: YtInstall)
        ensures
            r@ == (YtModel { stage: YtStage::New, bytes: Seq::empty() }),
    {
        YtInstall { stage: YtStage::New, bytes: Vec::new() }
    }

    /// Whether an event answers the last action.
    fn is_due(&self, event: &YtEvent) -> (r: bool)
        ensures
            r == self@.expects(*event),
    {
        match event {
            YtEvent::Begin => self.stage == YtStage::New,
            YtEvent::Looked(_) => self.stage == YtStage::Looking,
            YtEvent::Announced => self.stage == YtStage::Announcing,
            YtEvent::Fetched(_) => self.stage == YtStage::Fetching || self.stage
                == YtStage::Checking,
            YtEvent::Wrote(_) => self.stage == YtStage::Writing,
            YtEvent::Tried(_) => self.stage == YtStage::Trying,
        }
    }

    fn go(&mut self, stage: YtStage, action: YtAction) -> (r: YtAction)
        ensures
            final(self)@ == old(self)@.at(stage),
            r == action,
    {
        self.stage = stage;
        action
    }

    fn try_tool(&mut self, engine: &EngineState) -> (r: YtAction)
        ensures
            final(self)@ == old(self)@.at(YtStage::Trying),
            runs_tool(r, engine@.binary("yt-dlp"@)),
    {
        self.stage = YtStage::Trying;
        YtAction::Try {
            program: Program::At(engine.yt_dlp_path()),
            arg: String::from_str("--version"),
        }
    }

    fn end(&mut self, engine: &mut EngineState, status: BinaryStatus) -> (r: YtAction)
        ensures
            old(self)@.ends(old(engine)@, status@, final(self)@, final(engine)@, r),
    {
        engine.set_yt(status);
        self.stage = YtStage::Over;
        YtAction::Stop
    }

    /// Takes an event in, notes how the tool stands, and returns what to do next. An event that
    /// does not answer the last action changes nothing and is followed by nothing.
    pub fn ensure_yt_dlp(&mut self, engine: &mut EngineState, event: YtEvent) -> (r: Option<
        YtAction,
    >)
        ensures
            match r {
                Some(action) => old(self)@.expects(event) && old(self)@.steps(
                    old(engine)@,
                    event,
                    final(self)@,
                    final(engine)@,
                    action,
                ),
                None => !old(self)@.expects(event) && final(self)@ == old(self)@ && final(engine)@
                    == old(engine)@,
            },
    {
        if !self.is_due(&event) {
            return None;
        }
        let action = match event {
            YtEvent::Begin => {
                let path = engine.yt_dlp_path();
                self.go(YtStage::Looking, YtAction::Look(path))
            },
            YtEvent::Looked(exists) => if exists {
                self.try_tool(&*engine)
            } else {
                engine.set_yt(BinaryStatus::downloading());
                self.go(YtStage::Announcing, YtAction::Announce)
            },
            YtEvent::Announced => {
                let url = yt_dlp_source(engine.platform).0;
                self.go(YtStage::Fetching, YtAction::Fetch(url))
            },
            YtEvent::Fetched(reply) => if self.stage == YtStage::Fetching {
                match download_bytes(reply) {
                    Ok(bytes) => {
                        self.bytes = bytes;
                        self.go(
                            YtStage::Checking,
                            YtAction::Fetch(
                                String::from_str(
                                    "https://github.com/yt-dlp/yt-dlp/releases/latest/download/SHA2-256SUMS",
                                ),
                            ),
                        )
                    },
                    Err(e) => self.end(engine, BinaryStatus::broken(e)),
                }
            } else {
                let asset = yt_dlp_source(engine.platform).1;
                let list = download_bytes(reply);
                match verify_asset(self.bytes.as_slice(), list, asset.as_str()) {
                    Ok(()) => {
                        let bytes = self.bytes.clone();
                        assert(bytes@ =~= self.bytes@);
                        let write = FileWrite { path: engine.yt_dlp_path(), bytes };
                        self.go(YtStage::Writing, YtAction::Write(write))
                    },
                    Err(e) => self.end(engine, BinaryStatus::broken(e)),
                }
            },
            YtEvent::Wrote(r) => match r {
                Ok(()) => self.try_tool(&*engine),
                Err(e) => self.end(engine, BinaryStatus::broken(e)),
            },
            YtEvent::Tried(ran) => match run_version(&ran) {
                Some(version) => self.end(engine, BinaryStatus::ready(version)),
                None => self.end(
                    engine,
                    BinaryStatus::broken(String::from_str("yt-dlp downloaded but failed to run.")),
                ),
            },
        };
        Some(action)
    }
}

/// A run of getting the download tool: the states it goes through, the event that ends each, and
/// the action that follows.
pub open spec fn is_yt_run(
    states: Seq<YtModel>,
    engines: Seq<EngineModel>,
    events: Seq<YtEvent>,
    actions: Seq<YtAction>,
) -> bool {
    &&& states.len() == events.len() + 1
    &&& engines.len() == events.len() + 1
    &&& actions.len() == events.len()
    &&& states[0].stage == YtStage::New
    &&& forall|i: int|
        0 <= i < events.len() ==> (#[trigger] states[i]).expects(events[i]) && states[i].steps(
            engines[i],
            events[i],
            states[i + 1],
            engines[i + 1],
            actions[i],
        )
}

/// What is written are the bytes that were got, to the tool's file, and only where they have the
/// checksum that the list of checksums gives for them: an unverified binary is never kept.
pub proof fn written_tool_is_verified(
    states: Seq<YtModel>,
    engines: Seq<EngineModel>,
    events: Seq<YtEvent>,
    actions: Seq<YtAction>,
    at: int,
)
    requires
        is_yt_run(states, engines, events, actions),
        0 <= at < events.len(),
        actions[at] is Write,
    ensures
        actions[at]->Write_0@.path == engines[at].binary("yt-dlp"@),
        exists|i: int|
            0 <= i < at && (#[trigger] events[i] matches YtEvent::Fetched(reply) && bytes_of(reply)
                == Ok::<Seq<u8>, Seq<char>>(actions[at]->Write_0@.bytes)),
        events[at] matches YtEvent::Fetched(list) && asset_verdict(
            actions[at]->Write_0@.bytes,
            bytes_of(list),
            tool_source(engines[at].platform).1,
        ) is Ok,
{
    lemma_yt_past(states, engines, events, actions, at);
    assert(states[at].expects(events[at]));
}

proof fn lemma_yt_past(
    states: Seq<YtModel>,
    engines: Seq<EngineModel>,
    events: Seq<YtEvent>,
    actions: Seq<YtAction>,
    at: int,
)
    requires
        is_yt_run(states, engines, events, actions),
        0 <= at < states.len(),
    ensures
        states[at].stage == YtStage::Checking ==> exists|i: int|
            0 <= i < at && (#[trigger] events[i] matches YtEvent::Fetched(reply) && bytes_of(reply)
                == Ok::<Seq<u8>, Seq<char>>(states[at].bytes)),
    decreases at,
{
    if at > 0 {
        lemma_yt_past(states, engines, events, actions, at - 1);
        assert(states[at - 1].expects(events[at - 1]));
    }
}

/// The only program that is run is the tool's file, and only where it was there before, or after
/// it was written, which takes a right checksum: an unverified binary is never run.
pub proof fn run_tool_was_there_or_written(
    states: Seq<YtModel>,
    engines: Seq<EngineModel>,
    events: Seq<YtEvent>,
    actions: Seq<YtAction>,
    at: int,
)
    requires
        is_yt_run(states, engines, events, actions),
        0 <= at < events.len(),
        actions[at] is Try,
    ensures
        runs_tool(actions[at], engines[at].binary("yt-dlp"@)),
        events[at] == YtEvent::Looked(true) || exists|i: int|
            0 <= i < at && #[trigger] actions[i] is Write,
{
    assert(states[at].expects(events[at]));
    if states[at].stage == YtStage::Writing {
        lemma_yt_written(states, engines, events, actions, at);
    }
}

proof fn lemma_yt_written(
    states: Seq<YtModel>,
    engines: Seq<EngineModel>,
    events: Seq<YtEvent>,
    actions: Seq<YtAction>,
    at: int,
)
    requires
        is_yt_run(states, engines, events, actions),
        0 <= at < states.len(),
        states[at].stage == YtStage::Writing,
    ensures
        at > 0,
        actions[at - 1] is Write,
{
    assert(states[at - 1].expects(events[at - 1]));
}

/// Getting the download tool leaves everything else of the program as it is.
pub proof fn tool_install_keeps_converter(
    install: YtModel,
    engine: EngineModel,
    event: YtEvent,
    next: YtModel,
    after: EngineModel,
    action: YtAction,
)
    requires
        install.steps(engine, event, next, after, action),
    ensures
        after == engine.with_yt(after.yt_dlp),
{
}

/// What getting the converter waits for.
#[derive(PartialEq, Eq, Structural, Clone, Copy)]
pub enum FfStage {
    New,
    LookingFfmpeg,
    LookingFfprobe,
    TryingFfmpeg,
    TryingFfprobe,
    Announcing,
    FetchingArchive,
    CheckingArchive,
    ExtractingArchive,
    FetchingFfmpeg,
    ExtractingFfmpeg,
    FetchingFfprobe,
    ExtractingFfprobe,
    Marking,
    Looking,
    Trying,
    Over,
}

/// What happened, in answer to the last action of getting the converter.
pub enum FfEvent {
    Begin,
    /// Whether the file that was looked for is there.
    Looked(bool),
    /// A program was run for its version.
    Tried(Option<Ran>),
    /// The new status was shown.
    Announced,
    Fetched(Reply),
    /// The files were written.
    Extracted(Result<(), String>),
    /// The files were made executable.
    Marked,
}

/// What getting the converter does next.
pub enum FfAction {
    /// Look whether a file is there.
    Look(FilePath),
    /// Show the new status.
    Announce,
    /// Get the bytes at a link.
    Fetch(String),
    /// Write the given files, in their order, up to the first that fails.
    Extract(Vec<FileWrite>),
    /// Make both files executable.
    Mark(FilePath, FilePath),
    /// Run a program with an argument, for its version.
    Try { program: Program, arg: String },
    /// It is over: show the new status.
    Stop,
}

/// The state of getting the converter.
pub struct FfInstall {
    pub stage: FfStage,
    /// The bytes of the archive that waits for its checksum.
    pub bytes: Vec<u8>,
    /// How the extraction ends once its files are written.
    pub outcome: Result<(), String>,
}

/// The model of `FfInstall`.
#[verifier::ext_equal]
pub struct FfModel {
    pub stage: FfStage,
    pub bytes: Seq<u8>,
    pub outcome: Result<(), Seq<char>>,
}

impl View for FfInstall {
    type V = FfModel;

    open spec fn view(&self) -> FfModel {
        FfModel {
            stage: self.stage,
            bytes: self.bytes@,
            outcome: step_outcome(self.outcome),
        }
    }
}

/// Where the archive with both files is for Windows.
pub open spec fn windows_archive_url() -> Seq<char> {
    "https://www.gyan.dev/ffmpeg/builds/ffmpeg-release-essentials.zip"@
}

/// Where the checksum of that archive is.
pub open spec fn windows_checksum_url() -> Seq<char> {
    "https://www.gyan.dev/ffmpeg/builds/ffmpeg-release-essentials.zip.sha256"@
}

/// Where the archive with the converter is for macOS.
pub open spec fn mac_ffmpeg_url() -> Seq<char> {
    "https://evermeet.cx/ffmpeg/getrelease/ffmpeg/zip"@
}

/// Where the archive with the converter's companion is for macOS.
pub open spec fn mac_ffprobe_url() -> Seq<char> {
    "https://evermeet.cx/ffmpeg/getrelease/ffprobe/zip"@
}

/// What is reported where the converter cannot be got by the program.
pub open spec fn install_yourself() -> Seq<char> {
    "ffmpeg/ffprobe were not found. Please install them with your package manager (e.g. `sudo apt install ffmpeg`)."@
}

/// Whether an action gets the bytes at a link.
pub open spec fn gets(action: FfAction, url: Seq<char>) -> bool {
    action matches FfAction::Fetch(u) && u@ == url
}

/// Whether an action looks for a file.
pub open spec fn seeks(action: FfAction, path: FilePathModel) -> bool {
    action matches FfAction::Look(p) && p@ == path
}

/// Whether an action runs a program for its version.
pub open spec fn tries(action: FfAction, program: ProgramModel) -> bool {
    action matches FfAction::Try { program: p, arg } && p@ == program && arg@ == "-version"@
}

impl FfModel {
    /// Whether an event answers the last action.
    pub open spec fn expects(self, event: FfEvent) -> bool {
        match event {
            FfEvent::Begin => self.stage == FfStage::New,
            FfEvent::Looked(_) => self.stage == FfStage::LookingFfmpeg || self.stage
                == FfStage::LookingFfprobe || self.stage == FfStage::Looking,
            FfEvent::Tried(_) => self.stage == FfStage::TryingFfmpeg || self.stage
                == FfStage::TryingFfprobe || self.stage == FfStage::Trying,
            FfEvent::Announced => self.stage == FfStage::Announcing,
            FfEvent::Fetched(_) => self.stage == FfStage::FetchingArchive || self.stage
                == FfStage::CheckingArchive || self.stage == FfStage::FetchingFfmpeg || self.stage
                == FfStage::FetchingFfprobe,
            FfEvent::Extracted(_) => self.stage == FfStage::ExtractingArchive || self.stage
                == FfStage::ExtractingFfmpeg || self.stage == FfStage::ExtractingFfprobe,
            FfEvent::Marked => self.stage == FfStage::Marking,
        }
    }

    pub open spec fn at(self, stage: FfStage) -> FfModel {
        FfModel { stage, ..self }
    }

    /// Whether getting the converter ends with the given status.
    pub open spec fn ends(
        self,
        engine: EngineModel,
        status: StatusModel,
        next: FfModel,
        after: EngineModel,
        action: FfAction,
    ) -> bool {
        action == FfAction::Stop && next == self.at(FfStage::Over) && after == engine.with_ff(
            status,
        )
    }

    /// Whether the converter to run is looked for next.
    pub open spec fn finishes(
        self,
        engine: EngineModel,
        next: FfModel,
        after: EngineModel,
        action: FfAction,
    ) -> bool {
        seeks(action, engine.binary("ffmpeg"@)) && next == self.at(FfStage::Looking) && after
            == engine
    }

    /// Whether what was taken out of an archive is written next.
    pub open spec fn extracts(
        self,
        engine: EngineModel,
        extraction: ExtractionModel,
        stage: FfStage,
        next: FfModel,
        after: EngineModel,
        action: FfAction,
    ) -> bool {
        &&& action matches FfAction::Extract(writes)
        &&& is_writing(writes@, extraction)
        &&& next == (FfModel { stage, outcome: extraction.outcome, ..self })
        &&& after == engine
    }

    /// Whether an event at a stage at which a program was run leads to the given states and
    /// action.
    pub open spec fn steps_after_run(
        self,
        engine: EngineModel,
        ran: Option<Ran>,
        next: FfModel,
        after: EngineModel,
        action: FfAction,
    ) -> bool {
        match version_of(ran) {
            Some(version) => match self.stage {
                FfStage::TryingFfmpeg => tries(action, ProgramModel::Named("ffprobe"@)) && next
                    == self.at(FfStage::TryingFfprobe) && after == engine,
                FfStage::TryingFfprobe => self.finishes(engine, next, after, action),
                _ => self.ends(engine, ready(version), next, after, action),
            },
            None => if self.stage == FfStage::Trying {
                self.ends(
                    engine,
                    broken("ffmpeg is present but failed to run."@),
                    next,
                    after,
                    action,
                )
            } else {
                action == FfAction::Announce && next == self.at(FfStage::Announcing) && after
                    == engine.with_ff(downloading())
            },
        }
    }

    /// Whether an event at a stage at which a file was looked for leads to the given states and
    /// action.
    pub open spec fn steps_after_look(
        self,
        engine: EngineModel,
        exists: bool,
        next: FfModel,
        after: EngineModel,
        action: FfAction,
    ) -> bool {
        match self.stage {
            FfStage::Looking => tries(action, engine.converter(exists)) && next == self.at(
                FfStage::Trying,
            ) && after == engine,
            FfStage::LookingFfmpeg if exists => seeks(action, engine.binary("ffprobe"@)) && next
                == self.at(FfStage::LookingFfprobe) && after == engine,
            FfStage::LookingFfprobe if exists => self.finishes(engine, next, after, action),
            _ => tries(action, ProgramModel::Named("ffmpeg"@)) && next == self.at(
                FfStage::TryingFfmpeg,
            ) && after == engine,
        }
    }

    /// Whether bytes that were got lead to the given states and action.
    pub open spec fn steps_after_fetch(
        self,
        engine: EngineModel,
        reply: Reply,
        next: FfModel,
        after: EngineModel,
        action: FfAction,
    ) -> bool {
        if self.stage == FfStage::CheckingArchive {
            match archive_verdict(self.bytes, bytes_of(reply)) {
                Ok(()) => self.extracts(
                    engine,
                    both_binaries(self.bytes, engine),
                    FfStage::ExtractingArchive,
                    next,
                    after,
                    action,
                ),
                Err(e) => self.ends(engine, broken(e), next, after, action),
            }
        } else {
            match bytes_of(reply) {
                Ok(bytes) => match self.stage {
                    FfStage::FetchingArchive => gets(action, windows_checksum_url()) && next == (
                    FfModel { stage: FfStage::CheckingArchive, bytes, ..self }) && after == engine,
                    FfStage::FetchingFfmpeg => self.extracts(
                        engine,
                        single_binary(bytes, engine.binary("ffmpeg"@)),
                        FfStage::ExtractingFfmpeg,
                        next,
                        after,
                        action,
                    ),
                    _ => self.extracts(
                        engine,
                        single_binary(bytes, engine.binary("ffprobe"@)),
                        FfStage::ExtractingFfprobe,
                        next,
                        after,
                        action,
                    ),
                },
                Err(e) => self.ends(engine, broken(e), next, after, action),
            }
        }
    }

    /// Whether an event that answers the last action leads to the states `next` and `after` and to
    /// `action`.
    pub open spec fn steps(
        self,
        engine: EngineModel,
        event: FfEvent,
        next: FfModel,
        after: EngineModel,
        action: FfAction,
    ) -> bool {
        match event {
            FfEvent::Begin => seeks(action, engine.binary("ffmpeg"@)) && next == self.at(
                FfStage::LookingFfmpeg,
            ) && after == engine,
            FfEvent::Looked(exists) => self.steps_after_look(engine, exists, next, after, action),
            FfEvent::Tried(ran) => self.steps_after_run(engine, ran, next, after, action),
            FfEvent::Announced => match engine.platform {
                Platform::Windows => gets(action, windows_archive_url()) && next == self.at(
                    FfStage::FetchingArchive,
                ) && after == engine,
                Platform::MacOs => gets(action, mac_ffmpeg_url()) && next == self.at(
                    FfStage::FetchingFfmpeg,
                ) && after == engine,
                Platform::Other => self.ends(
                    engine,
                    broken(install_yourself()),
                    next,
                    after,
                    action,
                ),
            },
            FfEvent::Fetched(reply) => self.steps_after_fetch(engine, reply, next, after, action),
            FfEvent::Extracted(r) => match r {
                Ok(()) => match self.outcome {
                    Ok(()) => match self.stage {
                        FfStage::ExtractingArchive => self.finishes(engine, next, after, action),
                        FfStage::ExtractingFfmpeg => gets(action, mac_ffprobe_url()) && next
                            == self.at(FfStage::FetchingFfprobe) && after == engine,
                        _ => (action matches FfAction::Mark(first, second) && first@
                            == engine.binary("ffmpeg"@) && second@ == engine.binary("ffprobe"@))
                            && next == self.at(FfStage::Marking) && after == engine,
                    },
                    Err(e) => self.ends(engine, broken(e), next, after, action),
                },
                Err(e) => self.ends(engine, broken(e@), next, after, action),
            },
            FfEvent::Marked => self.finishes(engine, next, after, action),
        }
    }
}

impl FfInstall {
    /// The state before the converter is looked for.
    pub fn new() -> (r: FfInstall)
        ensures
            r@ == (FfModel { stage: FfStage::New, bytes: Seq::empty(), outcome: Ok(()) }),
    {
        FfInstall { stage: FfStage::New, bytes: Vec::new(), outcome: Ok(()) }
    }

    /// Whether an event answers the last action.
    fn is_due(&self, event: &FfEvent) -> (r: bool)
        ensures
            r == self@.expects(*event),
    {
        match event {
            FfEvent::Begin => self.stage == FfStage::New,
            FfEvent::Looked(_) => self.stage == FfStage::LookingFfmpeg || self.stage
                == FfStage::LookingFfprobe || self.stage == FfStage::Looking,
            FfEvent::Tried(_) => self.stage == FfStage::TryingFfmpeg || self.stage
                == FfStage::TryingFfprobe || self.stage == FfStage::Trying,
            FfEvent::Announced => self.stage == FfStage::Announcing,
            FfEvent::Fetched(_) => self.stage == FfStage::FetchingArchive || self.stage
                == FfStage::CheckingArchive || self.stage == FfStage::FetchingFfmpeg || self.stage
                == FfStage::FetchingFfprobe,
            FfEvent::Extracted(_) => self.stage == FfStage::ExtractingArchive || self.stage
                == FfStage::ExtractingFfmpeg || self.stage == FfStage::ExtractingFfprobe,
            FfEvent::Marked => self.stage == FfStage::Marking,
        }
    }

    fn go(&mut self, stage: FfStage, action: FfAction) -> (r: FfAction)
        ensures
            final(self)@ == old(self)@.at(stage),
            r == action,
    {
        self.stage = stage;
        action
    }

    fn finish(&mut self, engine: &EngineState) -> (r: FfAction)
        ensures
            old(self)@.finishes(engine@, final(self)@, engine@, r),
    {
        self.stage = FfStage::Looking;
        FfAction::Look(engine.bundled_ffmpeg())
    }

    fn run(&mut self, stage: FfStage, program: Program) -> (r: FfAction)
        ensures
            final(self)@ == old(self)@.at(stage),
            tries(r, program@),
    {
        self.stage = stage;
        FfAction::Try { program, arg: String::from_str("-version") }
    }

    fn end(&mut self, engine: &mut EngineState, status: BinaryStatus) -> (r: FfAction)
        ensures
            old(self)@.ends(old(engine)@, status@, final(self)@, final(engine)@, r),
    {
        engine.set_ff(status);
        self.stage = FfStage::Over;
        FfAction::Stop
    }

    fn extract(&mut self, extraction: Extraction, stage: FfStage) -> (r: FfAction)
        ensures
            final(self)@ == (FfModel {
                stage,
                outcome: step_outcome(extraction.outcome),
                ..old(self)@
            }),
            r == FfAction::Extract(extraction.writes),
    {
        self.outcome = extraction.outcome;
        self.stage = stage;
        FfAction::Extract(extraction.writes)
    }

    fn after_run(&mut self, engine: &mut EngineState, ran: Option<Ran>) -> (r: FfAction)
        ensures
            old(self)@.steps_after_run(
                old(engine)@,
                ran,
                final(self)@,
                final(engine)@,
                r,
            ),
    {
        match run_version(&ran) {
            Some(version) => match self.stage {
                FfStage::TryingFfmpeg => self.run(
                    FfStage::TryingFfprobe,
                    Program::Named(String::from_str("ffprobe")),
                ),
                FfStage::TryingFfprobe => self.finish(&*engine),
                _ => self.end(engine, BinaryStatus::ready(version)),
            },
            None => if self.stage == FfStage::Trying {
                self.end(
                    engine,
                    BinaryStatus::broken(String::from_str("ffmpeg is present but failed to run.")),
                )
            } else {
                engine.set_ff(BinaryStatus::downloading());
                self.go(FfStage::Announcing, FfAction::Announce)
            },
        }
    }

    fn after_look(&mut self, engine: &EngineState, exists: bool) -> (r: FfAction)
        ensures
            old(self)@.steps_after_look(engine@, exists, final(self)@, engine@, r),
    {
        match self.stage {
            FfStage::Looking => self.run(FfStage::Trying, engine.ffmpeg_exe(exists)),
            FfStage::LookingFfmpeg if exists => {
                let path = engine.bundled_ffprobe();
                self.go(FfStage::LookingFfprobe, FfAction::Look(path))
            },
            FfStage::LookingFfprobe if exists => self.finish(engine),
            _ => self.run(FfStage::TryingFfmpeg, Program::Named(String::from_str("ffmpeg"))),
        }
    }

    fn after_fetch(&mut self, engine: &mut EngineState, reply: Reply) -> (r: FfAction)
        ensures
            old(self)@.steps_after_fetch(
                old(engine)@,
                reply,
                final(self)@,
                final(engine)@,
                r,
            ),
    {
        let got = download_bytes(reply);
        if self.stage == FfStage::CheckingArchive {
            return match verify_archive(self.bytes.as_slice(), got) {
                Ok(()) => {
                    let extraction = fetch_ffmpeg_windows(self.bytes.as_slice(), &*engine);
                    self.extract(extraction, FfStage::ExtractingArchive)
                },
                Err(e) => self.end(engine, BinaryStatus::broken(e)),
            };
        }
        match got {
            Ok(bytes) => match self.stage {
                FfStage::FetchingArchive => {
                    self.bytes = bytes;
                    self.go(
                        FfStage::CheckingArchive,
                        FfAction::Fetch(
                            String::from_str(
                                "https://www.gyan.dev/ffmpeg/builds/ffmpeg-release-essentials.zip.sha256",
                            ),
                        ),
                    )
                },
                FfStage::FetchingFfmpeg => {
                    let extraction = extract_single_binary(
                        bytes.as_slice(),
                        engine.bundled_ffmpeg(),
                    );
                    self.extract(extraction, FfStage::ExtractingFfmpeg)
                },
                _ => {
                    let extraction = extract_single_binary(
                        bytes.as_slice(),
                        engine.bundled_ffprobe(),
                    );
                    self.extract(extraction, FfStage::ExtractingFfprobe)
                },
            },
            Err(e) => self.end(engine, BinaryStatus::broken(e)),
        }
    }

    /// Takes an event in, notes how the converter stands, and returns what to do next. An event
    /// that does not answer the last action changes nothing and is followed by nothing.
    pub fn ensure_ffmpeg(&mut self, engine: &mut EngineState, event: FfEvent) -> (r: Option<
        FfAction,
    >)
        ensures
            match r {
                Some(action) => old(self)@.expects(event) && old(self)@.steps(
                    old(engine)@,
                    event,
                    final(self)@,
                    final(engine)@,
                    action,
                ),
                None => !old(self)@.expects(event) && final(self)@ == old(self)@ && final(engine)@
                    == old(engine)@,
            },
    {
        if !self.is_due(&event) {
            return None;
        }
        let action = match event {
            FfEvent::Begin => {
                let path = engine.bundled_ffmpeg();
                self.go(FfStage::LookingFfmpeg, FfAction::Look(path))
            },
            FfEvent::Looked(exists) => self.after_look(&*engine, exists),
            FfEvent::Tried(ran) => self.after_run(engine, ran),
            FfEvent::Announced => match engine.platform {
                Platform::Windows => self.go(
                    FfStage::FetchingArchive,
                    FfAction::Fetch(
                        String::from_str(
                            "https://www.gyan.dev/ffmpeg/builds/ffmpeg-release-essentials.zip",
                        ),
                    ),
                ),
                Platform::MacOs => self.go(
                    FfStage::FetchingFfmpeg,
                    FfAction::Fetch(
                        String::from_str("https://evermeet.cx/ffmpeg/getrelease/ffmpeg/zip"),
                    ),
                ),
                Platform::Other => self.end(
                    engine,
                    BinaryStatus::broken(
                        String::from_str(
                            "ffmpeg/ffprobe were not found. Please install them with your package manager (e.g. `sudo apt install ffmpeg`).",
                        ),
                    ),
                ),
            },
            FfEvent::Fetched(reply) => self.after_fetch(engine, reply),
            FfEvent::Extracted(r) => {
                let error = match r {
                    Ok(()) => match &self.outcome {
                        Ok(()) => None,
                        Err(e) => Some(e.clone()),
                    },
                    Err(e) => Some(e),
                };
                match error {
                    None => match self.stage {
                        FfStage::ExtractingArchive => self.finish(&*engine),
                        FfStage::ExtractingFfmpeg => self.go(
                            FfStage::FetchingFfprobe,
                            FfAction::Fetch(
                                String::from_str(
                                    "https://evermeet.cx/ffmpeg/getrelease/ffprobe/zip",
                                ),
                            ),
                        ),
                        _ => {
                            let first = engine.bundled_ffmpeg();
                            let second = engine.bundled_ffprobe();
                            self.go(FfStage::Marking, FfAction::Mark(first, second))
                        },
                    },
                    Some(e) => self.end(engine, BinaryStatus::broken(e)),
                }
            },
            FfEvent::Marked => self.finish(&*engine),
        };
        Some(action)
    }
}

/// Nothing is taken out of the archive for Windows before its checksum was found right.
pub proof fn extracted_archive_is_verified(
    install: FfModel,
    engine: EngineModel,
    event: FfEvent,
    next: FfModel,
    after: EngineModel,
    action: FfAction,
)
    requires
        install.expects(event),
        install.steps(engine, event, next, after, action),
        next.stage == FfStage::ExtractingArchive,
    ensures
        event matches FfEvent::Fetched(list) && archive_verdict(install.bytes, bytes_of(list))
            is Ok,
        action matches FfAction::Extract(writes) && is_writing(
            writes@,
            both_binaries(install.bytes, engine),
        ),
{
}

/// Getting the converter leaves everything else of the program as it is.
pub proof fn converter_install_keeps_tool(
    install: FfModel,
    engine: EngineModel,
    event: FfEvent,
    next: FfModel,
    after: EngineModel,
    action: FfAction,
)
    requires
        install.steps(engine, event, next, after, action),
    ensures
        after == engine.with_ff(after.ffmpeg),
{
}

/// A request brings the bytes that the server answered with, and fails for the reason that it
/// failed for; a status that is an error is told, and reads back.
pub proof fn replies_bring_their_bytes(reply: Reply, r: Result<Vec<u8>, String>)
    requires
        call_ensures(download_bytes, (reply,), r),
    ensures
        reply matches Reply::Body(Ok(bytes)) ==> (r matches Ok(got) && got@ == bytes@),
        r is Ok <==> (reply matches Reply::Body(Ok(bytes))),
        reply matches Reply::NoClient(e) ==> (r matches Err(f) && f@ == e@),
        reply matches Reply::NoAnswer(e) ==> (r matches Err(f) && f@ == "Download failed: "@ + e@),
        reply matches Reply::Body(Err(e)) ==> (r matches Err(f) && f@ == e@),
        reply matches Reply::Refused(code) ==> exists|digits: Seq<char>|
            is_number(digits) && value_of(digits) == code && (r matches Err(f) && f@ == #[trigger] (
            "Download failed: HTTP "@ + digits)),
{
    if let Reply::Refused(code) = reply {
        lemma_decimal(code as nat);
        let text = "Download failed: HTTP "@ + decimal(code as nat);
    }
}

/// Whatever happened, getting the tool concerns the tool's own file: that is what is looked for,
/// written and run, and its bytes and their checksums come from where the tool is published. The
/// bytes that are written are those that were got, and only after the list of checksums that came
/// then named them.
pub proof fn tool_install_concerns_the_tool(
    install: &mut YtInstall,
    engine: &mut EngineState,
    event: YtEvent,
    r: Option<YtAction>,
    tool: FilePath,
    source: (String, String),
)
    requires
        call_ensures(YtInstall::ensure_yt_dlp, (install, engine, event), r),
        call_ensures(EngineState::yt_dlp_path, (&*old(engine),), tool),
        call_ensures(yt_dlp_source, (old(engine).platform,), source),
    ensures
        r matches Some(action) ==> match action {
            YtAction::Look(path) => path.dir@ == tool.dir@ && path.name@ == tool.name@ && event
                is Begin,
            YtAction::Write(write) => {
                &&& write.path.dir@ == tool.dir@ && write.path.name@ == tool.name@
                &&& write.bytes@ == old(install).bytes@
                &&& event matches YtEvent::Fetched(list) && asset_verdict(
                    write.bytes@,
                    bytes_of(list),
                    source.1@,
                ) is Ok
            },
            YtAction::Try { program, arg } => {
                &&& program matches Program::At(path) && path.dir@ == tool.dir@ && path.name@
                    == tool.name@
                &&& arg@ == "--version"@
                &&& event == YtEvent::Looked(true) || (event matches YtEvent::Wrote(Ok(u)))
            },
            YtAction::Fetch(url) => {
                &&& event is Announced ==> url@ == source.0@
                &&& event is Fetched ==> url@
                    == "https://github.com/yt-dlp/yt-dlp/releases/latest/download/SHA2-256SUMS"@
                    && (event matches YtEvent::Fetched(reply) && bytes_of(reply) == Ok::<
                    Seq<u8>,
                    Seq<char>,
                >(final(install).bytes@))
                &&& event is Announced || event is Fetched
            },
            YtAction::Announce => event == YtEvent::Looked(false),
            YtAction::Stop => true,
        },
{
    assert(old(engine)@.yt_dlp == old(engine).yt_dlp@);
}

/// The tool is ready, with its version, exactly where it was run and told one; it is broken, for
/// the reason, where it could not be got, verified, written or run. Nothing else of the program
/// changes.
pub proof fn tool_stands_as_it_was_found(
    install: &mut YtInstall,
    engine: &mut EngineState,
    event: YtEvent,
    r: Option<YtAction>,
)
    requires
        call_ensures(YtInstall::ensure_yt_dlp, (install, engine, event), r),
    ensures
        r is None ==> final(engine)@ == old(engine)@ && final(install)@ == old(install)@,
        final(engine).ffmpeg@ == old(engine).ffmpeg@,
        final(engine).bin_dir@ == old(engine).bin_dir@,
        final(engine).downloads_dir@ == old(engine).downloads_dir@,
        final(engine).platform == old(engine).platform,
        final(engine).preparing == old(engine).preparing,
        r matches Some(action) ==> {
            &&& event matches YtEvent::Tried(ran) ==> action is Stop && match version_of(ran) {
                Some(version) => final(engine).yt_dlp.status@ == "ready"@ && opt(
                    final(engine).yt_dlp.version,
                ) == Some(version) && final(engine).yt_dlp.error is None,
                None => final(engine).yt_dlp.status@ == "error"@ && opt(
                    final(engine).yt_dlp.error,
                ) == Some("yt-dlp downloaded but failed to run."@),
            }
            &&& event matches YtEvent::Wrote(Err(e)) ==> action is Stop
                && final(engine).yt_dlp.status@ == "error"@ && opt(final(engine).yt_dlp.error)
                == Some(e@)
            &&& event matches YtEvent::Fetched(reply) ==> action is Stop ==> {
                &&& final(engine).yt_dlp.status@ == "error"@
                &&& final(engine).yt_dlp.error is Some
                &&& old(install).stage == YtStage::Fetching ==> bytes_of(reply) == Err::<
                    Seq<u8>,
                    Seq<char>,
                >(opt(final(engine).yt_dlp.error)->0)
                &&& old(install).stage != YtStage::Fetching ==> asset_verdict(
                    old(install).bytes@,
                    bytes_of(reply),
                    tool_source(old(engine).platform).1,
                ) == Err::<(), Seq<char>>(opt(final(engine).yt_dlp.error)->0)
            }
            &&& action is Announce ==> final(engine).yt_dlp.status@ == "downloading"@
            &&& !(action is Stop || action is Announce) ==> final(engine).yt_dlp@ == old(
                engine,
            ).yt_dlp@
            &&& action is Stop <==> final(install).stage == YtStage::Over
        },
{
    assert(old(engine)@.yt_dlp == old(engine).yt_dlp@);
    assert(final(engine)@.yt_dlp == final(engine).yt_dlp@);
    assert(old(engine)@.ffmpeg == old(engine).ffmpeg@);
    assert(final(engine)@.ffmpeg == final(engine).ffmpeg@);
}

/// Getting the tool never gets stuck: whatever is asked to be done, each of the ways in which that
/// can end is what is waited for then.
pub proof fn tool_install_is_answered(
    install: &mut YtInstall,
    engine: &mut EngineState,
    event: YtEvent,
    r: Option<YtAction>,
    answer: YtEvent,
)
    requires
        call_ensures(YtInstall::ensure_yt_dlp, (install, engine, event), r),
        r matches Some(action) && match action {
            YtAction::Look(_) => answer is Looked,
            YtAction::Announce => answer is Announced,
            YtAction::Fetch(_) => answer is Fetched,
            YtAction::Write(_) => answer is Wrote,
            YtAction::Try { .. } => answer is Tried,
            YtAction::Stop => false,
        },
    ensures
        forall|later: &mut YtInstall, then: &mut EngineState, next: Option<YtAction>|
            later@ == final(install)@ && #[trigger] call_ensures(
                YtInstall::ensure_yt_dlp,
                (later, then, answer),
                next,
            ) ==> next is Some,
{
}

/// Whatever happened, getting the converter concerns the two files where its binaries are kept, and
/// the programs of those names that the system has: those are what is looked for, written, made
/// executable and run.
pub proof fn converter_install_concerns_the_converter(
    install: &mut FfInstall,
    engine: &mut EngineState,
    event: FfEvent,
    r: Option<FfAction>,
    ffmpeg: FilePath,
    ffprobe: FilePath,
)
    requires
        call_ensures(FfInstall::ensure_ffmpeg, (install, engine, event), r),
        call_ensures(EngineState::bundled_ffmpeg, (&*old(engine),), ffmpeg),
        call_ensures(EngineState::bundled_ffprobe, (&*old(engine),), ffprobe),
    ensures
        r matches Some(action) ==> match action {
            FfAction::Look(path) => {
                ||| path.dir@ == ffmpeg.dir@ && path.name@ == ffmpeg.name@
                ||| path.dir@ == ffprobe.dir@ && path.name@ == ffprobe.name@ && event
                    == FfEvent::Looked(true)
            },
            FfAction::Mark(first, second) => first.dir@ == ffmpeg.dir@ && first.name@
                == ffmpeg.name@ && second.dir@ == ffprobe.dir@ && second.name@ == ffprobe.name@,
            FfAction::Try { program, arg } => {
                &&& arg@ == "-version"@
                &&& match program {
                    Program::At(path) => path.dir@ == ffmpeg.dir@ && path.name@ == ffmpeg.name@
                        && event == FfEvent::Looked(true),
                    Program::Named(name) => name@ == "ffmpeg"@ || name@ == "ffprobe"@ && event
                        is Tried,
                }
            },
            FfAction::Extract(writes) => event is Fetched,
            FfAction::Announce => event is Tried,
            _ => true,
        },
{
    assert(old(engine)@.ffmpeg == old(engine).ffmpeg@);
}

/// The archive for Windows is taken apart only after its checksum was found right, and then it is
/// the very bytes that were got; on macOS each binary comes from its own archive, the converter
/// before its companion. Users of other systems are asked to install both themselves.
pub proof fn converter_comes_from_its_publisher(
    install: &mut FfInstall,
    engine: &mut EngineState,
    event: FfEvent,
    r: Option<FfAction>,
)
    requires
        call_ensures(FfInstall::ensure_ffmpeg, (install, engine, event), r),
        r is Some,
    ensures
        event is Announced ==> match old(engine).platform {
            Platform::Windows => gets(
                r->0,
                "https://www.gyan.dev/ffmpeg/builds/ffmpeg-release-essentials.zip"@,
            ),
            Platform::MacOs => gets(r->0, "https://evermeet.cx/ffmpeg/getrelease/ffmpeg/zip"@),
            Platform::Other => r->0 is Stop && opt(final(engine).ffmpeg.error) == Some(
                "ffmpeg/ffprobe were not found. Please install them with your package manager (e.g. `sudo apt install ffmpeg`)."@,
            ),
        },
        event matches FfEvent::Fetched(reply) ==> {
            let stage = old(install).stage;
            &&& stage == FfStage::FetchingArchive && !(r->0 is Stop) ==> gets(
                r->0,
                "https://www.gyan.dev/ffmpeg/builds/ffmpeg-release-essentials.zip.sha256"@,
            ) && bytes_of(reply) == Ok::<Seq<u8>, Seq<char>>(final(install).bytes@)
            &&& stage == FfStage::CheckingArchive && r->0 is Extract ==> archive_verdict(
                old(install).bytes@,
                bytes_of(reply),
            ) is Ok
            &&& stage == FfStage::CheckingArchive && archive_verdict(
                old(install).bytes@,
                bytes_of(reply),
            ) is Err ==> r->0 is Stop && final(engine).ffmpeg.status@ == "error"@
            &&& stage == FfStage::FetchingFfmpeg && !(r->0 is Stop) ==> r->0 is Extract
            &&& bytes_of(reply) is Err ==> r->0 is Stop
        },
        event matches FfEvent::Extracted(Ok(u)) ==> old(install).outcome is Ok ==> {
            &&& old(install).stage == FfStage::ExtractingFfmpeg ==> gets(
                r->0,
                "https://evermeet.cx/ffmpeg/getrelease/ffprobe/zip"@,
            )
            &&& old(install).stage == FfStage::ExtractingFfprobe ==> r->0 is Mark
            &&& old(install).stage == FfStage::ExtractingArchive ==> r->0 is Look
        },
{
    assert(final(engine)@.ffmpeg == final(engine).ffmpeg@);
    reveal_strlit("error");
}

/// The converter is ready, with its version, exactly where it was run in the end and told one; it is
/// broken, for the reason, where it could not be got or run. Nothing else of the program changes.
pub proof fn converter_stands_as_it_was_found(
    install: &mut FfInstall,
    engine: &mut EngineState,
    event: FfEvent,
    r: Option<FfAction>,
)
    requires
        call_ensures(FfInstall::ensure_ffmpeg, (install, engine, event), r),
    ensures
        r is None ==> final(engine)@ == old(engine)@ && final(install)@ == old(install)@,
        final(engine).yt_dlp@ == old(engine).yt_dlp@,
        final(engine).bin_dir@ == old(engine).bin_dir@,
        final(engine).downloads_dir@ == old(engine).downloads_dir@,
        final(engine).platform == old(engine).platform,
        final(engine).preparing == old(engine).preparing,
        r matches Some(action) ==> {
            &&& event matches FfEvent::Tried(ran) ==> old(install).stage == FfStage::Trying
                ==> action is Stop && match version_of(ran) {
                Some(version) => final(engine).ffmpeg.status@ == "ready"@ && opt(
                    final(engine).ffmpeg.version,
                ) == Some(version) && final(engine).ffmpeg.error is None,
                None => final(engine).ffmpeg.status@ == "error"@ && opt(
                    final(engine).ffmpeg.error,
                ) == Some("ffmpeg is present but failed to run."@),
            }
            &&& event matches FfEvent::Tried(ran) ==> old(install).stage != FfStage::Trying ==> (
            version_of(ran) is None <==> action is Announce)
            &&& event matches FfEvent::Extracted(Err(e)) ==> action is Stop
                && final(engine).ffmpeg.status@ == "error"@ && opt(final(engine).ffmpeg.error)
                == Some(e@)
            &&& event matches FfEvent::Extracted(Ok(u)) ==> (step_outcome(
                old(install).outcome,
            ) matches Err(e) ==> action is Stop && opt(final(engine).ffmpeg.error) == Some(e))
            &&& action is Stop && !(event is Tried) ==> final(engine).ffmpeg.status@ == "error"@
            &&& action is Announce ==> final(engine).ffmpeg.status@ == "downloading"@
            &&& !(action is Stop || action is Announce) ==> final(engine).ffmpeg@ == old(
                engine,
            ).ffmpeg@
            &&& action is Stop <==> final(install).stage == FfStage::Over
        },
{
    assert(old(engine)@.yt_dlp == old(engine).yt_dlp@);
    assert(final(engine)@.yt_dlp == final(engine).yt_dlp@);
    assert(old(engine)@.ffmpeg == old(engine).ffmpeg@);
    assert(final(engine)@.ffmpeg == final(engine).ffmpeg@);
}

/// Getting the converter never gets stuck: whatever is asked to be done, each of the ways in which
/// that can end is what is waited for then.
pub proof fn converter_install_is_answered(
    install: &mut FfInstall,
    engine: &mut EngineState,
    event: FfEvent,
    r: Option<FfAction>,
    answer: FfEvent,
)
    requires
        call_ensures(FfInstall::ensure_ffmpeg, (install, engine, event), r),
        r matches Some(action) && match action {
            FfAction::Look(_) => answer is Looked,
            FfAction::Announce => answer is Announced,
            FfAction::Fetch(_) => answer is Fetched,
            FfAction::Extract(_) => answer is Extracted,
            FfAction::Mark(_, _) => answer is Marked,
            FfAction::Try { .. } => answer is Tried,
            FfAction::Stop => false,
        },
    ensures
        forall|later: &mut FfInstall, then: &mut EngineState, next: Option<FfAction>|
            later@ == final(install)@ && #[trigger] call_ensures(
                FfInstall::ensure_ffmpeg,
                (later, then, answer),
                next,
            ) ==> next is Some,
{
}

/// Nothing was got yet when getting the binaries begins, and the first thing is to look for them.
pub proof fn installs_begin_fresh(yt: YtInstall, ff: FfInstall)
    requires
        call_ensures(YtInstall::new, (), yt),
        call_ensures(FfInstall::new, (), ff),
    ensures
        yt.bytes@.len() == 0 && ff.bytes@.len() == 0,
        forall|install: &mut YtInstall, engine: &mut EngineState, r: Option<YtAction>|
            install@ == yt@ && #[trigger] call_ensures(
                YtInstall::ensure_yt_dlp,
                (install, engine, YtEvent::Begin),
                r,
            ) ==> (r matches Some(action) && action is Look),
        forall|install: &mut FfInstall, engine: &mut EngineState, r: Option<FfAction>|
            install@ == ff@ && #[trigger] call_ensures(
                FfInstall::ensure_ffmpeg,
                (install, engine, FfEvent::Begin),
                r,
            ) ==> (r matches Some(action) && action is Look),
{
}

/// The converter is looked for where it is kept first, both of its binaries; only where one of them
/// is missing, the system's own are tried, both of them again; and only where one of those is
/// missing, they are got.
pub proof fn kept_binaries_are_looked_for_first(
    install: &mut FfInstall,
    engine: &mut EngineState,
    event: FfEvent,
    r: Option<FfAction>,
)
    requires
        call_ensures(FfInstall::ensure_ffmpeg, (install, engine, event), r),
        r is Some,
    ensures
        old(install).stage == FfStage::LookingFfmpeg || old(install).stage
            == FfStage::LookingFfprobe ==> (event == FfEvent::Looked(false) ==> tries(
            r->0,
            ProgramModel::Named("ffmpeg"@),
        )),
        old(install).stage == FfStage::LookingFfmpeg && event == FfEvent::Looked(true) ==> seeks(
            r->0,
            old(engine)@.binary("ffprobe"@),
        ),
        old(install).stage == FfStage::LookingFfprobe && event == FfEvent::Looked(true)
            ==> final(install).stage == FfStage::Looking,
        old(install).stage == FfStage::Looking && event == FfEvent::Looked(true) ==> tries(
            r->0,
            ProgramModel::At(old(engine)@.binary("ffmpeg"@)),
        ),
        old(install).stage == FfStage::Looking && event == FfEvent::Looked(false) ==> tries(
            r->0,
            ProgramModel::Named("ffmpeg"@),
        ),
        old(install).stage == FfStage::TryingFfmpeg ==> (event matches FfEvent::Tried(ran)
            ==> version_of(ran) is Some ==> tries(r->0, ProgramModel::Named("ffprobe"@))),
        old(install).stage == FfStage::TryingFfprobe ==> (event matches FfEvent::Tried(ran)
            ==> version_of(ran) is Some ==> final(install).stage == FfStage::Looking),
{
}

/// Each archive for macOS is written to the place of its own binary, and the one for Windows to
/// those of both and nowhere else.
pub proof fn archives_go_to_their_places(
    install: &mut FfInstall,
    engine: &mut EngineState,
    event: FfEvent,
    writes: Vec<FileWrite>,
    ffmpeg: FilePath,
    ffprobe: FilePath,
    k: int,
)
    requires
        call_ensures(
            FfInstall::ensure_ffmpeg,
            (install, engine, event),
            Some(FfAction::Extract(writes)),
        ),
        call_ensures(EngineState::bundled_ffmpeg, (&*old(engine),), ffmpeg),
        call_ensures(EngineState::bundled_ffprobe, (&*old(engine),), ffprobe),
        0 <= k < writes@.len(),
    ensures
        old(install).stage == FfStage::FetchingFfmpeg ==> writes@[k].path@ == ffmpeg@,
        old(install).stage == FfStage::FetchingFfprobe ==> writes@[k].path@ == ffprobe@,
        old(install).stage == FfStage::CheckingArchive ==> writes@[k].path@ == ffmpeg@
            || writes@[k].path@ == ffprobe@,
{
    if let FfEvent::Fetched(reply) = event {
        let before = old(install)@;
        let e = old(engine)@;
        if before.stage == FfStage::CheckingArchive {
            only_binaries_are_written(before.bytes, e, writes@, k);
        } else if let Ok(bytes) = bytes_of(reply) {
            let model = if before.stage == FfStage::FetchingFfmpeg {
                single_binary(bytes, e.binary("ffmpeg"@))
            } else {
                single_binary(bytes, e.binary("ffprobe"@))
            };
            if model.partial is Some {
                assert(write_models(writes@.drop_last()).len() == 0);
                assert(writes@.drop_last().len() == 0);
            } else {
                assert(write_models(writes@)[k] == writes@[k]@);
                assert(write_models(writes@).len() == writes@.len());
            }
        }
    }
}

} // verus!
