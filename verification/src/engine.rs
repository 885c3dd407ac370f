//! The binaries that downloads depend on: where they are and how they stand.

use crate::foreign::{self, lossy_text, reads_utf8};
use crate::names::{FilePath, FilePathModel};
use crate::text::{
    lines, lines_of, lines_split_at_line_feeds, opt, same, trim, trimmed, views, without_cr,
};
use vstd::prelude::*;

verus! {

/// The systems that differ in how binaries are named and got.
#[derive(PartialEq, Eq, Structural, Clone, Copy)]
pub enum Platform {
    Windows,
    MacOs,
    Other,
}

/// How a binary stands.
pub struct BinaryStatus {
    /// `pending`, `downloading`, `ready` or `error`.
    pub status: String,
    pub version: Option<String>,
    pub error: Option<String>,
}

/// The model of `BinaryStatus`.
#[verifier::ext_equal]
pub struct StatusModel {
    pub status: Seq<char>,
    pub version: Option<Seq<char>>,
    pub error: Option<Seq<char>>,
}

impl View for BinaryStatus {
    type V = StatusModel;

    open spec fn view(&self) -> StatusModel {
        StatusModel { status: self.status@, version: opt(self.version), error: opt(self.error) }
    }
}

impl Clone for BinaryStatus {
    fn clone(&self) -> (r: Self)
        ensures
            r@ == self@,
    {
        BinaryStatus {
            status: self.status.clone(),
            version: self.version.clone(),
            error: self.error.clone(),
        }
    }
}

/// A binary that was not looked for yet.
pub open spec fn pending() -> StatusModel {
    StatusModel { status: "pending"@, version: None, error: None }
}

/// A binary that is being got.
pub open spec fn downloading() -> StatusModel {
    StatusModel { status: "downloading"@, version: None, error: None }
}

/// A binary of the given version that can be run.
pub open spec fn ready(version: Seq<char>) -> StatusModel {
    StatusModel { status: "ready"@, version: Some(version), error: None }
}

/// A binary that cannot be had, for the given reason.
pub open spec fn broken(error: Seq<char>) -> StatusModel {
    StatusModel { status: "error"@, version: None, error: Some(error) }
}

impl BinaryStatus {
    /// A binary that was not looked for yet.
    pub fn pending() -> (r: BinaryStatus)
        ensures
            r@ == pending(),
    {
        BinaryStatus { status: String::from_str("pending"), version: None, error: None }
    }

    /// A binary that is being got.
    pub fn downloading() -> (r: BinaryStatus)
        ensures
            r@ == downloading(),
    {
        BinaryStatus { status: String::from_str("downloading"), version: None, error: None }
    }

    /// A binary of the given version that can be run.
    pub fn ready(version: String) -> (r: BinaryStatus)
        ensures
            r@ == ready(version@),
    {
        BinaryStatus { status: String::from_str("ready"), version: Some(version), error: None }
    }

    /// A binary that cannot be had, for the given reason.
    pub fn broken(error: String) -> (r: BinaryStatus)
        ensures
            r@ == broken(error@),
    {
        BinaryStatus { status: String::from_str("error"), version: None, error: Some(error) }
    }
}

/// How both binaries stand.
pub struct EngineSnapshot {
    pub yt_dlp: BinaryStatus,
    pub ffmpeg: BinaryStatus,
    pub ready: bool,
}

/// The binaries and the folders of the program.
pub struct EngineState {
    pub bin_dir: String,
    pub downloads_dir: String,
    pub platform: Platform,
    pub yt_dlp: BinaryStatus,
    pub ffmpeg: BinaryStatus,
    /// Whether the binaries are being prepared.
    pub preparing: bool,
}

/// The model of `EngineState`.
#[verifier::ext_equal]
pub struct EngineModel {
    pub bin_dir: Seq<char>,
    pub downloads_dir: Seq<char>,
    pub platform: Platform,
    pub yt_dlp: StatusModel,
    pub ffmpeg: StatusModel,
    pub preparing: bool,
}

impl View for EngineState {
    type V = EngineModel;

    open spec fn view(&self) -> EngineModel {
        EngineModel {
            bin_dir: self.bin_dir@,
            downloads_dir: self.downloads_dir@,
            platform: self.platform,
            yt_dlp: self.yt_dlp@,
            ffmpeg: self.ffmpeg@,
            preparing: self.preparing,
        }
    }
}

/// The name of a binary's file.
pub open spec fn binary_name(platform: Platform, base: Seq<char>) -> Seq<char> {
    if platform == Platform::Windows {
        base + ".exe"@
    } else {
        base
    }
}

/// The name of a binary's file.
pub fn exe_name(platform: Platform, base: &str) -> (r: String)
    ensures
        r@ == binary_name(platform, base@),
{
    if platform == Platform::Windows {
        base.to_owned().concat(".exe")
    } else {
        base.to_owned()
    }
}

/// The name of the download tool's file.
pub fn yt_dlp_filename(platform: Platform) -> (r: String)
    ensures
        r@ == binary_name(platform, "yt-dlp"@),
{
    exe_name(platform, "yt-dlp")
}

/// A program to run.
pub enum Program {
    /// The one in a file.
    At(FilePath),
    /// The one that the system finds under a name.
    Named(String),
}

/// The model of `Program`.
#[verifier::ext_equal]
pub enum ProgramModel {
    At(FilePathModel),
    Named(Seq<char>),
}

impl View for Program {
    type V = ProgramModel;

    open spec fn view(&self) -> ProgramModel {
        match self {
            Program::At(path) => ProgramModel::At(path@),
            Program::Named(name) => ProgramModel::Named(name@),
        }
    }
}

impl EngineModel {
    /// Where the binary `base` is kept.
    pub open spec fn binary(self, base: Seq<char>) -> FilePathModel {
        FilePathModel { dir: self.bin_dir, name: binary_name(self.platform, base) }
    }

    /// The converter to run: the one that is kept, where it is there, and else the system's.
    pub open spec fn converter(self, bundled_exists: bool) -> ProgramModel {
        if bundled_exists {
            ProgramModel::At(self.binary("ffmpeg"@))
        } else {
            ProgramModel::Named("ffmpeg"@)
        }
    }

    pub open spec fn with_yt(self, status: StatusModel) -> EngineModel {
        EngineModel { yt_dlp: status, ..self }
    }

    pub open spec fn with_ff(self, status: StatusModel) -> EngineModel {
        EngineModel { ffmpeg: status, ..self }
    }
}

impl EngineState {
    /// The program before the binaries were looked for.
    pub fn new(bin_dir: String, downloads_dir: String, platform: Platform) -> (r: EngineState)
        ensures
            r@ == (EngineModel {
                bin_dir: bin_dir@,
                downloads_dir: downloads_dir@,
                platform,
                yt_dlp: pending(),
                ffmpeg: pending(),
                preparing: false,
            }),
    {
        EngineState {
            bin_dir,
            downloads_dir,
            platform,
            yt_dlp: BinaryStatus::pending(),
            ffmpeg: BinaryStatus::pending(),
            preparing: false,
        }
    }

    /// How both binaries stand; all is ready where both are.
    pub fn snapshot(&self) -> (r: EngineSnapshot)
        ensures
            r.yt_dlp@ == self@.yt_dlp,
            r.ffmpeg@ == self@.ffmpeg,
            r.ready == (self@.yt_dlp.status == "ready"@ && self@.ffmpeg.status == "ready"@),
    {
        let ready = same(self.yt_dlp.status.as_str(), "ready") && same(
            self.ffmpeg.status.as_str(),
            "ready",
        );
        EngineSnapshot { yt_dlp: self.yt_dlp.clone(), ffmpeg: self.ffmpeg.clone(), ready }
    }

    /// Where the download tool is kept.
    pub fn yt_dlp_path(&self) -> (r: FilePath)
        ensures
            r@ == self@.binary("yt-dlp"@),
    {
        FilePath { dir: self.bin_dir.clone(), name: yt_dlp_filename(self.platform) }
    }

    /// Where the converter is kept.
    pub fn bundled_ffmpeg(&self) -> (r: FilePath)
        ensures
            r@ == self@.binary("ffmpeg"@),
    {
        FilePath { dir: self.bin_dir.clone(), name: exe_name(self.platform, "ffmpeg") }
    }

    /// Where the converter's companion is kept.
    pub fn bundled_ffprobe(&self) -> (r: FilePath)
        ensures
            r@ == self@.binary("ffprobe"@),
    {
        FilePath { dir: self.bin_dir.clone(), name: exe_name(self.platform, "ffprobe") }
    }

    /// The converter to run: the one that is kept, where it is there, and else the system's.
    pub fn ffmpeg_exe(&self, bundled_exists: bool) -> (r: Program)
        ensures
            r@ == self@.converter(bundled_exists),
    {
        if bundled_exists {
            Program::At(self.bundled_ffmpeg())
        } else {
            Program::Named(String::from_str("ffmpeg"))
        }
    }

    /// The folder in which the download tool finds the converter, where the converter is kept.
    pub fn ffmpeg_location(&self, bundled_exists: bool) -> (r: Option<String>)
        ensures
            opt(r) == if bundled_exists {
                Some(self@.bin_dir)
            } else {
                None
            },
    {
        if bundled_exists {
            Some(self.bin_dir.clone())
        } else {
            None
        }
    }

    /// Notes how the download tool stands.
    pub fn set_yt(&mut self, status: BinaryStatus)
        ensures
            final(self)@ == old(self)@.with_yt(status@),
    {
        self.yt_dlp = status;
    }

    /// Notes how the converter stands.
    pub fn set_ff(&mut self, status: BinaryStatus)
        ensures
            final(self)@ == old(self)@.with_ff(status@),
    {
        self.ffmpeg = status;
    }

    /// Begins to prepare the binaries, and returns whether this was not under way already.
    pub fn prepare(&mut self) -> (r: bool)
        ensures
            r == !old(self)@.preparing,
            final(self)@ == (EngineModel { preparing: true, ..old(self)@ }),
    {
        let free = !self.preparing;
        self.preparing = true;
        free
    }

    /// The binaries are prepared as far as they can be.
    pub fn prepared(&mut self)
        ensures
            final(self)@ == (EngineModel { preparing: false, ..old(self)@ }),
    {
        self.preparing = false;
    }
}

/// What a run of a program that tells its version came to; there is none where it could not be
/// started.
pub struct Ran {
    pub success: bool,
    pub stdout: Vec<u8>,
}

/// The version that a program told: the first line that it wrote.
pub open spec fn version_told(success: bool, text: Seq<char>) -> Option<Seq<char>> {
    if success && lines_of(text).len() > 0 {
        Some(trimmed(lines_of(text)[0]))
    } else {
        None
    }
}

/// The version that a program told, given what it wrote.
pub fn version_in(success: bool, text: &str) -> (r: Option<String>)
    ensures
        opt(r) == version_told(success, text@),
{
    if !success {
        return None;
    }
    let list = lines(text);
    if list.len() > 0 {
        assert(views(list@)[0] == list@[0]@);
        Some(trim(list[0].as_str()))
    } else {
        None
    }
}

/// The version that a run of a program told.
pub open spec fn version_of(ran: Option<Ran>) -> Option<Seq<char>> {
    match ran {
        Some(r) => version_told(r.success, lossy_text(r.stdout@)),
        None => None,
    }
}

/// The version that a run of a program told.
pub fn run_version(ran: &Option<Ran>) -> (r: Option<String>)
    ensures
        opt(r) == version_of(*ran),
        ran matches Some(told) ==> reads_utf8(told.stdout@),
{
    match ran {
        Some(r) => {
            let text = foreign::from_utf8_lossy(r.stdout.as_slice());
            version_in(r.success, text.as_str())
        },
        None => None,
    }
}

/// Where the download tool is got, and the name under which its checksum is listed.
pub open spec fn tool_source(platform: Platform) -> (Seq<char>, Seq<char>) {
    match platform {
        Platform::Windows => (
            "https://github.com/yt-dlp/yt-dlp/releases/latest/download/yt-dlp.exe"@,
            "yt-dlp.exe"@,
        ),
        Platform::MacOs => (
            "https://github.com/yt-dlp/yt-dlp/releases/latest/download/yt-dlp_macos"@,
            "yt-dlp_macos"@,
        ),
        Platform::Other => (
            "https://github.com/yt-dlp/yt-dlp/releases/latest/download/yt-dlp"@,
            "yt-dlp"@,
        ),
    }
}

/// Where the download tool is got, and the name under which its checksum is listed.
pub fn yt_dlp_source(platform: Platform) -> (r: (String, String))
    ensures
        (r.0@, r.1@) == tool_source(platform),
{
    match platform {
        Platform::Windows => (
            String::from_str(
                "https://github.com/yt-dlp/yt-dlp/releases/latest/download/yt-dlp.exe",
            ),
            String::from_str("yt-dlp.exe"),
        ),
        Platform::MacOs => (
            String::from_str(
                "https://github.com/yt-dlp/yt-dlp/releases/latest/download/yt-dlp_macos",
            ),
            String::from_str("yt-dlp_macos"),
        ),
        Platform::Other => (
            String::from_str("https://github.com/yt-dlp/yt-dlp/releases/latest/download/yt-dlp"),
            String::from_str("yt-dlp"),
        ),
    }
}

/// The binaries are kept in the folder for binaries, each under its own name, which ends in `.exe`
/// on the one system where programs do.
pub proof fn binaries_are_kept_in_their_folder(
    engine: EngineState,
    yt_dlp: FilePath,
    ffmpeg: FilePath,
    ffprobe: FilePath,
)
    requires
        call_ensures(EngineState::yt_dlp_path, (&engine,), yt_dlp),
        call_ensures(EngineState::bundled_ffmpeg, (&engine,), ffmpeg),
        call_ensures(EngineState::bundled_ffprobe, (&engine,), ffprobe),
    ensures
        yt_dlp.dir@ == engine.bin_dir@,
        ffmpeg.dir@ == engine.bin_dir@,
        ffprobe.dir@ == engine.bin_dir@,
        engine.platform == Platform::Windows ==> yt_dlp.name@ == "yt-dlp"@ + ".exe"@ && ffmpeg.name@
            == "ffmpeg"@ + ".exe"@ && ffprobe.name@ == "ffprobe"@ + ".exe"@,
        engine.platform != Platform::Windows ==> yt_dlp.name@ == "yt-dlp"@ && ffmpeg.name@
            == "ffmpeg"@ && ffprobe.name@ == "ffprobe"@,
{
}

/// The converter that is kept is the one that is run, and its folder is told to the tool, exactly
/// where it is there; else the system's own is run.
pub proof fn kept_converter_comes_first(
    engine: EngineState,
    bundled: bool,
    program: Program,
    kept: FilePath,
    location: Option<String>,
)
    requires
        call_ensures(EngineState::ffmpeg_exe, (&engine, bundled), program),
        call_ensures(EngineState::bundled_ffmpeg, (&engine,), kept),
        call_ensures(EngineState::ffmpeg_location, (&engine, bundled), location),
    ensures
        bundled ==> (program matches Program::At(path) && path.dir@ == kept.dir@ && path.name@
            == kept.name@) && opt(location) == Some(engine.bin_dir@),
        !bundled ==> (program matches Program::Named(name) && name@ == "ffmpeg"@) && location
            is None,
{
}

/// All is ready exactly where both binaries are, and what is shown of each is how it stands.
pub proof fn readiness_takes_both(engine: EngineState, shown: EngineSnapshot)
    requires
        call_ensures(EngineState::snapshot, (&engine,), shown),
    ensures
        shown.ready <==> engine.yt_dlp.status@ == "ready"@ && engine.ffmpeg.status@ == "ready"@,
        shown.yt_dlp.status@ == engine.yt_dlp.status@,
        opt(shown.yt_dlp.version) == opt(engine.yt_dlp.version),
        opt(shown.yt_dlp.error) == opt(engine.yt_dlp.error),
        shown.ffmpeg.status@ == engine.ffmpeg.status@,
        opt(shown.ffmpeg.version) == opt(engine.ffmpeg.version),
        opt(shown.ffmpeg.error) == opt(engine.ffmpeg.error),
{
    assert(shown.yt_dlp@ == engine.yt_dlp@);
    assert(shown.ffmpeg@ == engine.ffmpeg@);
}

/// The binaries are prepared by one caller at a time: whoever begins is the first until they are
/// prepared; that changes nothing else.
pub proof fn one_prepares_at_a_time(engine: &mut EngineState, first: bool)
    ensures
        call_ensures(EngineState::prepare, (engine,), first) ==> {
            &&& first <==> !old(engine).preparing
            &&& final(engine).preparing
            &&& final(engine).yt_dlp@ == old(engine).yt_dlp@
            &&& final(engine).ffmpeg@ == old(engine).ffmpeg@
            &&& final(engine).bin_dir@ == old(engine).bin_dir@
            &&& final(engine).downloads_dir@ == old(engine).downloads_dir@
            &&& final(engine).platform == old(engine).platform
        },
        call_ensures(EngineState::prepared, (engine,), ()) ==> {
            &&& !final(engine).preparing
            &&& final(engine).yt_dlp@ == old(engine).yt_dlp@
            &&& final(engine).ffmpeg@ == old(engine).ffmpeg@
            &&& final(engine).bin_dir@ == old(engine).bin_dir@
            &&& final(engine).downloads_dir@ == old(engine).downloads_dir@
            &&& final(engine).platform == old(engine).platform
        },
{
    assert(old(engine)@.yt_dlp == old(engine).yt_dlp@);
    assert(final(engine)@.yt_dlp == final(engine).yt_dlp@);
    assert(old(engine)@.ffmpeg == old(engine).ffmpeg@);
    assert(final(engine)@.ffmpeg == final(engine).ffmpeg@);
}

/// How one binary stands is noted for that binary alone.
pub proof fn statuses_are_noted_apart(engine: &mut EngineState, status: BinaryStatus)
    ensures
        call_ensures(EngineState::set_yt, (engine, status), ()) ==> {
            &&& final(engine).yt_dlp@ == status@
            &&& final(engine).ffmpeg@ == old(engine).ffmpeg@
            &&& final(engine).preparing == old(engine).preparing
        },
        call_ensures(EngineState::set_ff, (engine, status), ()) ==> {
            &&& final(engine).ffmpeg@ == status@
            &&& final(engine).yt_dlp@ == old(engine).yt_dlp@
            &&& final(engine).preparing == old(engine).preparing
        },
{
    assert(old(engine)@.yt_dlp == old(engine).yt_dlp@);
    assert(final(engine)@.yt_dlp == final(engine).yt_dlp@);
    assert(old(engine)@.ffmpeg == old(engine).ffmpeg@);
    assert(final(engine)@.ffmpeg == final(engine).ffmpeg@);
}

/// A program begins with its folders and its system as they are given, no binary looked for yet.
pub proof fn engine_begins_pending(
    bin_dir: String,
    downloads_dir: String,
    platform: Platform,
    engine: EngineState,
)
    requires
        call_ensures(EngineState::new, (bin_dir, downloads_dir, platform), engine),
    ensures
        engine.bin_dir@ == bin_dir@,
        engine.downloads_dir@ == downloads_dir@,
        engine.platform == platform,
        engine.yt_dlp.status@ == "pending"@ && engine.ffmpeg.status@ == "pending"@,
        !engine.preparing,
{
    assert(engine@.yt_dlp == engine.yt_dlp@);
    assert(engine@.ffmpeg == engine.ffmpeg@);
}

/// A binary that is ready has a version and no error, and one that is broken an error and no
/// version.
pub proof fn statuses_say_what_they_are(
    version: String,
    error: String,
    good: BinaryStatus,
    bad: BinaryStatus,
    coming: BinaryStatus,
    waiting: BinaryStatus,
)
    requires
        call_ensures(BinaryStatus::ready, (version,), good),
        call_ensures(BinaryStatus::broken, (error,), bad),
        call_ensures(BinaryStatus::downloading, (), coming),
        call_ensures(BinaryStatus::pending, (), waiting),
    ensures
        good.status@ == "ready"@ && opt(good.version) == Some(version@) && good.error is None,
        bad.status@ == "error"@ && opt(bad.error) == Some(error@) && bad.version is None,
        coming.status@ == "downloading"@ && coming.version is None && coming.error is None,
        waiting.status@ == "pending"@ && waiting.version is None && waiting.error is None,
{
    assert(good@ == ready(version@) && bad@ == broken(error@));
    assert(coming@ == downloading() && waiting@ == pending());
}

/// A program that could not be run, failed, or wrote nothing told no version; else the version is
/// the first line that it wrote, without the blanks around it.
pub proof fn version_is_the_first_line(
    ran: Option<Ran>,
    first: Seq<char>,
    rest: Seq<char>,
    r: Option<String>,
)
    requires
        call_ensures(run_version, (&ran,), r),
        !first.contains('\n'),
    ensures
        ran is None ==> r is None,
        ran matches Some(told) ==> {
            let text = lossy_text(told.stdout@);
            &&& !told.success || text.len() == 0 ==> r is None
            &&& told.success && text == first && first.len() > 0 ==> opt(r) == Some(trimmed(first))
            &&& told.success && text == first + seq!['\n'] + rest && (first.len() == 0 || first.last()
                != '\r') ==> opt(r) == Some(trimmed(first))
            &&& told.success && text == first + seq!['\r', '\n'] + rest ==> opt(r) == Some(
                trimmed(first),
            )
        },
{
    lines_split_at_line_feeds(first, rest);
    let returned = first.push('\r');
    assert(!returned.contains('\n')) by {
        if returned.contains('\n') {
            let i = choose|i: int| 0 <= i < returned.len() && returned[i] == '\n';
            assert(first[i] == '\n');
        }
    }
    lines_split_at_line_feeds(returned, rest);
    assert(returned + seq!['\n'] + rest =~= first + seq!['\r', '\n'] + rest);
    assert(without_cr(returned) =~= first);
    let none = Seq::<char>::empty();
    assert(!none.contains('\n'));
    lines_split_at_line_feeds(none, rest);
    if let Some(told) = ran {
        let text = lossy_text(told.stdout@);
        if text.len() == 0 {
            assert(text =~= none);
        }
        if text == first + seq!['\n'] + rest {
            assert((seq![without_cr(first)] + lines_of(rest))[0] == without_cr(first));
        }
        if text == first + seq!['\r', '\n'] + rest {
            assert((seq![without_cr(returned)] + lines_of(rest))[0] == first);
        }
    }
}

/// The tool is got from one place for all systems, under the very name that its checksum is listed
/// under, and each system has its own.
pub proof fn tool_is_got_under_its_listed_name(
    platform: Platform,
    other: Platform,
    source: (String, String),
    other_source: (String, String),
)
    requires
        call_ensures(yt_dlp_source, (platform,), source),
        call_ensures(yt_dlp_source, (other,), other_source),
    ensures
        source.0@ == "https://github.com/yt-dlp/yt-dlp/releases/latest/download/"@ + source.1@,
        platform == Platform::Windows ==> source.1@ == "yt-dlp.exe"@,
        platform == Platform::MacOs ==> source.1@ == "yt-dlp_macos"@,
        platform == Platform::Other ==> source.1@ == "yt-dlp"@,
        source.1@ == other_source.1@ <==> platform == other,
{
    reveal_strlit("https://github.com/yt-dlp/yt-dlp/releases/latest/download/");
    reveal_strlit("https://github.com/yt-dlp/yt-dlp/releases/latest/download/yt-dlp.exe");
    reveal_strlit("https://github.com/yt-dlp/yt-dlp/releases/latest/download/yt-dlp_macos");
    reveal_strlit("https://github.com/yt-dlp/yt-dlp/releases/latest/download/yt-dlp");
    reveal_strlit("yt-dlp.exe");
    reveal_strlit("yt-dlp_macos");
    reveal_strlit("yt-dlp");
    assert("yt-dlp.exe"@.len() == 10 && "yt-dlp_macos"@.len() == 12 && "yt-dlp"@.len() == 6);
    assert(source.0@ =~= "https://github.com/yt-dlp/yt-dlp/releases/latest/download/"@ + source.1@);
}

} // verus!
