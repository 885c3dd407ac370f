//! What is taken out of downloaded archives.

use crate::engine::{EngineModel, EngineState};
use crate::foreign::{
    self, lowercase, lowers_ascii, was_read, zip_count, zip_data_of, zip_entry_of,
};
use crate::names::{FilePath, FilePathModel};
use crate::text::{ends_with, step_outcome};
use vstd::prelude::*;

verus! {

/// Bytes that are written to a file.
pub struct FileWrite {
    pub path: FilePath,
    pub bytes: Vec<u8>,
}

/// The model of `FileWrite`.
#[verifier::ext_equal]
pub struct WriteModel {
    pub path: FilePathModel,
    pub bytes: Seq<u8>,
}

impl View for FileWrite {
    type V = WriteModel;

    open spec fn view(&self) -> WriteModel {
        WriteModel { path: self.path@, bytes: self.bytes@ }
    }
}

/// The models of a list of writes.
pub open spec fn write_models(list: Seq<FileWrite>) -> Seq<WriteModel> {
    list.map_values(|w: FileWrite| w@)
}

/// What is taken out of an archive: the files that are written, in their order, and then how it
/// ended. Where the contents of a file could not be read to their end, what was read of them is
/// written last.
pub struct Extraction {
    pub writes: Vec<FileWrite>,
    pub outcome: Result<(), String>,
}

/// The model of what is taken out of an archive.
#[verifier::ext_equal]
pub struct ExtractionModel {
    /// The files that are written whole.
    pub writes: Seq<WriteModel>,
    /// The file that is written as far as its contents could be read.
    pub partial: Option<FilePathModel>,
    pub outcome: Result<(), Seq<char>>,
}

/// Whether `writes` are the files that are written: the whole ones, and then the partial one, of
/// whose bytes nothing is said.
pub open spec fn is_writing(writes: Seq<FileWrite>, model: ExtractionModel) -> bool {
    match model.partial {
        Some(path) => {
            &&& writes.len() > 0
            &&& write_models(writes.drop_last()) == model.writes
            &&& writes.last()@.path == path
        },
        None => write_models(writes) == model.writes,
    }
}

/// Whether `extraction` is what the model says.
pub open spec fn is_extraction(extraction: Extraction, model: ExtractionModel) -> bool {
    is_writing(extraction.writes@, model) && step_outcome(extraction.outcome) == model.outcome
}

/// Whether a file that is written in part holds what was read of an entry of the archive.
pub open spec fn partial_was_read(
    archive: Seq<u8>,
    model: ExtractionModel,
    extraction: Extraction,
) -> bool {
    model.partial is Some ==> exists|i: nat| #[trigger]
        was_read(archive, i, extraction.writes@.last().bytes@)
}

/// The binaries of the converter.
#[derive(PartialEq, Eq, Structural, Clone, Copy)]
pub enum Binary {
    Ffmpeg,
    Ffprobe,
}

/// Which of the converter's binaries an entry of an archive is, by its name in lower case.
pub open spec fn binary_in(lower: Seq<char>) -> Option<Binary> {
    if "bin/ffmpeg.exe"@.is_suffix_of(lower) {
        Some(Binary::Ffmpeg)
    } else if "bin/ffprobe.exe"@.is_suffix_of(lower) {
        Some(Binary::Ffprobe)
    } else {
        None
    }
}

/// Which of the converter's binaries an entry of an archive is, by its name in lower case.
pub fn wanted_binary(lower: &str) -> (r: Option<Binary>)
    ensures
        r == binary_in(lower@),
{
    if ends_with(lower, "bin/ffmpeg.exe") {
        Some(Binary::Ffmpeg)
    } else if ends_with(lower, "bin/ffprobe.exe") {
        Some(Binary::Ffprobe)
    } else {
        None
    }
}

/// Where a binary of the converter is kept.
pub open spec fn place_of(engine: EngineModel, binary: Binary) -> FilePathModel {
    match binary {
        Binary::Ffmpeg => engine.binary("ffmpeg"@),
        Binary::Ffprobe => engine.binary("ffprobe"@),
    }
}

/// Where a binary of the converter is kept.
pub fn binary_path(engine: &EngineState, binary: Binary) -> (r: FilePath)
    ensures
        r@ == place_of(engine@, binary),
{
    match binary {
        Binary::Ffmpeg => engine.bundled_ffmpeg(),
        Binary::Ffprobe => engine.bundled_ffprobe(),
    }
}

/// How it ends to go through an archive without an error.
pub open spec fn completeness(got_ffmpeg: bool, got_ffprobe: bool) -> Result<(), Seq<char>> {
    if got_ffmpeg && got_ffprobe {
        Ok(())
    } else {
        Err("Could not extract ffmpeg/ffprobe from the downloaded archive."@)
    }
}

/// How it ends to go through an archive without an error.
pub fn check_complete(got_ffmpeg: bool, got_ffprobe: bool) -> (r: Result<(), String>)
    ensures
        step_outcome(r) == completeness(got_ffmpeg, got_ffprobe),
{
    if got_ffmpeg && got_ffprobe {
        Ok(())
    } else {
        Err(String::from_str("Could not extract ffmpeg/ffprobe from the downloaded archive."))
    }
}

/// How far an archive was gone through.
#[verifier::ext_equal]
pub struct Progress {
    pub writes: Seq<WriteModel>,
    pub partial: Option<FilePathModel>,
    pub error: Option<Seq<char>>,
    pub got_ffmpeg: bool,
    pub got_ffprobe: bool,
}

/// What the first `n` entries of an archive give; nothing is taken after an error.
pub open spec fn gone_through(archive: Seq<u8>, engine: EngineModel, n: nat) -> Progress
    decreases n,
{
    if n == 0 {
        Progress {
            writes: Seq::empty(),
            partial: None,
            error: None,
            got_ffmpeg: false,
            got_ffprobe: false,
        }
    } else {
        let before = gone_through(archive, engine, (n - 1) as nat);
        if before.error is Some {
            before
        } else {
            match zip_entry_of(archive, (n - 1) as nat) {
                Ok(entry) => match binary_in(lowercase(entry.0)) {
                    Some(binary) => {
                        let path = place_of(engine, binary);
                        let found = Progress {
                            got_ffmpeg: before.got_ffmpeg || binary == Binary::Ffmpeg,
                            got_ffprobe: before.got_ffprobe || binary == Binary::Ffprobe,
                            ..before
                        };
                        match zip_data_of(archive, (n - 1) as nat) {
                            Ok(bytes) => Progress {
                                writes: before.writes.push(WriteModel { path, bytes }),
                                ..found
                            },
                            Err(e) => Progress { partial: Some(path), error: Some(e), ..found },
                        }
                    },
                    None => before,
                },
                Err(e) => Progress { error: Some(e), ..before },
            }
        }
    }
}

/// What is taken out of the archive that holds both of the converter's binaries.
pub open spec fn both_binaries(archive: Seq<u8>, engine: EngineModel) -> ExtractionModel {
    match zip_count(archive) {
        Ok(n) => {
            let p = gone_through(archive, engine, n);
            ExtractionModel {
                writes: p.writes,
                partial: p.partial,
                outcome: match p.error {
                    Some(e) => Err(e),
                    None => completeness(p.got_ffmpeg, p.got_ffprobe),
                },
            }
        },
        Err(e) => ExtractionModel { writes: Seq::empty(), partial: None, outcome: Err(e) },
    }
}

proof fn lemma_stopped(archive: Seq<u8>, engine: EngineModel, m: nat, n: nat)
    requires
        m <= n,
        gone_through(archive, engine, m).error is Some,
    ensures
        gone_through(archive, engine, n) == gone_through(archive, engine, m),
        forall|k: nat| m <= k <= n ==> (#[trigger] gone_through(archive, engine, k)).error is Some,
{
    assert forall|k: nat| m <= k <= n implies (#[trigger] gone_through(
        archive,
        engine,
        k,
    )).error is Some by {
        lemma_error_stays(archive, engine, m, k);
    }
    lemma_error_stays(archive, engine, m, n);
}

proof fn lemma_error_stays(archive: Seq<u8>, engine: EngineModel, m: nat, n: nat)
    requires
        m <= n,
        gone_through(archive, engine, m).error is Some,
    ensures
        gone_through(archive, engine, n) == gone_through(archive, engine, m),
    decreases n,
{
    if m < n {
        lemma_error_stays(archive, engine, m, (n - 1) as nat);
    }
}

/// Whether lower-casing does with the ASCII names among the entries that are looked at what is
/// known of it.
pub open spec fn entries_lower_ascii(archive: Seq<u8>, engine: EngineModel) -> bool {
    zip_count(archive) matches Ok(n) ==> forall|i: nat|
        i < n && gone_through(archive, engine, i).error is None ==> match #[trigger] zip_entry_of(
            archive,
            i,
        ) {
            Ok(entry) => lowers_ascii(entry.0),
            Err(_) => true,
        }
}

/// Takes both of the converter's binaries out of an archive.
#[verifier::loop_isolation(false)]
pub fn fetch_ffmpeg_windows(archive: &[u8], engine: &EngineState) -> (r: Extraction)
    ensures
        is_extraction(r, both_binaries(archive@, engine@)),
        partial_was_read(archive@, both_binaries(archive@, engine@), r),
        entries_lower_ascii(archive@, engine@),
{
    let ghost e = engine@;
    let mut writes: Vec<FileWrite> = Vec::new();
    assert(write_models(writes@) =~= Seq::<WriteModel>::empty());
    let n = match foreign::zip_len(archive) {
        Ok(n) => n,
        Err(error) => {
            return Extraction { writes, outcome: Err(error) };
        },
    };
    let mut got_ffmpeg = false;
    let mut got_ffprobe = false;
    let mut i: usize = 0;
    while i < n
        invariant
            i <= n,
            e == engine@,
            gone_through(archive@, e, i as nat) == (Progress {
                writes: write_models(writes@),
                partial: None,
                error: None,
                got_ffmpeg,
                got_ffprobe,
            }),
            forall|k: nat|
                k < i ==> match #[trigger] zip_entry_of(archive@, k) {
                    Ok(entry) => lowers_ascii(entry.0),
                    Err(_) => true,
                },
        decreases n - i,
    {
        let ghost next = gone_through(archive@, e, (i + 1) as nat);
        let (name, _) = match foreign::zip_entry(archive, i) {
            Ok(entry) => entry,
            Err(error) => {
                proof {
                    lemma_stopped(archive@, e, (i + 1) as nat, n as nat);
                }
                return Extraction { writes, outcome: Err(error) };
            },
        };
        let lower = foreign::to_lowercase(name.as_str());
        if let Some(binary) = wanted_binary(lower.as_str()) {
            match binary {
                Binary::Ffmpeg => {
                    got_ffmpeg = true;
                },
                Binary::Ffprobe => {
                    got_ffprobe = true;
                },
            }
            let path = binary_path(engine, binary);
            let (bytes, error) = foreign::entry_data(archive, i);
            let write = FileWrite { path, bytes };
            let ghost before = writes@;
            assert(write_models(writes@.push(write)) =~= write_models(writes@).push(write@));
            writes.push(write);
            if let Some(error) = error {
                proof {
                    lemma_stopped(archive@, e, (i + 1) as nat, n as nat);
                    assert(writes@.drop_last() =~= before);
                    assert(was_read(archive@, i as nat, writes@.last().bytes@));
                }
                return Extraction { writes, outcome: Err(error) };
            }
        }
        i = i + 1;
    }
    let outcome = check_complete(got_ffmpeg, got_ffprobe);
    Extraction { writes, outcome }
}

/// What is taken out of an archive from its entry `from` on: the contents of the first regular
/// file, or why there are none.
pub open spec fn first_file(archive: Seq<u8>, from: nat, count: nat) -> Result<
    Result<Seq<u8>, Seq<char>>,
    Seq<char>,
>
    decreases count - from,
{
    if from >= count {
        Err("Downloaded archive contained no file."@)
    } else {
        match zip_entry_of(archive, from) {
            Ok(entry) => if entry.1 {
                Ok(zip_data_of(archive, from))
            } else {
                first_file(archive, from + 1, count)
            },
            Err(e) => Err(e),
        }
    }
}

/// What is taken out of an archive that holds a single binary, which goes to `path`.
pub open spec fn single_binary(archive: Seq<u8>, path: FilePathModel) -> ExtractionModel {
    match zip_count(archive) {
        Ok(n) => match first_file(archive, 0, n) {
            Ok(Ok(bytes)) => ExtractionModel {
                writes: seq![WriteModel { path, bytes }],
                partial: None,
                outcome: Ok(()),
            },
            Ok(Err(e)) => ExtractionModel {
                writes: Seq::empty(),
                partial: Some(path),
                outcome: Err(e),
            },
            Err(e) => ExtractionModel { writes: Seq::empty(), partial: None, outcome: Err(e) },
        },
        Err(e) => ExtractionModel { writes: Seq::empty(), partial: None, outcome: Err(e) },
    }
}

/// Takes the single binary out of an archive, which goes to `path`.
#[verifier::loop_isolation(false)]
pub fn extract_single_binary(archive: &[u8], path: FilePath) -> (r: Extraction)
    ensures
        is_extraction(r, single_binary(archive@, path@)),
        partial_was_read(archive@, single_binary(archive@, path@), r),
{
    let none: Vec<FileWrite> = Vec::new();
    assert(write_models(none@) =~= Seq::<WriteModel>::empty());
    let n = match foreign::zip_len(archive) {
        Ok(n) => n,
        Err(error) => {
            return Extraction { writes: none, outcome: Err(error) };
        },
    };
    let mut i: usize = 0;
    while i < n
        invariant
            i <= n,
            first_file(archive@, 0, n as nat) == first_file(archive@, i as nat, n as nat),
        decreases n - i,
    {
        let (_, is_file) = match foreign::zip_entry(archive, i) {
            Ok(entry) => entry,
            Err(error) => {
                return Extraction { writes: none, outcome: Err(error) };
            },
        };
        if is_file {
            let (bytes, error) = foreign::entry_data(archive, i);
            let mut writes: Vec<FileWrite> = Vec::new();
            writes.push(FileWrite { path, bytes });
            assert(write_models(writes@) =~= seq![WriteModel { path: path@, bytes: bytes@ }]);
            assert(write_models(writes@.drop_last()) =~= Seq::<WriteModel>::empty());
            let outcome = match error {
                Some(e) => Err(e),
                None => Ok(()),
            };
            let r = Extraction { writes, outcome };
            proof {
                assert(r.writes@.last().bytes@ == bytes@);
                assert(was_read(archive@, i as nat, r.writes@.last().bytes@));
            }
            return r;
        }
        i = i + 1;
    }
    Extraction {
        writes: none,
        outcome: Err(String::from_str("Downloaded archive contained no file.")),
    }
}

/// Whether a path is that of one of the converter's binaries.
pub open spec fn is_binary_path(engine: EngineModel, path: FilePathModel) -> bool {
    path == engine.binary("ffmpeg"@) || path == engine.binary("ffprobe"@)
}

/// Nothing but the converter's binaries is ever written from an archive.
pub proof fn only_binaries_are_written(
    archive: Seq<u8>,
    engine: EngineModel,
    writes: Seq<FileWrite>,
    k: int,
)
    requires
        is_writing(writes, both_binaries(archive, engine)),
        0 <= k < writes.len(),
    ensures
        is_binary_path(engine, writes[k]@.path),
{
    let model = both_binaries(archive, engine);
    match zip_count(archive) {
        Ok(n) => {
            lemma_paths(archive, engine, n);
            if model.partial is Some && k == writes.len() - 1 {
                assert(writes[k]@.path == model.partial->0);
            } else if model.partial is Some {
                assert(write_models(writes.drop_last())[k] == writes[k]@);
                assert(is_binary_path(engine, model.writes[k].path));
            } else {
                assert(write_models(writes)[k] == writes[k]@);
                assert(is_binary_path(engine, model.writes[k].path));
            }
        },
        Err(_) => {
            assert(write_models(writes).len() == model.writes.len());
        },
    }
}

proof fn lemma_paths(archive: Seq<u8>, engine: EngineModel, n: nat)
    ensures
        ({
            let p = gone_through(archive, engine, n);
            &&& forall|k: int|
                0 <= k < p.writes.len() ==> is_binary_path(engine, (#[trigger] p.writes[k]).path)
            &&& p.partial matches Some(path) ==> is_binary_path(engine, path)
        }),
    decreases n,
{
    if n > 0 {
        lemma_paths(archive, engine, (n - 1) as nat);
    }
}

/// An entry of an archive is one of the converter's binaries exactly where its name in lower case
/// ends with the place of that binary, and each is kept under its own name.
pub proof fn binaries_are_known_by_their_place(
    lower: &str,
    r: Option<Binary>,
    engine: EngineState,
    binary: Binary,
    path: FilePath,
    ffmpeg: FilePath,
    ffprobe: FilePath,
)
    requires
        call_ensures(wanted_binary, (lower,), r),
        call_ensures(binary_path, (&engine, binary), path),
        call_ensures(EngineState::bundled_ffmpeg, (&engine,), ffmpeg),
        call_ensures(EngineState::bundled_ffprobe, (&engine,), ffprobe),
    ensures
        r == Some(Binary::Ffmpeg) <==> "bin/ffmpeg.exe"@.is_suffix_of(lower@),
        r == Some(Binary::Ffprobe) <==> "bin/ffprobe.exe"@.is_suffix_of(lower@),
        binary == Binary::Ffmpeg ==> path.dir@ == ffmpeg.dir@ && path.name@ == ffmpeg.name@,
        binary == Binary::Ffprobe ==> path.dir@ == ffprobe.dir@ && path.name@ == ffprobe.name@,
{
    lemma_one_place(lower@);
}

proof fn lemma_one_place(lower: Seq<char>)
    ensures
        !("bin/ffmpeg.exe"@.is_suffix_of(lower) && "bin/ffprobe.exe"@.is_suffix_of(lower)),
{
    reveal_strlit("bin/ffmpeg.exe");
    reveal_strlit("bin/ffprobe.exe");
    let a = "bin/ffmpeg.exe"@;
    let b = "bin/ffprobe.exe"@;
    if a.is_suffix_of(lower) && b.is_suffix_of(lower) {
        let n = lower.len() as int;
        assert(lower.subrange(n - 14, n)[9] == lower[n - 5]);
        assert(lower.subrange(n - 15, n)[10] == lower[n - 5]);
        assert(a[9] == 'g' && b[10] == 'e');
    }
}

/// Whether an entry of an archive is a file at the given place, with the given contents.
pub open spec fn holds_file(archive: Seq<u8>, i: nat, place: Seq<char>, bytes: Seq<u8>) -> bool {
    &&& zip_entry_of(archive, i) matches Ok(entry) && place.is_suffix_of(lowercase(entry.0))
    &&& zip_data_of(archive, i) == Ok::<Seq<u8>, Seq<char>>(bytes)
}

/// Whether a write puts a file of an archive where the converter's binary that stands there is kept.
pub open spec fn is_binary_write(
    archive: Seq<u8>,
    engine: EngineModel,
    write: WriteModel,
    i: nat,
) -> bool {
    ||| write.path == engine.binary("ffmpeg"@) && holds_file(
        archive,
        i,
        "bin/ffmpeg.exe"@,
        write.bytes,
    )
    ||| write.path == engine.binary("ffprobe"@) && holds_file(
        archive,
        i,
        "bin/ffprobe.exe"@,
        write.bytes,
    )
}

/// Whether one of the first `n` entries of an archive is what a write puts there.
pub open spec fn comes_out(
    archive: Seq<u8>,
    engine: EngineModel,
    write: WriteModel,
    n: nat,
) -> bool {
    exists|i: nat| i < n && is_binary_write(archive, engine, write, i)
}

/// Whether any of the writes goes to a path.
pub open spec fn writes_to(writes: Seq<WriteModel>, path: FilePathModel) -> bool {
    exists|k: int| 0 <= k < writes.len() && (#[trigger] writes[k]).path == path
}

proof fn lemma_gone_through(archive: Seq<u8>, engine: EngineModel, n: nat)
    ensures
        forall|k: int|
            0 <= k < gone_through(archive, engine, n).writes.len() ==> comes_out(
                archive,
                engine,
                #[trigger] gone_through(archive, engine, n).writes[k],
                n,
            ),
        gone_through(archive, engine, n).error is None ==> gone_through(
            archive,
            engine,
            n,
        ).partial is None,
        gone_through(archive, engine, n).error is None && gone_through(archive, engine, n).got_ffmpeg
            ==> writes_to(gone_through(archive, engine, n).writes, engine.binary("ffmpeg"@)),
        gone_through(archive, engine, n).error is None && gone_through(
            archive,
            engine,
            n,
        ).got_ffprobe ==> writes_to(
            gone_through(archive, engine, n).writes,
            engine.binary("ffprobe"@),
        ),
    decreases n,
{
    if n > 0 {
        let m = (n - 1) as nat;
        lemma_gone_through(archive, engine, m);
        let before = gone_through(archive, engine, m);
        let p = gone_through(archive, engine, n);
        let last = before.writes.len() as int;
        assert forall|k: int| 0 <= k < p.writes.len() implies comes_out(
            archive,
            engine,
            #[trigger] p.writes[k],
            n,
        ) by {
            if k < last {
                assert(p.writes[k] == before.writes[k]);
                let i = choose|i: nat| i < m && is_binary_write(archive, engine, before.writes[k], i);
                assert(is_binary_write(archive, engine, p.writes[k], i));
            } else {
                assert(is_binary_write(archive, engine, p.writes[k], m));
            }
        }
        if p.error is None {
            assert(before.error is None);
            assert forall|path: FilePathModel| writes_to(before.writes, path) implies writes_to(
                p.writes,
                path,
            ) by {
                let k = choose|k: int|
                    0 <= k < before.writes.len() && (#[trigger] before.writes[k]).path == path;
                assert(p.writes[k] == before.writes[k]);
            }
            if p.writes.len() > last {
                assert(p.writes[last].path == p.writes.last().path);
                assert(writes_to(p.writes, p.writes[last].path));
            }
        }
    }
}

/// What is taken out of the archive for Windows is what stands there at the places of the two
/// binaries, each written where it is kept; and it ends well only where both were written.
pub proof fn both_binaries_come_out(
    archive: &[u8],
    engine: EngineState,
    r: Extraction,
    ffmpeg: FilePath,
    ffprobe: FilePath,
    k: int,
)
    requires
        call_ensures(fetch_ffmpeg_windows, (archive, &engine), r),
        call_ensures(EngineState::bundled_ffmpeg, (&engine,), ffmpeg),
        call_ensures(EngineState::bundled_ffprobe, (&engine,), ffprobe),
        r.outcome is Ok,
    ensures
        0 <= k < r.writes@.len() ==> exists|i: nat|
            {
                ||| r.writes@[k].path@ == ffmpeg@ && #[trigger] holds_file(
                    archive@,
                    i,
                    "bin/ffmpeg.exe"@,
                    r.writes@[k].bytes@,
                )
                ||| r.writes@[k].path@ == ffprobe@ && #[trigger] holds_file(
                    archive@,
                    i,
                    "bin/ffprobe.exe"@,
                    r.writes@[k].bytes@,
                )
            },
        exists|j: int| 0 <= j < r.writes@.len() && (#[trigger] r.writes@[j]).path@ == ffmpeg@,
        exists|j: int| 0 <= j < r.writes@.len() && (#[trigger] r.writes@[j]).path@ == ffprobe@,
{
    let n = zip_count(archive@)->Ok_0;
    lemma_gone_through(archive@, engine@, n);
    let p = gone_through(archive@, engine@, n);
    assert(p.error is None && p.got_ffmpeg && p.got_ffprobe);
    assert(write_models(r.writes@) == p.writes);
    assert(write_models(r.writes@).len() == r.writes@.len());
    assert forall|j: int| 0 <= j < r.writes@.len() implies (#[trigger] r.writes@[j])@
        == p.writes[j] by {
        assert(write_models(r.writes@)[j] == r.writes@[j]@);
    }
    if 0 <= k < r.writes@.len() {
        assert(p.writes[k] == r.writes@[k]@);
        let i = choose|i: nat| i < n && is_binary_write(archive@, engine@, p.writes[k], i);
        let a = holds_file(archive@, i, "bin/ffmpeg.exe"@, r.writes@[k].bytes@);
        let b = holds_file(archive@, i, "bin/ffprobe.exe"@, r.writes@[k].bytes@);
    }
    let x = choose|x: int|
        0 <= x < p.writes.len() && (#[trigger] p.writes[x]).path == engine@.binary("ffmpeg"@);
    let y = choose|y: int|
        0 <= y < p.writes.len() && (#[trigger] p.writes[y]).path == engine@.binary("ffprobe"@);
    assert(r.writes@[x]@ == p.writes[x]);
    assert(r.writes@[y]@ == p.writes[y]);
}

proof fn lemma_first_file(archive: Seq<u8>, from: nat, count: nat)
    ensures
        first_file(archive, from, count) matches Ok(data) ==> exists|i: nat|
            {
                &&& from <= i < count
                &&& (zip_entry_of(archive, i) matches Ok(entry) && entry.1)
                &&& data == #[trigger] zip_data_of(archive, i)
                &&& forall|j: nat|
                    from <= j < i ==> (#[trigger] zip_entry_of(archive, j) matches Ok(entry)
                        && !entry.1)
            },
    decreases count - from,
{
    if from < count {
        if let Ok(entry) = zip_entry_of(archive, from) {
            if entry.1 {
                let data = zip_data_of(archive, from);
            } else {
                lemma_first_file(archive, from + 1, count);
                if let Ok(data) = first_file(archive, from, count) {
                    let i = choose|i: nat|
                        {
                            &&& from + 1 <= i < count
                            &&& (zip_entry_of(archive, i) matches Ok(entry) && entry.1)
                            &&& data == #[trigger] zip_data_of(archive, i)
                            &&& forall|j: nat|
                                from + 1 <= j < i ==> (#[trigger] zip_entry_of(
                                    archive,
                                    j,
                                ) matches Ok(entry) && !entry.1)
                        };
                    assert(data == zip_data_of(archive, i));
                }
            }
        }
    }
}

/// What is taken out of an archive with a single binary is the whole of its first regular file,
/// written to the place that was named, and nothing else; without one it does not end well.
pub proof fn first_file_comes_out(archive: &[u8], path: FilePath, r: Extraction)
    requires
        call_ensures(extract_single_binary, (archive, path), r),
    ensures
        r.outcome is Ok ==> write_models(r.writes@).len() == 1 && write_models(r.writes@)[0].path
            == path@ && exists|i: nat|
            {
                &&& (zip_entry_of(archive@, i) matches Ok(entry) && entry.1)
                &&& #[trigger] zip_data_of(archive@, i) == Ok::<Seq<u8>, Seq<char>>(
                    write_models(r.writes@)[0].bytes,
                )
                &&& forall|j: nat|
                    j < i ==> (#[trigger] zip_entry_of(archive@, j) matches Ok(entry) && !entry.1)
            },
        zip_count(archive@) is Err ==> r.outcome is Err,
{
    if r.outcome is Ok {
        let n = zip_count(archive@)->Ok_0;
        lemma_first_file(archive@, 0, n);
    }
}

/// An archive is complete exactly where both binaries were found in it.
pub proof fn both_binaries_are_needed(got_ffmpeg: bool, got_ffprobe: bool, r: Result<(), String>)
    requires
        call_ensures(check_complete, (got_ffmpeg, got_ffprobe), r),
    ensures
        r is Ok <==> got_ffmpeg && got_ffprobe,
        r matches Err(e) ==> e@
            == "Could not extract ffmpeg/ffprobe from the downloaded archive."@,
{
}

} // verus!
