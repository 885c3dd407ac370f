//! The files in a folder, and which of them a finished download left there.

use crate::foreign::{self, lowercase, lowers_ascii};
use crate::names::{basename, has_stream_tag, has_tag, is_base_name};
use crate::text::{ends_with, outcome, same};
use vstd::prelude::*;

verus! {

/// A file in a folder.
pub struct FileEntry {
    pub name: String,
    pub size: u64,
    pub path: String,
    /// When the file was last written, in milliseconds since the start of 1970.
    pub modified_ms: u128,
}

/// The model of `FileEntry`.
#[verifier::ext_equal]
pub struct FileModel {
    pub name: Seq<char>,
    pub size: u64,
    pub path: Seq<char>,
    pub modified_ms: u128,
}

impl View for FileEntry {
    type V = FileModel;

    open spec fn view(&self) -> FileModel {
        FileModel {
            name: self.name@,
            size: self.size,
            path: self.path@,
            modified_ms: self.modified_ms,
        }
    }
}

impl Clone for FileEntry {
    fn clone(&self) -> (r: Self)
        ensures
            r@ == self@,
    {
        FileEntry {
            name: self.name.clone(),
            size: self.size,
            path: self.path.clone(),
            modified_ms: self.modified_ms,
        }
    }
}

/// The models of a list of files.
pub open spec fn file_models(list: Seq<FileEntry>) -> Seq<FileModel> {
    list.map_values(|f: FileEntry| f@)
}

/// The test for files that are not still being loaded.
pub open spec fn is_whole() -> spec_fn(FileModel) -> bool {
    |f: FileModel| !".part"@.is_suffix_of(f.name)
}

/// The test for files that were last written at the time `ms`.
pub open spec fn written_at(ms: u128) -> spec_fn(FileModel) -> bool {
    |f: FileModel| f.modified_ms == ms
}

/// Whether no file in `list` was written later than one before it.
pub open spec fn is_newest_first(list: Seq<FileModel>) -> bool {
    forall|i: int, j: int|
        0 <= i < j < list.len() ==> (#[trigger] list[i]).modified_ms >= (
        #[trigger] list[j]).modified_ms
}

/// Whether `sorted` holds the files of `list`, newest first, where files of one time keep their
/// order.
pub open spec fn is_sorting_of(sorted: Seq<FileModel>, list: Seq<FileModel>) -> bool {
    &&& is_newest_first(sorted)
    &&& forall|ms: u128|
        #![trigger written_at(ms)]
        sorted.filter(written_at(ms)) == list.filter(written_at(ms))
}

proof fn lemma_insert_sorting(
    sorted: Seq<FileModel>,
    list: Seq<FileModel>,
    file: FileModel,
    at: int,
)
    requires
        is_sorting_of(sorted, list),
        0 <= at <= sorted.len(),
        forall|k: int| 0 <= k < at ==> (#[trigger] sorted[k]).modified_ms >= file.modified_ms,
        forall|k: int|
            at <= k < sorted.len() ==> (#[trigger] sorted[k]).modified_ms < file.modified_ms,
    ensures
        is_sorting_of(sorted.insert(at, file), list.push(file)),
{
    let r = sorted.insert(at, file);
    let head = sorted.take(at);
    let tail = sorted.skip(at);
    assert(sorted =~= head + tail);
    assert(r =~= head.push(file) + tail);
    assert forall|i: int, j: int| 0 <= i < j < r.len() implies (#[trigger] r[i]).modified_ms >= (
    #[trigger] r[j]).modified_ms by {
        if i < at {
            assert(r[i] == sorted[i]);
        } else if i > at {
            assert(r[i] == sorted[i - 1]);
        }
        if j < at {
            assert(r[j] == sorted[j]);
        } else if j > at {
            assert(r[j] == sorted[j - 1]);
        }
    }
    assert forall|ms: u128| #![trigger written_at(ms)]
        r.filter(written_at(ms)) == list.push(file).filter(written_at(ms)) by {
        let p = written_at(ms);
        Seq::filter_distributes_over_add(head, tail, p);
        Seq::filter_distributes_over_add(head.push(file), tail, p);
        head.lemma_filter_push(file, p);
        list.lemma_filter_push(file, p);
        assert(sorted.filter(p) == list.filter(p));
        if file.modified_ms == ms {
            assert forall|k: int| 0 <= k < tail.len() implies !p(#[trigger] tail[k]) by {
                assert(tail[k] == sorted[at + k]);
            }
            lemma_filter_none(tail, p);
            assert(head.filter(p) + tail.filter(p) =~= head.filter(p));
            assert(head.filter(p).push(file) + tail.filter(p) =~= head.filter(p).push(file));
        }
    }
}

proof fn lemma_filter_none(s: Seq<FileModel>, p: spec_fn(FileModel) -> bool)
    requires
        forall|k: int| 0 <= k < s.len() ==> !p(#[trigger] s[k]),
    ensures
        s.filter(p) == Seq::<FileModel>::empty(),
    decreases s.len(),
{
    reveal(Seq::filter);
    if s.len() > 0 {
        assert forall|k: int| 0 <= k < s.drop_last().len() implies !p(
            #[trigger] s.drop_last()[k],
        ) by {
            assert(s.drop_last()[k] == s[k]);
        }
        lemma_filter_none(s.drop_last(), p);
        assert(!p(s[s.len() - 1]));
    } else {
        assert(s.filter(p) =~= Seq::<FileModel>::empty());
    }
}

proof fn lemma_filter_some(s: Seq<FileModel>, p: spec_fn(FileModel) -> bool, k: int)
    requires
        0 <= k < s.len(),
        p(s[k]),
    ensures
        s.filter(p).len() > 0,
    decreases s.len(),
{
    reveal(Seq::filter);
    if k < s.len() - 1 {
        assert(s.drop_last()[k] == s[k]);
        lemma_filter_some(s.drop_last(), p, k);
    }
}

proof fn lemma_top_time(a: Seq<FileModel>, b: Seq<FileModel>)
    requires
        is_newest_first(b),
        a.len() > 0,
        forall|ms: u128|
            #![trigger written_at(ms)]
            a.filter(written_at(ms)) == b.filter(written_at(ms)),
    ensures
        b.len() > 0,
        b[0].modified_ms >= a[0].modified_ms,
{
    let p = written_at(a[0].modified_ms);
    lemma_filter_some(a, p, 0);
    assert(b.filter(p).len() > 0);
    if forall|k: int| 0 <= k < b.len() ==> !p(#[trigger] b[k]) {
        lemma_filter_none(b, p);
    }
    let k = choose|k: int| 0 <= k < b.len() && p(#[trigger] b[k]);
    if k > 0 {
        assert(b[0].modified_ms >= b[k].modified_ms);
    }
}

/// There is only one way to sort a list of files newest first that keeps the order of files of
/// one time.
pub proof fn sorting_is_unique(a: Seq<FileModel>, b: Seq<FileModel>, list: Seq<FileModel>)
    requires
        is_sorting_of(a, list),
        is_sorting_of(b, list),
    ensures
        a == b,
{
    assert forall|ms: u128| #![trigger written_at(ms)]
        a.filter(written_at(ms)) == b.filter(written_at(ms)) by {
        assert(a.filter(written_at(ms)) == list.filter(written_at(ms)));
        assert(b.filter(written_at(ms)) == list.filter(written_at(ms)));
    }
    lemma_sorting_unique(a, b);
}

proof fn lemma_sorting_unique(a: Seq<FileModel>, b: Seq<FileModel>)
    requires
        is_newest_first(a),
        is_newest_first(b),
        forall|ms: u128|
            #![trigger written_at(ms)]
            a.filter(written_at(ms)) == b.filter(written_at(ms)),
    ensures
        a == b,
    decreases a.len(),
{
    if a.len() == 0 && b.len() == 0 {
        assert(a =~= b);
    } else {
        if a.len() > 0 {
            lemma_top_time(a, b);
        }
        lemma_top_time(b, a);
        let (x, y) = (a[0], b[0]);
        let (ra, rb) = (a.drop_first(), b.drop_first());
        assert(a =~= seq![x] + ra);
        assert(b =~= seq![y] + rb);
        let top = written_at(x.modified_ms);
        ra.lemma_filter_prepend(x, top);
        rb.lemma_filter_prepend(y, top);
        assert(a.filter(top)[0] == x);
        assert(b.filter(top)[0] == y);
        assert forall|ms: u128| #![trigger written_at(ms)]
            ra.filter(written_at(ms)) == rb.filter(written_at(ms)) by {
            let p = written_at(ms);
            ra.lemma_filter_prepend(x, p);
            rb.lemma_filter_prepend(y, p);
            assert(a.filter(p) == b.filter(p));
            if ms == x.modified_ms {
                assert(ra.filter(p) =~= a.filter(p).drop_first());
                assert(rb.filter(p) =~= b.filter(p).drop_first());
            }
        }
        assert(is_newest_first(ra)) by {
            assert forall|i: int, j: int| 0 <= i < j < ra.len() implies (
            #[trigger] ra[i]).modified_ms >= (#[trigger] ra[j]).modified_ms by {
                assert(ra[i] == a[i + 1] && ra[j] == a[j + 1]);
            }
        }
        assert(is_newest_first(rb)) by {
            assert forall|i: int, j: int| 0 <= i < j < rb.len() implies (
            #[trigger] rb[i]).modified_ms >= (#[trigger] rb[j]).modified_ms by {
                assert(rb[i] == b[i + 1] && rb[j] == b[j + 1]);
            }
        }
        lemma_sorting_unique(ra, rb);
    }
}

/// The whole files of a folder, newest first.
pub fn list_files(entries: Vec<FileEntry>) -> (r: Vec<FileEntry>)
    ensures
        is_sorting_of(file_models(r@), file_models(entries@).filter(is_whole())),
{
    let ghost m = file_models(entries@);
    let mut r: Vec<FileEntry> = Vec::new();
    let mut i: usize = 0;
    proof {
        reveal(Seq::filter);
        assert(m.take(0).filter(is_whole()) =~= Seq::<FileModel>::empty());
        assert(file_models(r@) =~= Seq::<FileModel>::empty());
    }
    while i < entries.len()
        invariant
            i <= entries@.len(),
            m == file_models(entries@),
            is_sorting_of(file_models(r@), m.take(i as int).filter(is_whole())),
        decreases entries.len() - i,
    {
        let file = &entries[i];
        let ghost before = file_models(r@);
        proof {
            reveal(Seq::filter);
            assert(m.take(i + 1).drop_last() =~= m.take(i as int));
            assert(m.take(i + 1).last() == file@);
        }
        if !ends_with(file.name.as_str(), ".part") {
            let mut at: usize = 0;
            while at < r.len() && r[at].modified_ms >= file.modified_ms
                invariant
                    at <= r@.len(),
                    before == file_models(r@),
                    forall|k: int|
                        0 <= k < at ==> (#[trigger] before[k]).modified_ms >= file@.modified_ms,
                decreases r.len() - at,
            {
                assert(before[at as int].modified_ms >= file@.modified_ms);
                at = at + 1;
            }
            let copy = file.clone();
            proof {
                assert forall|k: int| at <= k < before.len() implies (
                #[trigger] before[k]).modified_ms < file@.modified_ms by {
                    assert(before[at as int].modified_ms < file@.modified_ms);
                    if k > at {
                        assert(before[at as int].modified_ms >= before[k].modified_ms);
                    }
                }
                lemma_insert_sorting(
                    before,
                    m.take(i as int).filter(is_whole()),
                    file@,
                    at as int,
                );
                assert(file_models(r@.insert(at as int, copy)) =~= before.insert(
                    at as int,
                    file@,
                ));
            }
            r.insert(at, copy);
        }
        i = i + 1;
    }
    assert(m.take(m.len() as int) =~= m);
    r
}

/// Whether `newest` is the latest of the known times.
pub open spec fn is_latest(newest: Option<u128>, times: Seq<Option<u128>>) -> bool {
    match newest {
        Some(ms) => {
            &&& times.contains(Some(ms))
            &&& forall|i: int| 0 <= i < times.len() ==> match #[trigger] times[i] {
                Some(other) => other <= ms,
                None => true,
            }
        },
        None => forall|i: int| 0 <= i < times.len() ==> (#[trigger] times[i]) is None,
    }
}

/// The latest of the known times.
pub fn newest_mtime(times: &Vec<Option<u128>>) -> (r: Option<u128>)
    ensures
        is_latest(r, times@),
{
    let mut newest: Option<u128> = None;
    let mut i: usize = 0;
    while i < times.len()
        invariant
            i <= times@.len(),
            is_latest(newest, times@.take(i as int)),
        decreases times.len() - i,
    {
        let ghost seen = times@.take(i as int);
        let ghost now = times@.take(i + 1);
        let ghost before = newest;
        assert(now =~= seen.push(times@[i as int]));
        if let Some(ms) = times[i] {
            newest = match newest {
                Some(cur) => if cur >= ms {
                    Some(cur)
                } else {
                    Some(ms)
                },
                None => Some(ms),
            };
        }
        proof {
            assert(now[i as int] == times@[i as int]);
            if before is Some {
                let k = choose|k: int| 0 <= k < seen.len() && seen[k] == before;
                assert(now[k] == before);
            }
            assert forall|k: int| 0 <= k < now.len() implies match #[trigger] now[k] {
                Some(other) => newest matches Some(ms) && other <= ms,
                None => true,
            } by {
                if k < i {
                    assert(now[k] == seen[k]);
                }
            }
        }
        i = i + 1;
    }
    assert(times@.take(times@.len() as int) =~= times@);
    newest
}

/// How far before the start of a download its files may have been written, in milliseconds.
pub const CLOCK_SLACK_MS: u128 = 2000;

/// The time from which on a file counts as made by a download that began at `started_ms`.
pub open spec fn made_after(started_ms: u128) -> int {
    if started_ms < CLOCK_SLACK_MS {
        0
    } else {
        started_ms - CLOCK_SLACK_MS
    }
}

/// Whether a file is the output of a download in the format `preset` that began at `started_ms`.
pub open spec fn is_output(file: FileModel, preset: Seq<char>, started_ms: u128) -> bool {
    &&& file.modified_ms >= made_after(started_ms)
    &&& ("."@ + lowercase(preset)).is_suffix_of(lowercase(file.name))
    &&& !has_stream_tag(lowercase(file.name))
}

/// Whether the file at `at` is the first output in `files`.
pub open spec fn is_first_output(
    files: Seq<FileModel>,
    preset: Seq<char>,
    started_ms: u128,
    at: int,
) -> bool {
    &&& 0 <= at < files.len()
    &&& is_output(files[at], preset, started_ms)
    &&& forall|k: int| 0 <= k < at ==> !is_output(#[trigger] files[k], preset, started_ms)
}

/// Whether any of the files was made by a download that began at `started_ms`.
pub open spec fn any_made(files: Seq<FileModel>, started_ms: u128) -> bool {
    exists|k: int|
        0 <= k < files.len() && (#[trigger] files[k]).modified_ms >= made_after(started_ms)
}

/// Why a download that left files but no output failed.
pub open spec fn unfinished_reason(preset: Seq<char>) -> Seq<char> {
    if preset == "mp4"@ {
        "The video was downloaded, but it was not merged correctly. ffmpeg or ffprobe was not resolved correctly."@
    } else {
        "The audio was downloaded, but it was not converted correctly. ffmpeg or ffprobe was not resolved correctly."@
    }
}

/// Whether lower-casing does with the ASCII names among the files what is known of it.
pub open spec fn names_lower_ascii(files: Seq<FileModel>) -> bool {
    forall|k: int| 0 <= k < files.len() ==> lowers_ascii((#[trigger] files[k]).name)
}

/// The names of the files in lower case.
fn lower_names(files: &Vec<FileEntry>) -> (r: Vec<String>)
    ensures
        r@.len() == files@.len(),
        forall|k: int|
            0 <= k < r@.len() ==> (#[trigger] r@[k])@ == lowercase(file_models(files@)[k].name),
        names_lower_ascii(file_models(files@)),
{
    let ghost m = file_models(files@);
    let mut r: Vec<String> = Vec::new();
    let mut i: usize = 0;
    while i < files.len()
        invariant
            i <= files@.len(),
            m == file_models(files@),
            r@.len() == i,
            forall|k: int| 0 <= k < i ==> (#[trigger] r@[k])@ == lowercase(m[k].name),
            forall|k: int| 0 <= k < i ==> lowers_ascii((#[trigger] m[k]).name),
        decreases files.len() - i,
    {
        assert(m[i as int] == files@[i as int]@);
        r.push(foreign::to_lowercase(files[i].name.as_str()));
        i = i + 1;
    }
    r
}

/// Whether `r` is the name of the file that a download left among `files`, or why there is none.
pub open spec fn is_found(
    files: Seq<FileModel>,
    preset: Seq<char>,
    started_ms: u128,
    r: Result<Seq<char>, Seq<char>>,
) -> bool {
    match r {
        Ok(name) => exists|at: int| #[trigger]
            is_first_output(files, preset, started_ms, at) && name == files[at].name,
        Err(e) => {
            &&& forall|k: int|
                0 <= k < files.len() ==> !is_output(#[trigger] files[k], preset, started_ms)
            &&& e == if any_made(files, started_ms) {
                unfinished_reason(preset)
            } else {
                "No final output file was found."@
            }
        },
    }
}

/// Whether `r` is the name of the file that a download left: the one it reported, where that file
/// is there, and else the one found among `files`; or why there is none.
pub open spec fn is_resolved(
    reported: Option<Seq<char>>,
    reported_exists: bool,
    files: Seq<FileModel>,
    preset: Seq<char>,
    started_ms: u128,
    r: Result<Seq<char>, Seq<char>>,
) -> bool {
    match reported {
        Some(path) if reported_exists => r matches Ok(name) && is_base_name(path, name),
        _ => is_found(files, preset, started_ms, r),
    }
}

/// The name of the file that a download left among `files`, or why there is none.
#[verifier::loop_isolation(false)]
pub fn find_output(files: &Vec<FileEntry>, preset: &str, started_ms: u128) -> (r: Result<
    String,
    String,
>)
    ensures
        is_found(file_models(files@), preset@, started_ms, outcome(r)),
        lowers_ascii(preset@),
        names_lower_ascii(file_models(files@)),
{
    let ghost m = file_models(files@);
    let after: u128 = if started_ms < CLOCK_SLACK_MS {
        0
    } else {
        started_ms - CLOCK_SLACK_MS
    };
    let ext = String::from_str(".").concat(foreign::to_lowercase(preset).as_str());
    let lowers = lower_names(files);
    let mut any = false;
    let mut i: usize = 0;
    while i < files.len()
        invariant
            i <= files@.len(),
            forall|k: int| 0 <= k < i ==> !is_output(#[trigger] m[k], preset@, started_ms),
            any <==> exists|k: int|
                0 <= k < i && (#[trigger] m[k]).modified_ms >= made_after(started_ms),
        decreases files.len() - i,
    {
        let file = &files[i];
        assert(m[i as int] == file@);
        let recent = file.modified_ms >= after;
        let lower = lowers[i].as_str();
        if recent && ends_with(lower, ext.as_str()) && !has_tag(lower) {
            let name = file.name.clone();
            assert(is_first_output(m, preset@, started_ms, i as int));
            return Ok(name);
        }
        if recent {
            any = true;
        }
        i = i + 1;
    }
    if any {
        if same(preset, "mp4") {
            return Err(
                String::from_str(
                    "The video was downloaded, but it was not merged correctly. ffmpeg or ffprobe was not resolved correctly.",
                ),
            );
        }
        return Err(
            String::from_str(
                "The audio was downloaded, but it was not converted correctly. ffmpeg or ffprobe was not resolved correctly.",
            ),
        );
    }
    Err(String::from_str("No final output file was found."))
}

/// The name of the file that a download left: the one it reported, where that file is there,
/// and else the one found among `files`; or why there is none.
pub fn resolve_completed_output(
    reported_path: Option<&str>,
    reported_exists: bool,
    files: &Vec<FileEntry>,
    preset: &str,
    started_ms: u128,
) -> (r: Result<String, String>)
    ensures
        is_resolved(
            match reported_path {
                Some(path) => Some(path@),
                None => None,
            },
            reported_exists,
            file_models(files@),
            preset@,
            started_ms,
            outcome(r),
        ),
        !(reported_path is Some && reported_exists) ==> lowers_ascii(preset@) && names_lower_ascii(
            file_models(files@),
        ),
{
    if let Some(path) = reported_path {
        if reported_exists {
            return Ok(basename(path));
        }
    }
    find_output(files, preset, started_ms)
}

/// The test for one file.
pub open spec fn is_file(file: FileModel) -> spec_fn(FileModel) -> bool {
    |f: FileModel| f == file
}

proof fn lemma_filter_twice(
    list: Seq<FileModel>,
    wide: spec_fn(FileModel) -> bool,
    narrow: spec_fn(FileModel) -> bool,
)
    requires
        forall|f: FileModel| #[trigger] narrow(f) ==> wide(f),
    ensures
        list.filter(wide).filter(narrow) == list.filter(narrow),
    decreases list.len(),
{
    reveal(Seq::filter);
    if list.len() > 0 {
        lemma_filter_twice(list.drop_last(), wide, narrow);
        let front = list.drop_last().filter(wide);
        if wide(list.last()) {
            assert(front.push(list.last()).drop_last() =~= front);
        }
    }
}

proof fn lemma_filter_nothing(list: Seq<FileModel>, test: spec_fn(FileModel) -> bool)
    requires
        forall|f: FileModel| list.contains(f) ==> !#[trigger] test(f),
    ensures
        list.filter(test).len() == 0,
    decreases list.len(),
{
    reveal(Seq::filter);
    if list.len() > 0 {
        let front = list.drop_last();
        assert(list.contains(list[list.len() - 1]));
        assert forall|f: FileModel| front.contains(f) implies list.contains(f) by {
            let k = choose|k: int| 0 <= k < front.len() && front[k] == f;
            assert(list[k] == f);
        }
        lemma_filter_nothing(front, test);
    }
}

proof fn lemma_filtered(list: Seq<FileModel>, test: spec_fn(FileModel) -> bool)
    ensures
        forall|k: int| 0 <= k < list.filter(test).len() ==> test(#[trigger] list.filter(test)[k]),
    decreases list.len(),
{
    reveal(Seq::filter);
    if list.len() > 0 {
        lemma_filtered(list.drop_last(), test);
    }
}

/// The list of files has each file that is not still being loaded, as often as it was found, and
/// no other, and a file that was written later comes before one that was written earlier.
pub proof fn listed_files_are_the_whole_ones(
    files: Vec<FileEntry>,
    r: Vec<FileEntry>,
    file: FileModel,
)
    requires
        call_ensures(list_files, (files,), r),
    ensures
        ".part"@.is_suffix_of(file.name) ==> file_models(r@).filter(is_file(file)).len() == 0,
        !".part"@.is_suffix_of(file.name) ==> file_models(r@).filter(is_file(file)) == file_models(
            files@,
        ).filter(is_file(file)),
        forall|i: int, j: int|
            0 <= i < j < r@.len() ==> (#[trigger] r@[i]).modified_ms >= (#[trigger] r@[j]).modified_ms,
{
    let sorted = file_models(r@);
    let given = file_models(files@);
    let whole = given.filter(is_whole());
    let one = is_file(file);
    let then = written_at(file.modified_ms);
    lemma_filter_twice(sorted, then, one);
    lemma_filter_twice(whole, then, one);
    assert(sorted.filter(then) == whole.filter(then));
    assert(sorted.filter(one) == whole.filter(one));
    if !".part"@.is_suffix_of(file.name) {
        lemma_filter_twice(given, is_whole(), one);
    } else {
        lemma_filtered(given, is_whole());
        lemma_filter_nothing(whole, one);
    }
    assert forall|i: int, j: int| 0 <= i < j < r@.len() implies (#[trigger] r@[i]).modified_ms >= (
    #[trigger] r@[j]).modified_ms by {
        assert(sorted[i].modified_ms >= sorted[j].modified_ms);
    }
}

/// The newest time is one of the known times, and none of them is later; there is none only where
/// none is known.
pub proof fn newest_time_is_not_exceeded(times: Vec<Option<u128>>, r: Option<u128>, k: int)
    requires
        call_ensures(newest_mtime, (&times,), r),
        0 <= k < times@.len(),
    ensures
        times@[k] matches Some(ms) ==> (r matches Some(newest) && ms <= newest),
        r is Some ==> times@.contains(r),
{
}

/// Whether a file can be what a download in a format leaves: it was written at most two seconds
/// before the download began, or later, has the format as its extension in letters of any case,
/// and is no stream that waits to be merged.
pub open spec fn can_be_output(file: FileEntry, preset: Seq<char>, started_ms: u128) -> bool {
    &&& file.modified_ms + 2000 >= started_ms
    &&& ("."@ + lowercase(preset)).is_suffix_of(lowercase(file.name@))
    &&& !has_stream_tag(lowercase(file.name@))
}

/// What a download left is the first file that it can have left, and it is found where there is
/// one; else the reason tells whether the download wrote anything at all, and what it failed to do
/// with it.
pub proof fn first_output_is_found(
    files: Vec<FileEntry>,
    preset: &str,
    started_ms: u128,
    r: Result<String, String>,
)
    requires
        call_ensures(find_output, (&files, preset, started_ms), r),
    ensures
        r matches Ok(name) ==> exists|at: int|
            {
                &&& 0 <= at < files@.len()
                &&& can_be_output(#[trigger] files@[at], preset@, started_ms)
                &&& name@ == files@[at].name@
                &&& forall|k: int|
                    0 <= k < at ==> !can_be_output(#[trigger] files@[k], preset@, started_ms)
            },
        r matches Err(e) ==> {
            &&& forall|k: int|
                0 <= k < files@.len() ==> !can_be_output(
                    #[trigger] files@[k],
                    preset@,
                    started_ms,
                )
            &&& (forall|k: int|
                0 <= k < files@.len() ==> (#[trigger] files@[k]).modified_ms + 2000 < started_ms)
                ==> e@ == "No final output file was found."@
            &&& (exists|k: int|
                0 <= k < files@.len() && (#[trigger] files@[k]).modified_ms + 2000 >= started_ms)
                ==> e@ == if preset@ == "mp4"@ {
                "The video was downloaded, but it was not merged correctly. ffmpeg or ffprobe was not resolved correctly."@
            } else {
                "The audio was downloaded, but it was not converted correctly. ffmpeg or ffprobe was not resolved correctly."@
            }
        },
{
    let m = file_models(files@);
    assert forall|k: int| 0 <= k < files@.len() implies can_be_output(
        #[trigger] files@[k],
        preset@,
        started_ms,
    ) == is_output(m[k], preset@, started_ms) by {}
    assert forall|k: int| 0 <= k < files@.len() implies ((#[trigger] files@[k]).modified_ms + 2000
        >= started_ms) == (m[k].modified_ms >= made_after(started_ms)) by {}
    match r {
        Ok(name) => {
            let at = choose|at: int| #[trigger]
                is_first_output(m, preset@, started_ms, at) && name@ == m[at].name;
            assert(can_be_output(files@[at], preset@, started_ms));
            assert forall|k: int| 0 <= k < at implies !can_be_output(
                #[trigger] files@[k],
                preset@,
                started_ms,
            ) by {
                assert(!is_output(m[k], preset@, started_ms));
            }
        },
        Err(e) => {
            assert forall|k: int| 0 <= k < files@.len() implies !can_be_output(
                #[trigger] files@[k],
                preset@,
                started_ms,
            ) by {
                assert(!is_output(m[k], preset@, started_ms));
            }
            if any_made(m, started_ms) {
                let k = choose|k: int|
                    0 <= k < m.len() && (#[trigger] m[k]).modified_ms >= made_after(started_ms);
                assert(files@[k].modified_ms + 2000 >= started_ms);
            }
            if exists|k: int|
                0 <= k < files@.len() && (#[trigger] files@[k]).modified_ms + 2000 >= started_ms {
                let k = choose|k: int|
                    0 <= k < files@.len() && (#[trigger] files@[k]).modified_ms + 2000
                        >= started_ms;
                assert(m[k].modified_ms >= made_after(started_ms));
            }
        },
    }
}

/// A file that the download reported and that is there is what it left; only without one, the
/// files are searched.
pub proof fn reported_file_counts_first(
    reported_path: Option<&str>,
    reported_exists: bool,
    files: Vec<FileEntry>,
    preset: &str,
    started_ms: u128,
    r: Result<String, String>,
)
    requires
        call_ensures(
            resolve_completed_output,
            (reported_path, reported_exists, &files, preset, started_ms),
            r,
        ),
    ensures
        reported_exists ==> (reported_path matches Some(path) ==> (r matches Ok(name)
            && is_base_name(path@, name@))),
        !reported_exists || reported_path is None ==> is_found(
            file_models(files@),
            preset@,
            started_ms,
            outcome(r),
        ),
        !reported_exists || reported_path is None ==> (r matches Ok(name) ==> exists|at: int|
            0 <= at < files@.len() && can_be_output(#[trigger] files@[at], preset@, started_ms)
                && name@ == files@[at].name@),
{
    if !reported_exists || reported_path is None {
        if let Ok(name) = r {
            let m = file_models(files@);
            let at = choose|at: int| #[trigger]
                is_first_output(m, preset@, started_ms, at) && name@ == m[at].name;
            assert(can_be_output(files@[at], preset@, started_ms));
        }
    }
}

} // verus!
