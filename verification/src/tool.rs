//! The download tool: how it is called, what its output means, and when it is given up.

use crate::foreign::{self, lossy_text, lowers_ascii, reads_utf8};
use crate::job::JobUpdate;
use crate::number::{signed_decimal, signed_text};
use crate::report::{clean_field, cleaned, normalize_error, normalized_error};
use crate::text::{
    collapsed, from_chars, opt, pieces, pieces_from, same, split, starts_with, step_outcome,
    to_chars, trim, trimmed, views,
};
use vstd::prelude::*;
use vstd::utf8::{decode_utf8, valid_utf8};

verus! {

/// The format of the names of downloaded files.
pub open spec fn name_template() -> Seq<char> {
    "%(title).180B [%(id)s].%(ext)s"@
}

/// The format of the tool's progress reports.
pub open spec fn progress_template() -> Seq<char> {
    "download:@@SIPHON@@%(progress._percent_str)s@@%(progress._speed_str)s@@%(progress._total_bytes_str)s@@%(progress._eta_str)s"@
}

/// The browser that the tool claims to be where a server looks at that.
pub open spec fn browser_name() -> Seq<char> {
    "Mozilla/5.0 (Windows NT 10.0; Win64; x64) AppleWebKit/537.36 (KHTML, like Gecko) Chrome/124.0.0.0 Safari/537.36"@
}

/// The arguments with which the tool loads `url` into `work_dir`.
pub open spec fn download_arguments(
    ffmpeg_dir: Option<Seq<char>>,
    work_dir: Seq<char>,
    preset: Seq<char>,
    referer: Option<Seq<char>>,
    url: Seq<char>,
) -> Seq<Seq<char>> {
    let first = seq![
        "--no-playlist"@,
        "--no-warnings"@,
        "--newline"@,
        "--socket-timeout"@,
        "15"@,
        "--extractor-retries"@,
        "1"@,
        "--retries"@,
        "2"@,
        "--windows-filenames"@,
    ];
    let converter = match ffmpeg_dir {
        Some(dir) => seq!["--ffmpeg-location"@, dir],
        None => Seq::empty(),
    };
    let output = seq![
        "-P"@,
        work_dir,
        "-o"@,
        name_template(),
        "--print"@,
        "after_move:filepath"@,
        "--progress-template"@,
        progress_template(),
    ];
    let format = if preset == "mp4"@ {
        seq![
            "-f"@,
            "bv*[ext=mp4]+ba[ext=m4a]/b[ext=mp4]/b"@,
            "--merge-output-format"@,
            "mp4"@,
        ]
    } else {
        seq!["-x"@, "--audio-format"@, preset, "--audio-quality"@, "0"@]
    };
    let origin = match referer {
        Some(page) => if page.len() > 0 {
            seq!["--referer"@, page, "--user-agent"@, browser_name()]
        } else {
            Seq::empty()
        },
        None => Seq::empty(),
    };
    first + converter + output + format + origin + seq![url]
}

/// Appends an argument.
fn arg(list: &mut Vec<String>, text: &str)
    ensures
        views(final(list)@) == views(old(list)@).push(text@),
{
    let s = text.to_owned();
    assert(views(list@.push(s)) =~= views(list@).push(s@));
    list.push(s);
}

/// The arguments with which the tool loads `url` into `work_dir`.
pub fn ytdlp_args(
    ffmpeg_dir: &Option<String>,
    work_dir: &str,
    preset: &str,
    referer: &Option<String>,
    url: &str,
) -> (r: Vec<String>)
    ensures
        views(r@) == download_arguments(
            opt(*ffmpeg_dir),
            work_dir@,
            preset@,
            opt(*referer),
            url@,
        ),
{
    let mut a: Vec<String> = Vec::new();
    assert(views(a@) =~= Seq::<Seq<char>>::empty());
    arg(&mut a, "--no-playlist");
    arg(&mut a, "--no-warnings");
    arg(&mut a, "--newline");
    arg(&mut a, "--socket-timeout");
    arg(&mut a, "15");
    arg(&mut a, "--extractor-retries");
    arg(&mut a, "1");
    arg(&mut a, "--retries");
    arg(&mut a, "2");
    arg(&mut a, "--windows-filenames");
    if let Some(dir) = ffmpeg_dir {
        arg(&mut a, "--ffmpeg-location");
        arg(&mut a, dir.as_str());
    }
    arg(&mut a, "-P");
    arg(&mut a, work_dir);
    arg(&mut a, "-o");
    arg(&mut a, "%(title).180B [%(id)s].%(ext)s");
    arg(&mut a, "--print");
    arg(&mut a, "after_move:filepath");
    arg(&mut a, "--progress-template");
    arg(
        &mut a,
        "download:@@SIPHON@@%(progress._percent_str)s@@%(progress._speed_str)s@@%(progress._total_bytes_str)s@@%(progress._eta_str)s",
    );
    if same(preset, "mp4") {
        arg(&mut a, "-f");
        arg(&mut a, "bv*[ext=mp4]+ba[ext=m4a]/b[ext=mp4]/b");
        arg(&mut a, "--merge-output-format");
        arg(&mut a, "mp4");
    } else {
        arg(&mut a, "-x");
        arg(&mut a, "--audio-format");
        arg(&mut a, preset);
        arg(&mut a, "--audio-quality");
        arg(&mut a, "0");
    }
    if let Some(page) = referer {
        if !page.as_str().is_empty() {
            arg(&mut a, "--referer");
            arg(&mut a, page.as_str());
            arg(&mut a, "--user-agent");
            arg(
                &mut a,
                "Mozilla/5.0 (Windows NT 10.0; Win64; x64) AppleWebKit/537.36 (KHTML, like Gecko) Chrome/124.0.0.0 Safari/537.36",
            );
        }
    }
    arg(&mut a, url);
    assert(views(a@) =~= download_arguments(
        opt(*ffmpeg_dir),
        work_dir@,
        preset@,
        opt(*referer),
        url@,
    ));
    a
}

/// The link is handed to the tool as one argument, the last.
pub proof fn link_is_last_argument(
    ffmpeg_dir: Option<Seq<char>>,
    work_dir: Seq<char>,
    preset: Seq<char>,
    referer: Option<Seq<char>>,
    url: Seq<char>,
)
    ensures
        download_arguments(ffmpeg_dir, work_dir, preset, referer, url).last() == url,
{
}

/// Whether a value is handed over right behind its flag.
pub open spec fn passes(args: Seq<Seq<char>>, flag: Seq<char>, value: Seq<char>) -> bool {
    exists|i: int| 0 <= i < args.len() - 1 && #[trigger] args[i] == flag && args[i + 1] == value
}

/// Whether a text that may be missing is there and not empty.
pub open spec fn is_given(text: Option<Seq<char>>) -> bool {
    text matches Some(t) && t.len() > 0
}

/// The tool is told all that was asked for, and nothing else: the link comes last, the files go
/// to the work folder under the name template, sound comes in the very format that was asked for
/// and pictures in MP4 files, the page that the link was found on is named exactly where it is
/// known, and so is the converter's folder. It stays with the one medium, does not wait long, and
/// prints where the finished file is.
pub proof fn tool_is_told_the_request(
    ffmpeg_dir: &Option<String>,
    work_dir: &str,
    preset: &str,
    referer: &Option<String>,
    url: &str,
    args: Vec<String>,
)
    requires
        call_ensures(ytdlp_args, (ffmpeg_dir, work_dir, preset, referer, url), args),
    ensures
        ({
            let a = views(args@);
            &&& a.last() == url@
            &&& passes(a, "-P"@, work_dir@)
            &&& passes(a, "-o"@, "%(title).180B [%(id)s].%(ext)s"@)
            &&& passes(a, "--print"@, "after_move:filepath"@)
            &&& passes(
                a,
                "--progress-template"@,
                "download:@@SIPHON@@%(progress._percent_str)s@@%(progress._speed_str)s@@%(progress._total_bytes_str)s@@%(progress._eta_str)s"@,
            )
            &&& passes(a, "--socket-timeout"@, "15"@)
            &&& passes(a, "--extractor-retries"@, "1"@)
            &&& passes(a, "--retries"@, "2"@)
            &&& a.contains("--no-playlist"@) && a.contains("--no-warnings"@) && a.contains(
                "--newline"@,
            ) && a.contains("--windows-filenames"@)
            &&& preset@ == "mp4"@ ==> passes(a, "-f"@, "bv*[ext=mp4]+ba[ext=m4a]/b[ext=mp4]/b"@)
                && passes(a, "--merge-output-format"@, "mp4"@)
            &&& preset@ != "mp4"@ ==> passes(a, "-x"@, "--audio-format"@) && passes(
                a,
                "--audio-format"@,
                preset@,
            ) && passes(a, "--audio-quality"@, "0"@)
            &&& opt(*ffmpeg_dir) matches Some(dir) ==> passes(a, "--ffmpeg-location"@, dir)
            &&& is_given(opt(*referer)) ==> passes(a, "--referer"@, opt(*referer)->0) && passes(
                a,
                "--user-agent"@,
                "Mozilla/5.0 (Windows NT 10.0; Win64; x64) AppleWebKit/537.36 (KHTML, like Gecko) Chrome/124.0.0.0 Safari/537.36"@,
            )
            &&& a.len() == 19 + (if *ffmpeg_dir is Some {
                2int
            } else {
                0
            }) + (if preset@ == "mp4"@ {
                4int
            } else {
                5
            }) + (if is_given(opt(*referer)) {
                4int
            } else {
                0
            })
        }),
{
    let a = views(args@);
    let k: int = if *ffmpeg_dir is Some {
        12
    } else {
        10
    };
    let m: int = if preset@ == "mp4"@ {
        k + 12
    } else {
        k + 13
    };
    assert(a[0] == "--no-playlist"@ && a[1] == "--no-warnings"@ && a[2] == "--newline"@ && a[9]
        == "--windows-filenames"@);
    assert(a[3] == "--socket-timeout"@ && a[5] == "--extractor-retries"@ && a[7] == "--retries"@);
    assert(*ffmpeg_dir is Some ==> a[10] == "--ffmpeg-location"@);
    assert(a[k] == "-P"@ && a[k + 2] == "-o"@ && a[k + 4] == "--print"@ && a[k + 6]
        == "--progress-template"@);
    assert(preset@ == "mp4"@ ==> a[k + 8] == "-f"@ && a[k + 10] == "--merge-output-format"@);
    assert(preset@ != "mp4"@ ==> a[k + 8] == "-x"@ && a[k + 9] == "--audio-format"@ && a[k + 11]
        == "--audio-quality"@);
    assert(is_given(opt(*referer)) ==> a[m] == "--referer"@ && a[m + 2] == "--user-agent"@);
}

/// Different requests are told to the tool in different words: of two equal lists of arguments,
/// the link, the folders, the format and the page that they were made from are the same.
pub proof fn arguments_tell_requests_apart(
    ffmpeg_dir: &Option<String>,
    other_ffmpeg_dir: &Option<String>,
    work_dir: &str,
    other_work_dir: &str,
    preset: &str,
    other_preset: &str,
    referer: &Option<String>,
    other_referer: &Option<String>,
    url: &str,
    other_url: &str,
    args: Vec<String>,
    other_args: Vec<String>,
)
    requires
        call_ensures(ytdlp_args, (ffmpeg_dir, work_dir, preset, referer, url), args),
        call_ensures(
            ytdlp_args,
            (other_ffmpeg_dir, other_work_dir, other_preset, other_referer, other_url),
            other_args,
        ),
        views(args@) == views(other_args@),
    ensures
        opt(*ffmpeg_dir) == opt(*other_ffmpeg_dir),
        work_dir@ == other_work_dir@,
        preset@ == other_preset@,
        is_given(opt(*referer)) || is_given(opt(*other_referer)) ==> opt(*referer) == opt(
            *other_referer,
        ),
        url@ == other_url@,
{
    reveal_strlit("-P");
    reveal_strlit("--ffmpeg-location");
    reveal_strlit("-f");
    reveal_strlit("-x");
    let a = views(args@);
    let b = views(other_args@);
    assert("-P"@[1] != "--ffmpeg-location"@[1]);
    assert("-f"@[1] != "-x"@[1]);
    assert(a[10] == b[10]);
    let k: int = if *ffmpeg_dir is Some {
        assert(a[11] == b[11]);
        12
    } else {
        10
    };
    assert(a[k + 1] == work_dir@ && b[k + 1] == other_work_dir@);
    assert(a[k + 8] == b[k + 8]);
    let m: int = if preset@ == "mp4"@ {
        k + 12
    } else {
        assert(a[k + 10] == preset@ && b[k + 10] == other_preset@);
        k + 13
    };
    assert(a.last() == url@ && b.last() == other_url@);
    if is_given(opt(*referer)) {
        assert(a[m + 1] == opt(*referer)->0);
        assert(b[m + 1] == opt(*other_referer)->0);
    }
}

/// The tool describes the one medium at the link, which comes last.
pub proof fn description_is_of_the_link(url: &str, args: Vec<String>)
    requires
        call_ensures(probe_args, (url,), args),
    ensures
        views(args@).len() == 4,
        views(args@).last() == url@,
        views(args@)[0] == "-J"@,
        views(args@).contains("--no-playlist"@),
        views(args@).contains("--no-warnings"@),
{
    let a = views(args@);
    assert(a == seq!["-J"@, "--no-warnings"@, "--no-playlist"@, url@]);
    assert(a[1] == "--no-warnings"@ && a[2] == "--no-playlist"@);
}

/// The arguments with which the tool describes the medium at `url`.
pub fn probe_args(url: &str) -> (r: Vec<String>)
    ensures
        views(r@) == seq!["-J"@, "--no-warnings"@, "--no-playlist"@, url@],
{
    let mut a: Vec<String> = Vec::new();
    assert(views(a@) =~= Seq::<Seq<char>>::empty());
    arg(&mut a, "-J");
    arg(&mut a, "--no-warnings");
    arg(&mut a, "--no-playlist");
    arg(&mut a, url);
    assert(views(a@) =~= seq!["-J"@, "--no-warnings"@, "--no-playlist"@, url@]);
    a
}

/// The arguments with which the converter turns `input` into `output`.
pub open spec fn conversion_arguments(
    preset: Seq<char>,
    input: Seq<char>,
    output: Seq<char>,
) -> Seq<Seq<char>> {
    let codecs = if preset == "mp4"@ {
        seq!["-c:v"@, "libx264"@, "-c:a"@, "aac"@]
    } else if preset == "mp3"@ {
        seq!["-vn"@, "-codec:a"@, "libmp3lame"@, "-q:a"@, "2"@]
    } else {
        seq!["-vn"@]
    };
    seq!["-y"@, "-i"@, input] + codecs + seq![output]
}

/// The arguments with which the converter turns `input` into `output`.
pub fn ffmpeg_args(preset: &str, input: &str, output: &str) -> (r: Vec<String>)
    ensures
        views(r@) == conversion_arguments(preset@, input@, output@),
{
    let mut a: Vec<String> = Vec::new();
    assert(views(a@) =~= Seq::<Seq<char>>::empty());
    arg(&mut a, "-y");
    arg(&mut a, "-i");
    arg(&mut a, input);
    if same(preset, "mp4") {
        arg(&mut a, "-c:v");
        arg(&mut a, "libx264");
        arg(&mut a, "-c:a");
        arg(&mut a, "aac");
    } else if same(preset, "mp3") {
        arg(&mut a, "-vn");
        arg(&mut a, "-codec:a");
        arg(&mut a, "libmp3lame");
        arg(&mut a, "-q:a");
        arg(&mut a, "2");
    } else {
        arg(&mut a, "-vn");
    }
    arg(&mut a, output);
    assert(views(a@) =~= conversion_arguments(preset@, input@, output@));
    a
}

/// The converter reads the one file and writes the other, over one that is there, and nothing else
/// is asked of it but the codecs of the format: pictures are kept for MP4 files alone, and sound is
/// made by the encoder of the format.
pub proof fn converter_is_told_both_files(
    preset: &str,
    input: &str,
    output: &str,
    args: Vec<String>,
)
    requires
        call_ensures(ffmpeg_args, (preset, input, output), args),
    ensures
        ({
            let a = views(args@);
            &&& a[0] == "-y"@
            &&& a[1] == "-i"@ && a[2] == input@
            &&& a.last() == output@
            &&& preset@ == "mp4"@ ==> a.len() == 8 && passes(a, "-c:v"@, "libx264"@) && passes(
                a,
                "-c:a"@,
                "aac"@,
            )
            &&& preset@ != "mp4"@ ==> a[3] == "-vn"@
            &&& preset@ == "mp3"@ ==> a.len() == 9 && passes(a, "-codec:a"@, "libmp3lame"@)
                && passes(a, "-q:a"@, "2"@)
            &&& preset@ != "mp4"@ && preset@ != "mp3"@ ==> a.len() == 5
        }),
{
    let a = views(args@);
    reveal_strlit("mp4");
    reveal_strlit("mp3");
    assert("mp4"@[2] != "mp3"@[2]);
    assert(preset@ == "mp4"@ ==> a[3] == "-c:v"@ && a[4] == "libx264"@ && a[5] == "-c:a"@ && a[6]
        == "aac"@);
    assert(preset@ == "mp3"@ ==> a[4] == "-codec:a"@ && a[5] == "libmp3lame"@ && a[6] == "-q:a"@
        && a[7] == "2"@);
}

/// Whether a byte ends a line of the tool's output.
pub open spec fn ends_line(b: u8) -> bool {
    b == 10 || b == 13
}

/// The lines that bytes hold, and the bytes of the line that is not yet ended: bytes that end a
/// line split it, and empty lines are left out.
pub open spec fn fed(bytes: Seq<u8>) -> (Seq<Seq<u8>>, Seq<u8>)
    decreases bytes.len(),
{
    if bytes.len() == 0 {
        (Seq::empty(), Seq::empty())
    } else {
        let (lines, open) = fed(bytes.drop_last());
        if !ends_line(bytes.last()) {
            (lines, open.push(bytes.last()))
        } else if open.len() > 0 {
            (lines.push(open), Seq::empty())
        } else {
            (lines, open)
        }
    }
}

/// The lines of the tool's whole output: those that were ended, and the open one where it is not
/// empty.
pub open spec fn output_lines(bytes: Seq<u8>) -> Seq<Seq<u8>> {
    let (lines, open) = fed(bytes);
    if open.len() > 0 {
        lines.push(open)
    } else {
        lines
    }
}

/// All bytes of a list of lines, in order.
pub open spec fn flat(lines: Seq<Seq<u8>>) -> Seq<u8>
    decreases lines.len(),
{
    if lines.len() == 0 {
        Seq::empty()
    } else {
        flat(lines.drop_last()) + lines.last()
    }
}

proof fn lemma_fed(bytes: Seq<u8>)
    ensures
        flat(fed(bytes).0) + fed(bytes).1 == bytes.filter(|b: u8| !ends_line(b)),
        forall|k: int|
            0 <= k < fed(bytes).0.len() ==> (#[trigger] fed(bytes).0[k]).len() > 0,
        forall|k: int, i: int|
            0 <= k < fed(bytes).0.len() && 0 <= i < fed(bytes).0[k].len() ==> !ends_line(
                #[trigger] fed(bytes).0[k][i],
            ),
        forall|i: int| 0 <= i < fed(bytes).1.len() ==> !ends_line(#[trigger] fed(bytes).1[i]),
    decreases bytes.len(),
{
    reveal(Seq::filter);
    let keep = |b: u8| !ends_line(b);
    if bytes.len() == 0 {
        assert(flat(fed(bytes).0) + fed(bytes).1 =~= bytes.filter(keep));
    } else {
        lemma_fed(bytes.drop_last());
        let (lines, open) = fed(bytes.drop_last());
        let last = bytes.last();
        if !ends_line(last) {
            assert(flat(lines) + open.push(last) =~= (flat(lines) + open).push(last));
        } else if open.len() > 0 {
            assert(lines.push(open).drop_last() =~= lines);
            assert(flat(lines.push(open)) + Seq::<u8>::empty() =~= flat(lines) + open);
        }
    }
}

/// Reading lines loses nothing but line ends: the lines together are the bytes without those,
/// and no line is empty or holds one.
pub proof fn lines_hold_all_bytes(bytes: Seq<u8>)
    ensures
        flat(output_lines(bytes)) == bytes.filter(|b: u8| !ends_line(b)),
        forall|k: int|
            0 <= k < output_lines(bytes).len() ==> (#[trigger] output_lines(bytes)[k]).len() > 0,
        forall|k: int, i: int|
            0 <= k < output_lines(bytes).len() && 0 <= i < output_lines(bytes)[k].len()
                ==> !ends_line(#[trigger] output_lines(bytes)[k][i]),
{
    lemma_fed(bytes);
    let (lines, open) = fed(bytes);
    if open.len() > 0 {
        assert(lines.push(open).drop_last() =~= lines);
    } else {
        assert(flat(lines) + open =~= flat(lines));
    }
}

/// The part of the tool's output that is not yet a line.
pub struct LineBuffer {
    pub open: Vec<u8>,
}

impl LineBuffer {
    /// The buffer before the first byte.
    pub fn new() -> (r: LineBuffer)
        ensures
            r.open@ == fed(Seq::empty()).1,
    {
        let r = LineBuffer { open: Vec::new() };
        assert(r.open@ =~= Seq::<u8>::empty());
        r
    }

    /// Takes a byte, and returns the line that it ends.
    pub fn push(&mut self, byte: u8) -> (r: Option<String>)
        ensures
            if !ends_line(byte) {
                r is None && final(self).open@ == old(self).open@.push(byte)
            } else {
                &&& final(self).open@ == Seq::<u8>::empty()
                &&& opt(r) == (if old(self).open@.len() > 0 {
                    Some(lossy_text(old(self).open@))
                } else {
                    None
                })
                &&& old(self).open@.len() > 0 ==> reads_utf8(old(self).open@)
            },
    {
        if byte == 10 || byte == 13 {
            let line = self.finish();
            self.open.clear();
            line
        } else {
            self.open.push(byte);
            None
        }
    }

    /// The line that the end of the output ends.
    pub fn finish(&self) -> (r: Option<String>)
        ensures
            opt(r) == (if self.open@.len() > 0 {
                Some(lossy_text(self.open@))
            } else {
                None
            }),
            self.open@.len() > 0 ==> reads_utf8(self.open@),
    {
        if self.open.is_empty() {
            None
        } else {
            Some(foreign::from_utf8_lossy(self.open.as_slice()))
        }
    }
}

/// The texts of a list of lines.
pub open spec fn line_texts(lines: Seq<Seq<u8>>) -> Seq<Seq<char>> {
    lines.map_values(|l: Seq<u8>| lossy_text(l))
}

/// Whether lossy decoding does with the valid lines what is known of it.
pub open spec fn lines_read_utf8(lines: Seq<Seq<u8>>) -> bool {
    forall|k: int| 0 <= k < lines.len() ==> reads_utf8(#[trigger] lines[k])
}

/// The lines of the tool's whole output, as they come out byte by byte.
pub fn read_crlf_lines(bytes: &Vec<u8>) -> (r: Vec<String>)
    ensures
        views(r@) == line_texts(output_lines(bytes@)),
        lines_read_utf8(output_lines(bytes@)),
{
    let mut buffer = LineBuffer::new();
    let mut r: Vec<String> = Vec::new();
    let mut i: usize = 0;
    assert(bytes@.take(0) =~= Seq::<u8>::empty());
    assert(views(r@) =~= line_texts(fed(Seq::<u8>::empty()).0));
    while i < bytes.len()
        invariant
            i <= bytes@.len(),
            buffer.open@ == fed(bytes@.take(i as int)).1,
            views(r@) == line_texts(fed(bytes@.take(i as int)).0),
            lines_read_utf8(fed(bytes@.take(i as int)).0),
        decreases bytes.len() - i,
    {
        let ghost (lines, open) = fed(bytes@.take(i as int));
        proof {
            assert(bytes@.take(i + 1).drop_last() =~= bytes@.take(i as int));
            assert(bytes@.take(i + 1).last() == bytes@[i as int]);
            assert(line_texts(lines.push(open)) =~= line_texts(lines).push(lossy_text(open)));
        }
        if let Some(line) = buffer.push(bytes[i]) {
            assert(views(r@.push(line)) =~= views(r@).push(line@));
            r.push(line);
        }
        i = i + 1;
    }
    assert(bytes@.take(bytes@.len() as int) =~= bytes@);
    proof {
        let (lines, open) = fed(bytes@);
        assert(line_texts(lines.push(open)) =~= line_texts(lines).push(lossy_text(open)));
    }
    if let Some(line) = buffer.finish() {
        assert(views(r@.push(line)) =~= views(r@).push(line@));
        r.push(line);
    }
    r
}

/// The position of the first line feed in bytes, or their number where they hold none.
pub open spec fn line_end(bytes: Seq<u8>) -> nat
    decreases bytes.len(),
{
    if bytes.len() == 0 || bytes[0] == 10 {
        0
    } else {
        1 + line_end(bytes.skip(1))
    }
}

/// The first line of bytes: what stands before the first line feed, without the carriage return
/// right before it.
pub open spec fn first_line(bytes: Seq<u8>) -> Seq<u8> {
    let line = bytes.take(line_end(bytes) as int);
    if line.len() < bytes.len() && line.len() > 0 && line.last() == 13 {
        line.drop_last()
    } else {
        line
    }
}

/// The error output of the tool: its lines, each with a line feed behind it, up to the first that
/// is not UTF-8.
pub open spec fn error_text(bytes: Seq<u8>) -> Seq<char>
    decreases bytes.len(),
{
    if bytes.len() == 0 || !valid_utf8(first_line(bytes)) {
        Seq::empty()
    } else {
        let rest = if line_end(bytes) < bytes.len() {
            bytes.skip(line_end(bytes) as int + 1)
        } else {
            Seq::empty()
        };
        decode_utf8(first_line(bytes)) + seq!['\n'] + error_text(rest)
    }
}

proof fn lemma_line_end(bytes: Seq<u8>, at: int)
    requires
        0 <= at <= bytes.len(),
        forall|i: int| 0 <= i < at ==> bytes[i] != 10,
        at == bytes.len() || bytes[at] == 10,
    ensures
        line_end(bytes) == at,
    decreases bytes.len(),
{
    if at > 0 {
        lemma_line_end(bytes.skip(1), at - 1);
    }
}

/// Whether a line of the tool's error output is UTF-8: the output is read on only after one that
/// is.
pub fn is_text_line(line: Vec<u8>) -> (r: bool)
    ensures
        r == valid_utf8(line@),
{
    foreign::from_utf8(line).is_some()
}

/// The error output of the tool: its lines, each with a line feed behind it, up to the first that
/// is not UTF-8.
pub fn collect_errors(bytes: &Vec<u8>) -> (r: String)
    ensures
        r@ == error_text(bytes@),
{
    let n: usize = bytes.len();
    let mut text = String::new();
    let mut start: usize = 0;
    assert(bytes@.skip(0) =~= bytes@);
    assert(text@ + error_text(bytes@) =~= error_text(bytes@));
    while start < n
        invariant
            start <= n == bytes@.len(),
            error_text(bytes@) == text@ + error_text(bytes@.skip(start as int)),
        decreases n - start,
    {
        let ghost rest = bytes@.skip(start as int);
        let mut line: Vec<u8> = Vec::new();
        let mut end: usize = start;
        while end < n && bytes[end] != 10
            invariant
                start <= end <= n == bytes@.len(),
                line@ == bytes@.subrange(start as int, end as int),
                forall|i: int| start <= i < end ==> bytes@[i] != 10,
            decreases n - end,
        {
            line.push(bytes[end]);
            end = end + 1;
            assert(line@ =~= bytes@.subrange(start as int, end as int));
        }
        proof {
            assert forall|i: int| 0 <= i < end - start implies rest[i] != 10 by {
                assert(rest[i] == bytes@[start + i]);
            }
            lemma_line_end(rest, end - start);
            assert(line@ =~= rest.take(end - start));
        }
        if end < n && line.len() > 0 && line[line.len() - 1] == 13 {
            line.pop();
        }
        assert(line@ =~= first_line(rest));
        match foreign::from_utf8(line) {
            Some(decoded) => {
                let ghost before = text@;
                text = text.concat(decoded.as_str());
                text.push('\n');
                assert(text@ =~= before + (decoded@ + seq!['\n']));
                if end < n {
                    start = end + 1;
                    assert(rest.skip(end - (n - rest.len()) + 1) =~= bytes@.skip(start as int));
                } else {
                    start = n;
                    assert(bytes@.skip(n as int) =~= Seq::<u8>::empty());
                }
                assert(before + (decoded@ + seq!['\n'] + error_text(bytes@.skip(start as int)))
                    =~= text@ + error_text(bytes@.skip(start as int)));
            },
            None => {
                assert(text@ + Seq::<char>::empty() =~= text@);
                return text;
            },
        }
    }
    assert(bytes@.skip(n as int) =~= Seq::<u8>::empty());
    assert(text@ + Seq::<char>::empty() =~= text@);
    text
}

/// What a line of the tool's output means.
pub enum LineEvent {
    /// A step of the job.
    Step(JobUpdate),
    /// The path of the finished file.
    Output(String),
    /// Nothing that matters.
    Other,
}

/// The mark in front of a progress report.
pub open spec fn progress_mark() -> Seq<char> {
    "@@SIPHON@@"@
}

/// The field number `k` of a progress report.
pub open spec fn report_field(parts: Seq<Seq<char>>, k: int) -> Option<Seq<char>> {
    cleaned(
        if k < parts.len() {
            Some(parts[k])
        } else {
            None
        },
    )
}

/// Whether `event` is what `line` means.
pub open spec fn is_meaning(line: Seq<char>, event: LineEvent) -> bool {
    if progress_mark().is_prefix_of(line) {
        let parts = pieces(line.skip(progress_mark().len() as int), "@@"@);
        event matches LineEvent::Step(JobUpdate::Progress { percent, speed, total_size, eta }) && {
            &&& opt(percent) == report_field(parts, 0)
            &&& opt(speed) == report_field(parts, 1)
            &&& opt(total_size) == report_field(parts, 2)
            &&& opt(eta) == report_field(parts, 3)
        }
    } else {
        let t = trimmed(line);
        if "[ExtractAudio]"@.is_prefix_of(t) || "[VideoConvertor]"@.is_prefix_of(t)
            || "[VideoRemuxer]"@.is_prefix_of(t) {
            event == LineEvent::Step(JobUpdate::Converting)
        } else if "[Merger]"@.is_prefix_of(t) {
            event == LineEvent::Step(JobUpdate::Merging)
        } else if t.len() > 0 && t[0] != '[' {
            event matches LineEvent::Output(path) && path@ == t
        } else {
            event is Other
        }
    }
}

/// The field number `k` of a progress report.
fn field(parts: &Vec<String>, k: usize) -> (r: Option<String>)
    ensures
        opt(r) == report_field(views(parts@), k as int),
{
    if k < parts.len() {
        assert(views(parts@)[k as int] == parts@[k as int]@);
        clean_field(Some(parts[k].as_str()))
    } else {
        clean_field(None)
    }
}

/// What a line of the tool's output means.
pub fn read_line(line: &str) -> (r: LineEvent)
    ensures
        is_meaning(line@, r),
{
    if starts_with(line, "@@SIPHON@@") {
        let c = to_chars(line);
        proof {
            reveal_strlit("@@SIPHON@@");
            reveal_strlit("@@");
        }
        let rest = from_chars(&c, 10, c.len());
        assert(rest@ =~= line@.skip(10));
        let parts = split(rest.as_str(), "@@");
        return LineEvent::Step(
            JobUpdate::Progress {
                percent: field(&parts, 0),
                speed: field(&parts, 1),
                total_size: field(&parts, 2),
                eta: field(&parts, 3),
            },
        );
    }
    let t = trim(line);
    if starts_with(t.as_str(), "[ExtractAudio]") || starts_with(t.as_str(), "[VideoConvertor]")
        || starts_with(t.as_str(), "[VideoRemuxer]") {
        LineEvent::Step(JobUpdate::Converting)
    } else if starts_with(t.as_str(), "[Merger]") {
        LineEvent::Step(JobUpdate::Merging)
    } else if !t.as_str().is_empty() && t.as_str().get_char(0) != '[' {
        LineEvent::Output(t)
    } else {
        LineEvent::Other
    }
}

/// A line in brackets, which tells of the tool's work, is never taken for the finished file.
pub proof fn bracketed_line_is_no_output(line: Seq<char>, event: LineEvent)
    requires
        is_meaning(line, event),
        trimmed(line).len() > 0,
        trimmed(line)[0] == '[',
    ensures
        event !is Output,
{
    reveal_strlit("@@SIPHON@@");
}

proof fn lemma_first_piece(p: Seq<char>, rest: Seq<char>, at: int)
    requires
        !p.contains('@'),
        0 <= at <= p.len(),
    ensures
        pieces_from(p + "@@"@ + rest, "@@"@, at) == seq![p] + pieces(rest, "@@"@),
    decreases p.len() - at,
{
    reveal_strlit("@@");
    let s = p + "@@"@ + rest;
    let sep = "@@"@;
    if at == p.len() {
        assert(s.subrange(at, at + 2) =~= sep);
        assert(s.take(at) =~= p);
        assert(s.skip(at + 2) =~= rest);
    } else {
        assert(s[at] == p[at]);
        assert(s.subrange(at, at + 2)[0] == p[at]);
        assert(sep[0] == '@');
        lemma_first_piece(p, rest, at + 1);
    }
}

proof fn lemma_last_piece(p: Seq<char>, at: int)
    requires
        !p.contains('@'),
        0 <= at <= p.len(),
    ensures
        pieces_from(p, "@@"@, at) == seq![p],
    decreases p.len() - at,
{
    reveal_strlit("@@");
    let sep = "@@"@;
    if at + 2 <= p.len() {
        assert(p.subrange(at, at + 2)[0] == p[at]);
        assert(sep[0] == '@');
        lemma_last_piece(p, at + 1);
    }
}

/// The line that the tool prints when it fills the progress template in.
pub open spec fn progress_line(
    percent: Seq<char>,
    speed: Seq<char>,
    total_size: Seq<char>,
    eta: Seq<char>,
) -> Seq<char> {
    progress_mark() + (percent + "@@"@ + (speed + "@@"@ + (total_size + "@@"@ + eta)))
}

/// What the tool fills into the progress template is read back field by field, where the fields
/// hold no `@`.
pub proof fn progress_reads_back(
    percent: Seq<char>,
    speed: Seq<char>,
    total_size: Seq<char>,
    eta: Seq<char>,
    event: LineEvent,
)
    requires
        !percent.contains('@'),
        !speed.contains('@'),
        !total_size.contains('@'),
        !eta.contains('@'),
        is_meaning(progress_line(percent, speed, total_size, eta), event),
    ensures
        event matches LineEvent::Step(
            JobUpdate::Progress { percent: p, speed: s, total_size: t, eta: e },
        ) && opt(p) == cleaned(Some(percent)) && opt(s) == cleaned(Some(speed)) && opt(t)
            == cleaned(Some(total_size)) && opt(e) == cleaned(Some(eta)),
{
    let line = progress_line(percent, speed, total_size, eta);
    let n = progress_mark().len() as int;
    let r3 = total_size + "@@"@ + eta;
    let r2 = speed + "@@"@ + r3;
    let r1 = percent + "@@"@ + r2;
    assert(line.take(n) =~= progress_mark());
    assert(line.skip(n) =~= r1);
    lemma_first_piece(percent, r2, 0);
    lemma_first_piece(speed, r3, 0);
    lemma_first_piece(total_size, eta, 0);
    lemma_last_piece(eta, 0);
    let parts = pieces(r1, "@@"@);
    assert(parts =~= seq![percent, speed, total_size, eta]);
}

/// How long the tool may be silent, in milliseconds.
pub const IDLE_TIMEOUT_MS: u128 = 60_000;

/// What the watch over the tool does next.
#[derive(PartialEq, Eq, Structural, Clone, Copy)]
pub enum Watch {
    /// The tool is done.
    Stop,
    /// The user stopped the job: end the tool.
    KillCanceled,
    /// All is well.
    Wait,
    /// The tool is silent: look whether its files still grow.
    CheckDisk,
    /// The tool is silent and its files rest: end it.
    KillTimedOut,
}

/// What the watch does, given how long the tool has been silent.
pub open spec fn watched(done: bool, canceled: bool, idle_ms: u128) -> Watch {
    if done {
        Watch::Stop
    } else if canceled {
        Watch::KillCanceled
    } else if idle_ms <= IDLE_TIMEOUT_MS {
        Watch::Wait
    } else {
        Watch::CheckDisk
    }
}

/// What the watch does, given how long the tool has been silent.
pub fn watch_step(done: bool, canceled: bool, idle_ms: u128) -> (r: Watch)
    ensures
        r == watched(done, canceled, idle_ms),
{
    if done {
        Watch::Stop
    } else if canceled {
        Watch::KillCanceled
    } else if idle_ms <= IDLE_TIMEOUT_MS {
        Watch::Wait
    } else {
        Watch::CheckDisk
    }
}

/// Whether files last written at `newest` count as growing at the time `now`.
pub open spec fn is_disk_active(newest: Option<u128>, now: u128) -> bool {
    match newest {
        Some(ms) => now - ms <= IDLE_TIMEOUT_MS,
        None => false,
    }
}

/// What the watch does about a silent tool, given when its files were last written.
pub open spec fn disk_watched(newest: Option<u128>, now: u128) -> Watch {
    if is_disk_active(newest, now) {
        Watch::Wait
    } else {
        Watch::KillTimedOut
    }
}

/// What the watch does about a silent tool, given when its files were last written.
pub fn watch_disk(newest: Option<u128>, now: u128) -> (r: Watch)
    ensures
        r == disk_watched(newest, now),
{
    match newest {
        Some(ms) => if now < ms || now - ms <= IDLE_TIMEOUT_MS {
            Watch::Wait
        } else {
            Watch::KillTimedOut
        },
        None => Watch::KillTimedOut,
    }
}

/// A tool is ended for its silence only where it wrote nothing for a while and its files rest too,
/// and then it is.
pub proof fn kill_needs_both_quiet(
    done: bool,
    canceled: bool,
    idle_ms: u128,
    newest: Option<u128>,
    now: u128,
)
    ensures
        ({
            let first = watched(done, canceled, idle_ms);
            let verdict = if first == Watch::CheckDisk {
                disk_watched(newest, now)
            } else {
                first
            };
            verdict == Watch::KillTimedOut <==> !done && !canceled && idle_ms > IDLE_TIMEOUT_MS
                && !is_disk_active(newest, now)
        }),
{
}

/// How the tool ended.
pub enum Exit {
    /// Its end could not be learned.
    Lost,
    Ended { success: bool, code: Option<i32> },
}

/// The error that stands for a job that the user stopped.
pub fn canceled_error() -> (r: String)
    ensures
        r@ == "__SIPHON_CANCELED__"@,
{
    String::from_str("__SIPHON_CANCELED__")
}

/// What the tool's end means.
pub open spec fn tool_result(
    canceled: bool,
    timed_out: bool,
    exit: Exit,
    stderr: Seq<char>,
) -> Result<(), Seq<char>> {
    if canceled {
        Err("__SIPHON_CANCELED__"@)
    } else if timed_out {
        Err("The source stopped responding. Try a different URL or try again."@)
    } else {
        match exit {
            Exit::Lost => Err("yt-dlp process error."@),
            Exit::Ended { success, code } => if success {
                Ok(())
            } else {
                Err(normalized_error(failure_text(code, stderr)))
            },
        }
    }
}

/// What is told of a tool that failed: its error output, or its exit code where that is blank.
pub open spec fn failure_text(code: Option<i32>, stderr: Seq<char>) -> Seq<char> {
    if trimmed(stderr).len() > 0 {
        stderr
    } else {
        "yt-dlp exited with code "@ + signed_decimal(
            match code {
                Some(c) => c as int,
                None => -1,
            },
        ) + "."@
    }
}

/// Whether lower-casing does with what is told of a tool that failed what is known of it.
pub open spec fn lowers_failure(
    canceled: bool,
    timed_out: bool,
    exit: Exit,
    stderr: Seq<char>,
) -> bool {
    !canceled && !timed_out ==> (exit matches Exit::Ended { success, code } ==> !success
        ==> lowers_ascii(collapsed(failure_text(code, stderr))))
}

/// What the tool's end means.
pub fn tool_outcome(canceled: bool, timed_out: bool, exit: Exit, stderr: &str) -> (r: Result<
    (),
    String,
>)
    ensures
        step_outcome(r) == tool_result(canceled, timed_out, exit, stderr@),
        lowers_failure(canceled, timed_out, exit, stderr@),
{
    if canceled {
        return Err(canceled_error());
    }
    if timed_out {
        return Err(
            String::from_str("The source stopped responding. Try a different URL or try again."),
        );
    }
    match exit {
        Exit::Lost => Err(String::from_str("yt-dlp process error.")),
        Exit::Ended { success, code } => if success {
            Ok(())
        } else if !trim(stderr).as_str().is_empty() {
            Err(normalize_error(stderr))
        } else {
            let number = signed_text(
                match code {
                    Some(c) => c,
                    None => -1,
                },
            );
            let message = String::from_str("yt-dlp exited with code ").concat(
                number.as_str(),
            ).concat(".");
            Err(normalize_error(message.as_str()))
        },
    }
}

/// The last step of a job whose work ended with `result`; none where the work itself took it.
pub open spec fn is_last_step(
    result: Result<(), Seq<char>>,
    canceled: bool,
    step: Option<JobUpdate>,
) -> bool {
    match result {
        Ok(()) => step is None,
        Err(e) => if canceled || e == "__SIPHON_CANCELED__"@ {
            step == Some(JobUpdate::Canceled)
        } else {
            step matches Some(JobUpdate::Failed { message }) && message@ == e
        },
    }
}

/// The last step of a job whose work ended with `result`.
pub fn last_step(result: Result<(), String>, canceled: bool) -> (r: Option<JobUpdate>)
    ensures
        is_last_step(step_outcome(result), canceled, r),
{
    match result {
        Ok(()) => None,
        Err(message) => if canceled || same(message.as_str(), "__SIPHON_CANCELED__") {
            Some(JobUpdate::Canceled)
        } else {
            Some(JobUpdate::Failed { message })
        },
    }
}

/// A job that the user stopped ends as canceled, however its work ended.
pub proof fn canceled_work_ends_canceled(
    timed_out: bool,
    exit: Exit,
    stderr: Seq<char>,
    step: Option<JobUpdate>,
)
    requires
        is_last_step(tool_result(true, timed_out, exit, stderr), true, step),
    ensures
        step == Some(JobUpdate::Canceled),
{
}

proof fn lemma_fed_split(a: Seq<u8>, end: u8, b: Seq<u8>)
    requires
        ends_line(end),
    ensures
        fed(a + seq![end] + b) == (output_lines(a) + fed(b).0, fed(b).1),
    decreases b.len(),
{
    let whole = a + seq![end] + b;
    if b.len() == 0 {
        assert(whole.drop_last() =~= a);
        assert(output_lines(a) + fed(b).0 =~= output_lines(a));
        assert(fed(b).1 =~= Seq::<u8>::empty());
    } else {
        lemma_fed_split(a, end, b.drop_last());
        assert(whole.drop_last() =~= a + seq![end] + b.drop_last());
        let (lines, open) = fed(b.drop_last());
        assert(output_lines(a) + lines.push(open) =~= (output_lines(a) + lines).push(open));
    }
}

/// Line feeds and carriage returns are what splits the tool's output into lines: what stands on
/// both sides of one is read as if it stood alone, and bytes without one are a line, if there are
/// any.
pub proof fn output_splits_at_line_ends(
    a: Vec<u8>,
    b: Vec<u8>,
    whole: Vec<u8>,
    lines_of_a: Vec<String>,
    lines_of_b: Vec<String>,
    lines: Vec<String>,
)
    requires
        call_ensures(read_crlf_lines, (&a,), lines_of_a),
        call_ensures(read_crlf_lines, (&b,), lines_of_b),
        call_ensures(read_crlf_lines, (&whole,), lines),
    ensures
        whole@ == a@ + seq![10u8] + b@ || whole@ == a@ + seq![13u8] + b@ ==> views(lines@) == views(
            lines_of_a@,
        ) + views(lines_of_b@),
        !a@.contains(10u8) && !a@.contains(13u8) && a@.len() > 0 ==> views(lines_of_a@) == seq![
            lossy_text(a@),
        ] && reads_utf8(a@),
        a@.len() == 0 ==> views(lines_of_a@).len() == 0,
{
    lemma_fed_split(a@, 10, b@);
    lemma_fed_split(a@, 13, b@);
    if whole@ == a@ + seq![10u8] + b@ || whole@ == a@ + seq![13u8] + b@ {
        let (lines_b, open) = fed(b@);
        assert(output_lines(a@) + lines_b.push(open) =~= (output_lines(a@) + lines_b).push(open));
        assert(output_lines(whole@) == output_lines(a@) + output_lines(b@));
        assert(line_texts(output_lines(a@) + output_lines(b@)) =~= line_texts(output_lines(a@))
            + line_texts(output_lines(b@)));
    }
    if !a@.contains(10u8) && !a@.contains(13u8) && a@.len() > 0 {
        lemma_fed_open(a@);
        assert(Seq::<Seq<u8>>::empty().push(a@) =~= seq![a@]);
        assert(output_lines(a@)[0] == a@);
        assert(line_texts(seq![a@]) =~= seq![lossy_text(a@)]);
    }
}

proof fn lemma_fed_open(a: Seq<u8>)
    requires
        !a.contains(10u8),
        !a.contains(13u8),
    ensures
        fed(a) == (Seq::<Seq<u8>>::empty(), a),
    decreases a.len(),
{
    if a.len() > 0 {
        let front = a.drop_last();
        assert(a.contains(a[a.len() - 1]));
        assert forall|c: u8| front.contains(c) implies a.contains(c) by {
            let i = choose|i: int| 0 <= i < front.len() && front[i] == c;
            assert(a[i] == c);
        }
        lemma_fed_open(front);
        assert(front.push(a.last()) =~= a);
    } else {
        assert(a =~= Seq::<u8>::empty());
    }
}

/// Each line of the error output is kept with a line feed behind it, whether it ended in one, in a
/// carriage return and one, or with the output; what follows a line that is not UTF-8 is not, nor
/// is that line.
pub proof fn errors_are_kept_by_lines(
    line: Seq<u8>,
    rest: Vec<u8>,
    whole: Vec<u8>,
    text_of_rest: String,
    text: String,
)
    requires
        !line.contains(10u8),
        call_ensures(collect_errors, (&rest,), text_of_rest),
        call_ensures(collect_errors, (&whole,), text),
    ensures
        whole@ == line + seq![10u8] + rest@ && !valid_utf8(line) ==> text@.len() == 0 || line.last()
            == 13,
        whole@ == line + seq![10u8] + rest@ && valid_utf8(line) && (line.len() == 0 || line.last()
            != 13) ==> text@ == decode_utf8(line) + seq!['\n'] + text_of_rest@,
        whole@ == line + seq![13u8, 10u8] + rest@ && valid_utf8(line) ==> text@ == decode_utf8(line)
            + seq!['\n'] + text_of_rest@,
        whole@ == line + seq![13u8, 10u8] + rest@ && !valid_utf8(line) ==> text@.len() == 0,
        whole@ == line && line.len() > 0 && valid_utf8(line) ==> text@ == decode_utf8(line) + seq![
            '\n',
        ],
        whole@ == line && (line.len() == 0 || !valid_utf8(line)) ==> text@.len() == 0,
{
    let w = whole@;
    let n = line.len() as int;
    if w == line + seq![10u8] + rest@ {
        assert forall|i: int| 0 <= i < n implies w[i] != 10 by {
            assert(w[i] == line[i]);
            assert(line.contains(line[i]));
        }
        assert(w[n] == 10);
        lemma_line_end(w, n);
        assert(w.take(n) =~= line);
        assert(w.skip(n + 1) =~= rest@);
    }
    if w == line + seq![13u8, 10u8] + rest@ {
        assert forall|i: int| 0 <= i < n + 1 implies w[i] != 10 by {
            if i < n {
                assert(w[i] == line[i]);
                assert(line.contains(line[i]));
            }
        }
        assert(w[n + 1] == 10);
        lemma_line_end(w, n + 1);
        assert(w.take(n + 1).drop_last() =~= line);
        assert(w.take(n + 1).last() == 13);
        assert(w.skip(n + 2) =~= rest@);
    }
    if w == line {
        assert forall|i: int| 0 <= i < n implies w[i] != 10 by {
            assert(line.contains(line[i]));
        }
        lemma_line_end(w, n);
        assert(w.take(n) =~= line);
        assert(error_text(Seq::<u8>::empty()) =~= Seq::<char>::empty());
        if n > 0 && valid_utf8(line) {
            assert(decode_utf8(line) + seq!['\n'] + Seq::<char>::empty() =~= decode_utf8(line)
                + seq!['\n']);
        }
    }
}

/// A line of the tool's output is a progress report exactly where it begins with the mark; another
/// tells of a conversion or a merge where it begins, behind blanks, with the name of that stage in
/// brackets, means nothing where it is blank or begins with another bracket, and else is the path
/// of the finished file, without the blanks around it.
pub proof fn lines_are_told_apart(line: &str, event: LineEvent)
    requires
        call_ensures(read_line, (line,), event),
    ensures
        ({
            let t = trimmed(line@);
            let report = "@@SIPHON@@"@.is_prefix_of(line@);
            let converts = "[ExtractAudio]"@.is_prefix_of(t) || "[VideoConvertor]"@.is_prefix_of(t)
                || "[VideoRemuxer]"@.is_prefix_of(t);
            &&& report <==> (event matches LineEvent::Step(u) && u is Progress)
            &&& !report && converts <==> event == LineEvent::Step(JobUpdate::Converting)
            &&& !report && "[Merger]"@.is_prefix_of(t) <==> event == LineEvent::Step(
                JobUpdate::Merging,
            )
            &&& !report && t.len() > 0 && t[0] != '[' <==> event is Output
            &&& event matches LineEvent::Output(path) ==> path@ == t
            &&& event matches LineEvent::Step(u) ==> u is Progress || u is Converting || u is Merging
        }),
{
    reveal_strlit("[ExtractAudio]");
    reveal_strlit("[VideoConvertor]");
    reveal_strlit("[VideoRemuxer]");
    reveal_strlit("[Merger]");
    let t = trimmed(line@);
    assert("[ExtractAudio]"@[1] == 'E' && "[ExtractAudio]"@[0] == '[');
    assert("[VideoConvertor]"@[1] == 'V' && "[VideoConvertor]"@[0] == '[');
    assert("[VideoRemuxer]"@[1] == 'V' && "[VideoRemuxer]"@[0] == '[');
    assert("[Merger]"@[1] == 'M' && "[Merger]"@[0] == '[');
}

/// What the tool fills into the progress template comes out of the line that it prints, each field
/// in its place, without the blanks around it, and as nothing where it is blank or not available.
pub proof fn progress_comes_out(
    percent: Seq<char>,
    speed: Seq<char>,
    total_size: Seq<char>,
    eta: Seq<char>,
    line: &str,
    event: LineEvent,
)
    requires
        !percent.contains('@'),
        !speed.contains('@'),
        !total_size.contains('@'),
        !eta.contains('@'),
        line@ == "@@SIPHON@@"@ + percent + "@@"@ + speed + "@@"@ + total_size + "@@"@ + eta,
        call_ensures(read_line, (line,), event),
    ensures
        event matches LineEvent::Step(
            JobUpdate::Progress { percent: p, speed: s, total_size: t, eta: e },
        ) && opt(p) == cleaned(Some(percent)) && opt(s) == cleaned(Some(speed)) && opt(t)
            == cleaned(Some(total_size)) && opt(e) == cleaned(Some(eta)),
{
    assert(line@ =~= progress_line(percent, speed, total_size, eta));
    progress_reads_back(percent, speed, total_size, eta, event);
}

/// A silent tool is ended exactly where neither it nor its files gave a sign of life for more than
/// a minute; a tool that is done is let be, and one that the user stopped is ended at once.
pub proof fn silent_tool_is_ended(
    done: bool,
    canceled: bool,
    idle_ms: u128,
    newest: Option<u128>,
    now: u128,
    first: Watch,
    second: Watch,
)
    requires
        call_ensures(watch_step, (done, canceled, idle_ms), first),
        call_ensures(watch_disk, (newest, now), second),
    ensures
        first == Watch::Stop <==> done,
        first == Watch::KillCanceled <==> !done && canceled,
        first == Watch::CheckDisk <==> !done && !canceled && idle_ms > 60_000,
        first == Watch::Wait <==> !done && !canceled && idle_ms <= 60_000,
        second == Watch::KillTimedOut <==> (newest matches Some(ms) ==> now > ms + 60_000),
        second == Watch::Wait <==> (newest matches Some(ms) && now <= ms + 60_000),
{
}

/// A run of the tool succeeded exactly where the tool said so and neither the user nor the watch
/// ended it; else the reason is told, the user's will before all others.
pub proof fn tool_success_is_its_own(
    canceled: bool,
    timed_out: bool,
    exit: Exit,
    stderr: &str,
    r: Result<(), String>,
)
    requires
        call_ensures(tool_outcome, (canceled, timed_out, exit, stderr), r),
    ensures
        r is Ok <==> !canceled && !timed_out && (exit matches Exit::Ended { success, code }
            && success),
        r matches Err(e) ==> {
            &&& canceled ==> e@ == "__SIPHON_CANCELED__"@
            &&& !canceled && timed_out ==> e@
                == "The source stopped responding. Try a different URL or try again."@
            &&& !canceled && !timed_out && exit is Lost ==> e@ == "yt-dlp process error."@
            &&& !canceled && !timed_out ==> (exit matches Exit::Ended { success, code } ==> {
                &&& trimmed(stderr@).len() > 0 ==> e@ == normalized_error(stderr@)
                &&& trimmed(stderr@).len() == 0 ==> e@ == normalized_error(
                    "yt-dlp exited with code "@ + signed_decimal(
                        match code {
                            Some(c) => c as int,
                            None => -1,
                        },
                    ) + "."@,
                )
            })
        },
{
}

/// Work that succeeded takes no last step; other work ends its job as canceled exactly where the
/// user stopped it, and else as failed, for the very reason that it ended with.
pub proof fn last_step_follows_result(
    result: Result<(), String>,
    canceled: bool,
    step: Option<JobUpdate>,
)
    requires
        call_ensures(last_step, (result, canceled), step),
    ensures
        step is None <==> result is Ok,
        result matches Err(e) ==> {
            &&& step == Some(JobUpdate::Canceled) <==> canceled || e@ == "__SIPHON_CANCELED__"@
            &&& !canceled && e@ != "__SIPHON_CANCELED__"@ ==> (step matches Some(
                JobUpdate::Failed { message },
            ) && message@ == e@)
        },
{
}

/// What the tool writes comes out line by line as it arrives: a byte that ends a line brings the
/// bytes since the last one as text, if there are any, and every other byte waits for it; what
/// waits at the end comes out then.
pub proof fn lines_come_out_as_they_end(
    buffer: &mut LineBuffer,
    byte: u8,
    line: Option<String>,
    rest: Option<String>,
    fresh: LineBuffer,
)
    ensures
        call_ensures(LineBuffer::new, (), fresh) ==> fresh.open@.len() == 0,
        call_ensures(LineBuffer::push, (buffer, byte), line) ==> {
            &&& byte == 10 || byte == 13 ==> final(buffer).open@.len() == 0 && (line is Some
                <==> old(buffer).open@.len() > 0)
            &&& byte != 10 && byte != 13 ==> line is None && final(buffer).open@ == old(
                buffer,
            ).open@ + seq![byte]
            &&& line matches Some(text) ==> text@ == lossy_text(old(buffer).open@) && reads_utf8(
                old(buffer).open@,
            )
        },
        call_ensures(LineBuffer::finish, (&*old(buffer),), rest) ==> {
            &&& rest is Some <==> old(buffer).open@.len() > 0
            &&& rest matches Some(text) ==> text@ == lossy_text(old(buffer).open@)
        },
{
    assert(old(buffer).open@.push(byte) =~= old(buffer).open@ + seq![byte]);
}

/// A line of the error output is text exactly where it is UTF-8; and what stands for a stopped job
/// is no other error.
pub proof fn error_lines_are_text(line: Vec<u8>, r: bool, sentinel: String)
    requires
        call_ensures(is_text_line, (line,), r),
        call_ensures(canceled_error, (), sentinel),
    ensures
        r <==> valid_utf8(line@),
        sentinel@ == "__SIPHON_CANCELED__"@,
{
}

} // verus!
