use siphon::job::JobUpdate;
use siphon::tool::{
    canceled_error, collect_errors, ffmpeg_args, is_text_line, last_step, probe_args,
    read_crlf_lines, read_line, tool_outcome, watch_disk, watch_step, ytdlp_args, Exit, LineBuffer, LineEvent, Watch, IDLE_TIMEOUT_MS,
};

const AGENT: &str = "Mozilla/5.0 (Windows NT 10.0; Win64; x64) AppleWebKit/537.36 (KHTML, like Gecko) Chrome/124.0.0.0 Safari/537.36";
const TEMPLATE: &str = "download:@@SIPHON@@%(progress._percent_str)s@@%(progress._speed_str)s@@%(progress._total_bytes_str)s@@%(progress._eta_str)s";

fn some(s: &str) -> Option<String> {
    Some(s.to_string())
}

#[test]
fn errors_are_collected_line_by_line() {
    for (bytes, text) in [
        (&b""[..], ""),
        (b"a", "a\n"),
        (b"a\n", "a\n"),
        (b"a\r\nb\r", "a\nb\r\n"),
        (b"\n\r\n", "\n\n"),
        (b"a\rb\n\xc3\xa9\n", "a\rb\n\u{e9}\n"),
        (b"a\n\xff\nb\n", "a\n"),
        (b"\xc3", ""),
    ] {
        assert_eq!(collect_errors(&bytes.to_vec()), text, "{bytes:?}");
    }
    assert!(is_text_line(b"a\r\n".to_vec()));
    assert!(!is_text_line(b"a\xff\n".to_vec()));
}

#[test]
fn video_is_asked_for_with_all_arguments() {
    let args = ytdlp_args(
        &some("/bin dir"),
        "/work",
        "mp4",
        &some("https://page"),
        "https://a.b/c; rm -rf",
    );
    let expected = [
        "--no-playlist",
        "--no-warnings",
        "--newline",
        "--socket-timeout",
        "15",
        "--extractor-retries",
        "1",
        "--retries",
        "2",
        "--windows-filenames",
        "--ffmpeg-location",
        "/bin dir",
        "-P",
        "/work",
        "-o",
        "%(title).180B [%(id)s].%(ext)s",
        "--print",
        "after_move:filepath",
        "--progress-template",
        TEMPLATE,
        "-f",
        "bv*[ext=mp4]+ba[ext=m4a]/b[ext=mp4]/b",
        "--merge-output-format",
        "mp4",
        "--referer",
        "https://page",
        "--user-agent",
        AGENT,
        "https://a.b/c; rm -rf",
    ];
    assert_eq!(args, expected);
}

#[test]
fn sound_is_asked_for_without_options() {
    for referer in [None, some("")] {
        let args = ytdlp_args(&None, "/work", "mp3", &referer, "https://a.b/c");
        assert_eq!(args[10..12], ["-P", "/work"]);
        assert_eq!(
            args[18..],
            ["-x", "--audio-format", "mp3", "--audio-quality", "0", "https://a.b/c"]
        );
    }
}

#[test]
fn probes_and_conversions_have_their_arguments() {
    assert_eq!(probe_args("u"), ["-J", "--no-warnings", "--no-playlist", "u"]);
    assert_eq!(
        ffmpeg_args("mp4", "in", "out"),
        ["-y", "-i", "in", "-c:v", "libx264", "-c:a", "aac", "out"]
    );
    assert_eq!(
        ffmpeg_args("mp3", "in", "out"),
        ["-y", "-i", "in", "-vn", "-codec:a", "libmp3lame", "-q:a", "2", "out"]
    );
    assert_eq!(ffmpeg_args("wav", "in", "out"), ["-y", "-i", "in", "-vn", "out"]);
}

#[test]
fn lines_end_at_both_delimiters() {
    let bytes = b"one\rtwo\r\n\n\nthree\nrest".to_vec();
    assert_eq!(read_crlf_lines(&bytes), ["one", "two", "three", "rest"]);
    assert!(read_crlf_lines(&b"\r\n".to_vec()).is_empty());
    assert_eq!(read_crlf_lines(&b"a\xffb\n".to_vec()), ["a\u{fffd}b"]);
    assert_eq!(read_crlf_lines(&"\u{e9}t\u{e9}\n".as_bytes().to_vec()), ["\u{e9}t\u{e9}"]);
}

#[test]
fn lines_come_out_byte_by_byte() {
    let mut buffer = LineBuffer::new();
    assert_eq!(buffer.push(b'a'), None);
    assert_eq!(buffer.push(b'b'), None);
    assert_eq!(buffer.push(b'\r'), some("ab"));
    assert_eq!(buffer.push(b'\n'), None);
    assert_eq!(buffer.finish(), None);
    buffer.push(b'c');
    assert_eq!(buffer.finish(), some("c"));
}

#[test]
fn progress_is_read_field_by_field() {
    match read_line("@@SIPHON@@ 12.5%@@ 1.2MiB/s@@NA@@00:07") {
        LineEvent::Step(JobUpdate::Progress { percent, speed, total_size, eta }) => {
            assert_eq!(percent, some("12.5%"));
            assert_eq!(speed, some("1.2MiB/s"));
            assert_eq!(total_size, None);
            assert_eq!(eta, some("00:07"));
        }
        _ => panic!("no progress"),
    }
    match read_line("@@SIPHON@@") {
        LineEvent::Step(JobUpdate::Progress { percent, speed, total_size, eta }) => {
            assert_eq!((percent, speed, total_size, eta), (None, None, None, None));
        }
        _ => panic!("no progress"),
    }
}

#[test]
fn post_processing_lines_are_known() {
    for line in ["[ExtractAudio] x", "  [VideoConvertor] x", "[VideoRemuxer] x"] {
        assert!(matches!(read_line(line), LineEvent::Step(JobUpdate::Converting)));
    }
    assert!(matches!(read_line("[Merger] x"), LineEvent::Step(JobUpdate::Merging)));
    for line in ["[download] x", "", "   ", "[x"] {
        assert!(matches!(read_line(line), LineEvent::Other), "{line}");
    }
}

#[test]
fn plain_lines_are_outputs() {
    for line in ["/tmp/a [id].mp4", " @@SIPHON@@1%"] {
        match read_line(line) {
            LineEvent::Output(path) => assert_eq!(path, line.trim()),
            _ => panic!("no output"),
        }
    }
}

#[test]
fn silence_is_watched() {
    assert!(watch_step(true, true, 0) == Watch::Stop);
    assert!(watch_step(false, true, 0) == Watch::KillCanceled);
    assert!(watch_step(false, false, IDLE_TIMEOUT_MS) == Watch::Wait);
    assert!(watch_step(false, false, 60_001) == Watch::CheckDisk);
    assert!(watch_disk(Some(1_000), 61_000) == Watch::Wait);
    assert!(watch_disk(Some(1_000), 61_001) == Watch::KillTimedOut);
    assert!(watch_disk(Some(5_000), 1_000) == Watch::Wait);
    assert!(watch_disk(None, 1_000) == Watch::KillTimedOut);
}

#[test]
fn the_end_of_the_tool_is_explained() {
    let ok = || Exit::Ended { success: true, code: Some(0) };
    let bad = |code| Exit::Ended { success: false, code };
    assert_eq!(tool_outcome(false, false, ok(), "warning"), Ok(()));
    assert_eq!(tool_outcome(true, true, ok(), ""), Err("__SIPHON_CANCELED__".to_string()));
    assert_eq!(
        tool_outcome(false, true, ok(), "").unwrap_err(),
        "The source stopped responding. Try a different URL or try again."
    );
    assert_eq!(tool_outcome(false, false, Exit::Lost, "").unwrap_err(), "yt-dlp process error.");
    assert_eq!(
        tool_outcome(false, false, bad(Some(2)), " \n").unwrap_err(),
        "yt-dlp exited with code 2."
    );
    assert_eq!(
        tool_outcome(false, false, bad(None), "").unwrap_err(),
        "yt-dlp exited with code -1."
    );
    assert_eq!(
        tool_outcome(false, false, bad(Some(1)), "ERROR:  no\n").unwrap_err(),
        "ERROR: no"
    );
}

#[test]
fn stopped_work_ends_canceled() {
    assert!(last_step(Ok(()), true).is_none());
    assert!(matches!(last_step(Err(canceled_error()), false), Some(JobUpdate::Canceled)));
    assert!(matches!(last_step(Err("x".to_string()), true), Some(JobUpdate::Canceled)));
    match last_step(Err("x".to_string()), false) {
        Some(JobUpdate::Failed { message }) => assert_eq!(message, "x"),
        _ => panic!("no failure"),
    }
}
