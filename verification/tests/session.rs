use siphon::files::FileEntry;
use siphon::job::JobUpdate;
use siphon::names::FilePath;
use siphon::session::{ToolAction, ToolEvent, ToolRequest, ToolRun, ToolStage};
use siphon::tool::Exit;

fn request() -> ToolRequest {
    ToolRequest {
        program: FilePath { dir: "/bin".to_string(), name: "yt-dlp".to_string() },
        ffmpeg_dir: None,
        work_dir: "/work".to_string(),
        final_dir: "/music".to_string(),
        preset: "mp3".to_string(),
        referer: None,
        url: "https://a.b/c".to_string(),
        started_ms: 10_000,
    }
}

/// No path is taken.
fn free(_: &FilePath) -> bool {
    false
}

fn begin(status: &str) -> ToolEvent {
    ToolEvent::Begin { status: status.to_string() }
}

fn line(text: &str) -> ToolEvent {
    ToolEvent::Line(text.to_string())
}

fn ended(success: bool) -> ToolEvent {
    ToolEvent::Ended {
        canceled: false,
        timed_out: false,
        exit: Exit::Ended { success, code: Some(1) },
        stderr: Vec::new(),
    }
}

fn file(name: &str, modified_ms: u128) -> FileEntry {
    FileEntry { name: name.to_string(), size: 1, path: name.to_string(), modified_ms }
}

fn listening() -> ToolRun {
    let mut run = ToolRun::new(request());
    let first = run.step(begin("ready"), &free);
    assert!(matches!(first, Some(ToolAction::Report(JobUpdate::Started))));
    match run.step(ToolEvent::Reported, &free) {
        Some(ToolAction::Spawn { program, args }) => {
            assert_eq!((program.dir.as_str(), program.name.as_str()), ("/bin", "yt-dlp"));
            assert_eq!(args.last().map(String::as_str), Some("https://a.b/c"));
            assert!(args.contains(&"/work".to_string()));
        }
        _ => panic!("not started"),
    }
    assert!(matches!(run.step(ToolEvent::Spawned(Ok(true)), &free), Some(ToolAction::Listen)));
    run
}

fn error_of(action: Option<ToolAction>) -> String {
    match action {
        Some(ToolAction::Finish(Err(e))) => e,
        _ => panic!("no error"),
    }
}

#[test]
fn a_download_runs_to_its_end() {
    let mut run = listening();
    let progress = run.step(line("@@SIPHON@@1%@@2@@3@@4"), &free);
    assert!(matches!(progress, Some(ToolAction::Report(JobUpdate::Progress { .. }))));
    assert!(matches!(run.step(ToolEvent::Reported, &free), Some(ToolAction::Listen)));
    assert!(matches!(run.step(line("/work/first.mp3"), &free), Some(ToolAction::Listen)));
    let converting = run.step(line("[ExtractAudio] x"), &free);
    assert!(matches!(converting, Some(ToolAction::Report(JobUpdate::Converting))));
    run.step(ToolEvent::Reported, &free);
    assert!(matches!(run.step(line("/work/last.mp3"), &free), Some(ToolAction::Listen)));
    assert!(matches!(run.step(line("[download] done"), &free), Some(ToolAction::Listen)));
    match run.step(ended(true), &free) {
        Some(ToolAction::Look { reported, dir }) => {
            assert_eq!(reported.as_deref(), Some("/work/last.mp3"));
            assert_eq!(dir, "/work");
        }
        _ => panic!("not looking"),
    }
    let taken = |p: &FilePath| p.dir == "/music" && p.name == "last.mp3";
    match run.step(ToolEvent::Seen { reported_exists: true, files: Vec::new() }, &taken) {
        Some(ToolAction::Place { from, to: Some(to) }) => {
            assert_eq!((from.dir.as_str(), from.name.as_str()), ("/work", "last.mp3"));
            assert_eq!((to.dir.as_str(), to.name.as_str()), ("/music", "last (1).mp3"));
        }
        _ => panic!("nothing to place"),
    }
    match run.step(ToolEvent::Moved(Ok("/music/last (1).mp3".to_string())), &free) {
        Some(ToolAction::Report(JobUpdate::Done { name, path })) => {
            assert_eq!(name, "last (1).mp3");
            assert_eq!(path, "/music/last (1).mp3");
        }
        _ => panic!("not done"),
    }
    assert!(matches!(run.step(ToolEvent::Reported, &free), Some(ToolAction::Finish(Ok(())))));
    assert!(run.stage == ToolStage::Over);
}

#[test]
fn the_tool_has_to_be_ready() {
    let mut run = ToolRun::new(request());
    assert_eq!(
        error_of(run.step(begin("downloading"), &free)),
        "The download engine is still preparing. Please wait a moment and try again."
    );
    assert!(run.step(ToolEvent::Reported, &free).is_none());
}

#[test]
fn starting_the_tool_can_fail() {
    let spawning = || {
        let mut run = ToolRun::new(request());
        run.step(begin("ready"), &free);
        run.step(ToolEvent::Reported, &free);
        run
    };
    assert_eq!(
        error_of(spawning().step(ToolEvent::Spawned(Err("no such file".to_string())), &free)),
        "Failed to start yt-dlp: no such file"
    );
    assert_eq!(
        error_of(spawning().step(ToolEvent::Spawned(Ok(false)), &free)),
        "Could not read yt-dlp output."
    );
}

#[test]
fn a_failed_tool_ends_the_download() {
    assert_eq!(error_of(listening().step(ended(false), &free)), "yt-dlp exited with code 1.");
    let failed = ToolEvent::Ended {
        canceled: false,
        timed_out: false,
        exit: Exit::Ended { success: false, code: Some(1) },
        stderr: b"ERROR: DRM\r\nmore\n\xff\nlost\n".to_vec(),
    };
    assert_eq!(
        error_of(listening().step(failed, &free)),
        "This source is DRM-protected, so it can't be downloaded."
    );
    let told = ToolEvent::Ended {
        canceled: false,
        timed_out: false,
        exit: Exit::Ended { success: false, code: Some(1) },
        stderr: b"no  space\r\nleft\n\xff\nlost\n".to_vec(),
    };
    assert_eq!(error_of(listening().step(told, &free)), "no space left");
    let stopped = ToolEvent::Ended {
        canceled: true,
        timed_out: false,
        exit: Exit::Lost,
        stderr: Vec::new(),
    };
    assert_eq!(error_of(listening().step(stopped, &free)), "__SIPHON_CANCELED__");
}

#[test]
fn an_unreported_file_is_found() {
    let mut run = listening();
    run.step(ended(true), &free);
    let files = vec![file("b.mp3", 9_000), file("a.mp3", 11_000), file("c.mp3.part", 12_000)];
    match run.step(ToolEvent::Seen { reported_exists: false, files }, &free) {
        Some(ToolAction::Place { from, to: Some(to) }) => {
            assert_eq!(from.name, "a.mp3");
            assert_eq!((to.dir.as_str(), to.name.as_str()), ("/music", "a.mp3"));
        }
        _ => panic!("nothing to place"),
    }
    let mut run = listening();
    run.step(ended(true), &free);
    assert_eq!(
        error_of(run.step(ToolEvent::Seen { reported_exists: false, files: Vec::new() }, &free)),
        "No final output file was found."
    );
}

#[test]
fn moving_the_file_can_fail() {
    let mut run = listening();
    run.step(line("/work/x.mp3"), &free);
    run.step(ended(true), &free);
    run.step(ToolEvent::Seen { reported_exists: true, files: Vec::new() }, &free);
    assert_eq!(
        error_of(run.step(ToolEvent::Moved(Err("disk full".to_string())), &free)),
        "Could not save the finished file: disk full"
    );
}

#[test]
fn tool_events_out_of_turn_change_nothing() {
    let mut run = listening();
    assert!(run.step(ToolEvent::Reported, &free).is_none());
    assert!(run.step(begin("ready"), &free).is_none());
    assert!(run.stage == ToolStage::Listening);
}
