use siphon::direct::{
    choose_title, direct_names, is_report_due, plan_direct, received, DirectAction, DirectDownload,
    DirectEvent, DirectRequest, DirectStage, Pace,
};
use siphon::job::JobUpdate;
use siphon::names::FilePath;

fn some(s: &str) -> Option<String> {
    Some(s.to_string())
}

fn pace(rate: u64, eta_secs: u64) -> Pace {
    Pace { rate, eta_secs, percent: "50.0%".to_string() }
}

fn request(converts: bool) -> DirectRequest {
    DirectRequest {
        url: "https://a.b/a.mov".to_string(),
        preset: "mp4".to_string(),
        source: "dir/a [source].mov".to_string(),
        target: "dir/a [direct].mp4".to_string(),
        converts,
    }
}

/// A download whose source answered with 100 bytes.
fn opened(converts: bool) -> DirectDownload {
    let mut d = DirectDownload::new(request(converts));
    assert!(matches!(d.step(DirectEvent::Begin), Some(DirectAction::Report(JobUpdate::Started))));
    match d.step(DirectEvent::Reported) {
        Some(DirectAction::Request(url)) => assert_eq!(url, "https://a.b/a.mov"),
        _ => panic!("not asked"),
    }
    let reply = DirectEvent::Replied { success: true, code: 200, reason: None, length: Some(100) };
    match d.step(reply) {
        Some(DirectAction::Open(path)) => assert_eq!(path, "dir/a [source].mov"),
        _ => panic!("not opened"),
    }
    assert!(matches!(d.step(DirectEvent::Opened(Ok(()))), Some(DirectAction::Poll)));
    d
}

/// A download whose source was read to the end.
fn read(converts: bool) -> DirectDownload {
    let mut d = opened(converts);
    assert!(matches!(d.step(DirectEvent::Polled(false)), Some(DirectAction::Read)));
    assert!(matches!(d.step(DirectEvent::Read(Ok(60))), Some(DirectAction::Write)));
    assert!(matches!(d.step(DirectEvent::Wrote(Ok(()))), Some(DirectAction::Measure)));
    assert!(matches!(d.step(DirectEvent::Measured(None)), Some(DirectAction::Poll)));
    assert!(matches!(d.step(DirectEvent::Polled(false)), Some(DirectAction::Read)));
    assert!(matches!(d.step(DirectEvent::Read(Ok(40))), Some(DirectAction::Write)));
    assert!(matches!(d.step(DirectEvent::Wrote(Ok(()))), Some(DirectAction::Measure)));
    assert_eq!(d.written, 100);
    assert!(matches!(d.step(DirectEvent::Measured(None)), Some(DirectAction::Poll)));
    assert!(matches!(d.step(DirectEvent::Polled(false)), Some(DirectAction::Read)));
    assert!(matches!(d.step(DirectEvent::Read(Ok(0))), Some(DirectAction::Flush)));
    d
}

fn error_of(action: Option<DirectAction>) -> String {
    match action {
        Some(DirectAction::Finish(Err(e))) => e,
        _ => panic!("no error"),
    }
}

#[test]
fn files_are_named_after_the_title() {
    let n = direct_names("My: clip", &some("mov"), "mp4");
    assert_eq!(n.source, "My clip [source].mov");
    assert_eq!(n.target, "My clip [direct].mp4");
    assert!(n.converts);
    assert_eq!(direct_names("a", &None, "mp3").source, "a [source].bin");
    for format in ["mp4", "mp3", "wav"] {
        assert!(!direct_names("a", &some(format), format).converts);
        assert!(direct_names("a", &some("ogg"), format).converts);
    }
    assert!(direct_names("a", &some("ogg"), "ogg").converts);
}

#[test]
fn titles_are_given_or_found() {
    assert_eq!(choose_title("Given", "https://a.b/x_y.mp4"), "Given");
    assert_eq!(choose_title("", "https://a.b/x_y.mp4"), "x y");
}

#[test]
fn plans_avoid_taken_paths() {
    let taken = ["x y [source].mp4", "x y [direct].mp4", "x y [direct] (1).mp4"];
    let exists_at = |p: &FilePath| taken.contains(&p.name.as_str());
    let plan = plan_direct("dir", "https://a.b/x_y.MP4", "mp4", "", &exists_at).unwrap();
    assert_eq!(plan.source.name, "x y [source] (1).mp4");
    assert_eq!(plan.target.name, "x y [direct] (2).mp4");
    assert_eq!((plan.source.dir.as_str(), plan.target.dir.as_str()), ("dir", "dir"));
    assert!(!plan.converts);
    assert_ne!(plan.source.name, plan.target.name);
}

#[test]
fn progress_of_a_known_length() {
    match received(2048, 1024, pace(1536, 61)) {
        JobUpdate::Received { percent, total_size, rate, eta } => {
            assert_eq!(percent, some("50.0%"));
            assert_eq!(total_size, some("2.0 KiB"));
            assert_eq!(rate, "1.5 KiB/s");
            assert_eq!(eta, some("1m01s"));
        }
        _ => panic!("no report"),
    }
    match received(2048, 0, pace(0, 9)) {
        JobUpdate::Received { rate, eta, .. } => {
            assert_eq!(rate, "Receiving");
            assert_eq!(eta, some("Calculating"));
        }
        _ => panic!("no report"),
    }
}

#[test]
fn reports_keep_their_distance() {
    assert!(!is_report_due(0));
    assert!(!is_report_due(119));
    assert!(is_report_due(120));
    assert!(is_report_due(5_000));
}

#[test]
fn progress_of_an_unknown_length() {
    match received(0, 3072, pace(10, 9)) {
        JobUpdate::Received { percent, total_size, rate, eta } => {
            assert_eq!((percent, eta), (None, None));
            assert_eq!(total_size, some("3.0 KiB"));
            assert_eq!(rate, "10 B/s");
        }
        _ => panic!("no report"),
    }
}

#[test]
fn a_file_in_the_wanted_format_is_moved() {
    let mut d = read(false);
    match d.step(DirectEvent::Flushed(Ok(()))) {
        Some(DirectAction::Move { from, to }) => {
            assert_eq!(from, "dir/a [source].mov");
            assert_eq!(to, "dir/a [direct].mp4");
        }
        _ => panic!("not moved"),
    }
    match d.step(DirectEvent::Moved(Ok(()))) {
        Some(DirectAction::Report(JobUpdate::SourceDone { name, path })) => {
            assert_eq!(name, "a [direct].mp4");
            assert_eq!(path, "dir/a [direct].mp4");
        }
        _ => panic!("not done"),
    }
    assert!(matches!(d.step(DirectEvent::Reported), Some(DirectAction::Finish(Ok(())))));
    assert!(d.stage == DirectStage::Over);
    assert!(d.step(DirectEvent::Reported).is_none());
}

#[test]
fn another_file_is_converted_and_removed() {
    let mut d = read(true);
    let announced = d.step(DirectEvent::Flushed(Ok(())));
    assert!(matches!(announced, Some(DirectAction::Report(JobUpdate::ConvertingSource))));
    match d.step(DirectEvent::Reported) {
        Some(DirectAction::Convert(args)) => assert_eq!(
            args,
            [
                "-y",
                "-i",
                "dir/a [source].mov",
                "-c:v",
                "libx264",
                "-c:a",
                "aac",
                "dir/a [direct].mp4"
            ]
        ),
        _ => panic!("not converted"),
    }
    match d.step(DirectEvent::Converted(Ok(()))) {
        Some(DirectAction::Remove(path)) => assert_eq!(path, "dir/a [source].mov"),
        _ => panic!("not removed"),
    }
    assert!(matches!(
        d.step(DirectEvent::Removed),
        Some(DirectAction::Report(JobUpdate::SourceDone { .. }))
    ));
    assert!(matches!(d.step(DirectEvent::Reported), Some(DirectAction::Finish(Ok(())))));
}

#[test]
fn reports_follow_measurements() {
    let mut d = opened(false);
    d.step(DirectEvent::Polled(false));
    d.step(DirectEvent::Read(Ok(50)));
    d.step(DirectEvent::Wrote(Ok(())));
    match d.step(DirectEvent::Measured(Some(pace(25, 2)))) {
        Some(DirectAction::Report(JobUpdate::Received { total_size, rate, eta, .. })) => {
            assert_eq!(total_size, some("100 B"));
            assert_eq!(rate, "25 B/s");
            assert_eq!(eta, some("2s"));
        }
        _ => panic!("no report"),
    }
    assert!(matches!(d.step(DirectEvent::Reported), Some(DirectAction::Poll)));
}

#[test]
fn a_stopped_download_is_discarded() {
    let mut d = opened(false);
    match d.step(DirectEvent::Polled(true)) {
        Some(DirectAction::Discard(path)) => assert_eq!(path, "dir/a [source].mov"),
        _ => panic!("not discarded"),
    }
    assert_eq!(error_of(d.step(DirectEvent::Discarded)), "__SIPHON_CANCELED__");
}

#[test]
fn failures_end_a_download() {
    let start = || {
        let mut d = DirectDownload::new(request(false));
        d.step(DirectEvent::Begin);
        d.step(DirectEvent::Reported);
        d
    };
    assert_eq!(error_of(start().step(DirectEvent::ClientFailed("no tls".to_string()))), "no tls");
    assert_eq!(
        error_of(start().step(DirectEvent::RequestFailed("dns".to_string()))),
        "Source request failed: dns"
    );
    let gone = DirectEvent::Replied { success: false, code: 410, reason: some("Gone"), length: None };
    assert_eq!(error_of(start().step(gone)), "Source returned 410 Gone.");

    let mut d = opened(false);
    d.step(DirectEvent::Polled(false));
    assert_eq!(error_of(d.step(DirectEvent::Read(Err("reset".to_string())))), "reset");
    let mut d = opened(false);
    d.step(DirectEvent::Polled(false));
    d.step(DirectEvent::Read(Ok(1)));
    assert_eq!(error_of(d.step(DirectEvent::Wrote(Err("full".to_string())))), "full");
    let mut d = read(false);
    assert_eq!(error_of(d.step(DirectEvent::Flushed(Err("full".to_string())))), "full");
    let mut d = read(false);
    d.step(DirectEvent::Flushed(Ok(())));
    assert_eq!(error_of(d.step(DirectEvent::Moved(Err("denied".to_string())))), "denied");
    let mut d = read(true);
    d.step(DirectEvent::Flushed(Ok(())));
    d.step(DirectEvent::Reported);
    assert_eq!(error_of(d.step(DirectEvent::Converted(Err("codec".to_string())))), "codec");
}

#[test]
fn events_out_of_turn_change_nothing() {
    let mut d = opened(false);
    assert!(d.step(DirectEvent::Flushed(Ok(()))).is_none());
    assert!(d.step(DirectEvent::Read(Ok(1))).is_none());
    assert!(d.stage == DirectStage::Polling);
    d.step(DirectEvent::Polled(false));
    d.written = u64::MAX;
    assert!(d.step(DirectEvent::Read(Ok(1))).is_none());
}
