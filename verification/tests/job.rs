use siphon::job::{is_finished, Job, JobUpdate};

fn job() -> Job {
    Job {
        id: "0123abcd-012".to_string(),
        url: "https://a.b/c".to_string(),
        preset: "mp4".to_string(),
        status: "queued".to_string(),
        title: "A title".to_string(),
        thumbnail: Some("https://a.b/t.jpg".to_string()),
        phase: None,
        percent: None,
        total_size: None,
        speed: None,
        eta: None,
        error: None,
        output_name: None,
        output_path: None,
        target_dir: "/music".to_string(),
        referer: None,
        auto_open: true,
        auto_reveal: false,
        created_at: "then".to_string(),
        updated_at: "then".to_string(),
    }
}

fn some(s: &str) -> Option<String> {
    Some(s.to_string())
}

fn progress() -> JobUpdate {
    JobUpdate::Progress {
        percent: some("10.0%"),
        speed: some("1 MiB/s"),
        total_size: None,
        eta: some("5s"),
    }
}

#[test]
fn a_started_job_runs() {
    let mut j = job();
    j.apply(JobUpdate::Started);
    assert_eq!(j.status, "running");
    assert_eq!(j.phase, some("downloading"));
    assert_eq!(j.percent, None);
}

#[test]
fn received_bytes_are_shown() {
    let mut j = job();
    j.apply(JobUpdate::Received {
        percent: some("1.0%"),
        total_size: some("2.0 MiB"),
        rate: "Receiving".to_string(),
        eta: None,
    });
    assert_eq!(j.phase, some("downloading"));
    assert_eq!(j.percent, some("1.0%"));
    assert_eq!(j.total_size, some("2.0 MiB"));
    assert_eq!(j.speed, some("Receiving"));
    assert_eq!(j.eta, None);
}

#[test]
fn conversion_of_a_source_is_shown() {
    let mut j = job();
    j.percent = some("100%");
    j.eta = some("0s");
    j.apply(JobUpdate::ConvertingSource);
    assert_eq!(j.phase, some("converting"));
    assert_eq!(j.speed, some("Converting"));
    assert_eq!((j.percent, j.eta), (None, None));
}

#[test]
fn finished_jobs_are_complete() {
    let mut j = job();
    j.apply(JobUpdate::SourceDone { name: "n".to_string(), path: "p/n".to_string() });
    assert_eq!(j.status, "complete");
    assert_eq!(j.phase, None);
    assert_eq!(j.percent, some("100.0%"));
    assert_eq!(j.speed, some("Done"));
    assert_eq!(j.eta, some("0s"));
    assert_eq!((j.output_name, j.output_path), (some("n"), some("p/n")));

    let mut j = job();
    j.speed = some("1 MiB/s");
    j.apply(JobUpdate::Done { name: "n".to_string(), path: "p/n".to_string() });
    assert_eq!(j.status, "complete");
    assert_eq!(j.percent, some("100.0%"));
    assert_eq!(j.speed, some("1 MiB/s"));
    assert_eq!(j.eta, some("0s"));
}

#[test]
fn late_progress_does_not_end_conversion() {
    for update in [JobUpdate::Converting, JobUpdate::Merging] {
        let mut j = job();
        j.apply(JobUpdate::Started);
        j.apply(progress());
        assert_eq!(j.phase, some("downloading"));
        j.apply(update);
        let phase = j.phase.clone();
        assert_eq!((j.percent.clone(), j.speed.clone(), j.eta.clone()), (None, None, None));
        j.apply(progress());
        assert_eq!(j.phase, phase);
        assert_eq!(j.percent, some("10.0%"));
    }
}

#[test]
fn failed_and_stopped_jobs_tell_why() {
    let mut j = job();
    j.apply(JobUpdate::Started);
    j.apply(JobUpdate::Canceled);
    assert_eq!((j.status.as_str(), j.error), ("canceled", some("Canceled.")));
    assert_eq!(j.phase, None);
    let mut j = job();
    j.apply(JobUpdate::Started);
    j.apply(JobUpdate::Merging);
    j.apply(JobUpdate::Failed { message: "no".to_string() });
    assert_eq!((j.status.as_str(), j.error), ("error", some("no")));
    assert_eq!(j.phase, None);
}

#[test]
fn steps_keep_the_request() {
    let mut j = job();
    j.apply(JobUpdate::Started);
    j.apply(progress());
    j.apply(JobUpdate::Merging);
    j.apply(JobUpdate::Done { name: "n".to_string(), path: "p".to_string() });
    let first = job();
    assert_eq!((j.id, j.url, j.preset), (first.id, first.url, first.preset));
    assert_eq!((j.title, j.thumbnail), (first.title, first.thumbnail));
    assert_eq!((j.target_dir, j.referer), (first.target_dir, first.referer));
    assert_eq!((j.auto_open, j.auto_reveal), (true, false));
    assert_eq!(j.created_at, "then");
}

#[test]
fn jobs_are_over_in_three_ways() {
    for s in ["complete", "error", "canceled"] {
        assert!(is_finished(s));
    }
    for s in ["queued", "running", "", "Complete"] {
        assert!(!is_finished(s));
    }
}
