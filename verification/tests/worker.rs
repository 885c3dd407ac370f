use siphon::job::{Job, JobUpdate};
use siphon::request::{make_job, DownloadRequest};
use siphon::store::JobStore;
use siphon::worker::{after_work, cancel_download, end_job, plan_work, Running};

fn job(url: &str, target_dir: &str) -> Job {
    let request = DownloadRequest {
        url: url.to_string(),
        preset: "mp4".to_string(),
        title: None,
        thumbnail: None,
        auto_open: Some(true),
        auto_reveal: None,
        referer: None,
    };
    make_job(request, target_dir.to_string(), "then".to_string(), "7".to_string()).unwrap()
}

#[test]
fn work_goes_to_the_named_folder() {
    let work = plan_work(&job("https://a.b/c.mp4", "/videos"), "/downloads");
    assert_eq!((work.dir.as_str(), work.work_dir_name.as_str()), ("/videos", ".siphon-tmp-7"));
    assert!(work.direct);
    let work = plan_work(&job("https://a.b/watch", "  "), "/downloads");
    assert_eq!(work.dir, "/downloads");
    assert!(!work.direct);
}

#[test]
fn finished_files_are_opened_on_request() {
    let mut j = job("https://a.b/c.mp4", "");
    j.output_path = Some("/videos/c.mp4".to_string());
    let after = after_work(Ok(()), false, Some(&j));
    assert!(after.step.is_none());
    assert_eq!(after.open.as_deref(), Some("/videos/c.mp4"));
    assert_eq!(after.reveal, None);
    j.auto_open = false;
    j.auto_reveal = true;
    let after = after_work(Ok(()), true, Some(&j));
    assert_eq!((after.open, after.reveal.as_deref()), (None, Some("/videos/c.mp4")));
    let after = after_work(Ok(()), false, None);
    assert_eq!((after.open, after.reveal), (None, None));
    let after = after_work(Err("x".to_string()), false, Some(&j));
    assert!(matches!(after.step, Some(JobUpdate::Failed { .. })));
    assert_eq!((after.open, after.reveal), (None, None));
}

#[test]
fn jobs_end_by_their_result() {
    let store_with = || {
        let mut store = JobStore::new(Vec::new());
        store.insert(job("https://a.b/c.mp4", ""));
        store
    };
    let now = || "now".to_string();

    let mut store = store_with();
    let end = end_job(&mut store, "7", Err("broken".to_string()), false, now());
    assert_eq!(end.changed.unwrap().status, "error");
    assert_eq!(store.get("7").unwrap().error.as_deref(), Some("broken"));
    assert_eq!(store.get("7").unwrap().updated_at, "now");

    let mut store = store_with();
    store.mutate("7", JobUpdate::Started, now());
    assert_eq!(store.get("7").unwrap().phase.as_deref(), Some("downloading"));
    end_job(&mut store, "7", Err("broken".to_string()), true, now());
    assert_eq!(store.get("7").unwrap().phase, None);
    assert_eq!(store.get("7").unwrap().status, "canceled");
    assert_eq!(store.get("7").unwrap().error.as_deref(), Some("Canceled."));

    let mut store = store_with();
    let end = end_job(&mut store, "7", Ok(()), false, now());
    assert!(end.changed.is_none());
    assert_eq!(store.get("7").unwrap().status, "queued");

    let mut store = store_with();
    let end = end_job(&mut store, "8", Err("broken".to_string()), false, now());
    assert!(end.changed.is_none());
    assert_eq!(store.get("7").unwrap().status, "queued");
}

#[test]
fn only_running_jobs_are_stopped() {
    let mut running = Running::new();
    assert!(!cancel_download(&mut running, "a"));
    assert!(!running.is_canceled("a"));
    running.begin("a");
    running.begin("b");
    assert!(!running.is_canceled("a"));
    assert!(cancel_download(&mut running, "a"));
    assert!(running.is_canceled("a"));
    assert!(!running.is_canceled("b"));
    assert!(running.finish("a"));
    assert!(!running.is_canceled("a"));
    assert!(!running.finish("b"));
    assert!(!running.finish("b"));
}
