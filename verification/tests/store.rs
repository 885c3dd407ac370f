use siphon::job::{Job, JobUpdate};
use siphon::store::{clear_finished, get_jobs, remove_job, JobStore};

fn job(id: &str, status: &str) -> Job {
    Job {
        id: id.to_string(),
        url: "https://a.b/c".to_string(),
        preset: "mp4".to_string(),
        status: status.to_string(),
        title: "t".to_string(),
        thumbnail: None,
        phase: None,
        percent: None,
        total_size: None,
        speed: None,
        eta: None,
        error: None,
        output_name: None,
        output_path: None,
        target_dir: String::new(),
        referer: None,
        auto_open: false,
        auto_reveal: false,
        created_at: "c".to_string(),
        updated_at: "u".to_string(),
    }
}

fn ids(list: Vec<Job>) -> Vec<String> {
    list.into_iter().map(|j| j.id).collect()
}

#[test]
fn only_finished_jobs_survive_a_restart() {
    let saved = vec![
        job("a", "complete"),
        job("b", "running"),
        job("c", "error"),
        job("d", "queued"),
        job("e", "canceled"),
    ];
    let store = JobStore::new(saved);
    assert_eq!(ids(store.ordered()), ["a", "c", "e"]);
    assert!(store.get("b").is_none());
    let again = JobStore::new(store.ordered());
    assert_eq!(ids(again.ordered()), ["a", "c", "e"]);
}

#[test]
fn new_jobs_come_first() {
    let mut store = JobStore::new(Vec::new());
    store.insert(job("a", "queued"));
    store.insert(job("b", "queued"));
    assert_eq!(ids(get_jobs(&store)), ["b", "a"]);
}

#[test]
fn steps_reach_one_job() {
    let mut store = JobStore::new(Vec::new());
    store.insert(job("a", "queued"));
    store.insert(job("b", "queued"));
    let changed = store.mutate("a", JobUpdate::Started, "now".to_string()).unwrap();
    assert_eq!((changed.status.as_str(), changed.updated_at.as_str()), ("running", "now"));
    assert_eq!(store.get("a").unwrap().status, "running");
    assert_eq!(store.get("b").unwrap().status, "queued");
    assert_eq!(store.get("b").unwrap().updated_at, "u");
    assert!(store.mutate("x", JobUpdate::Started, "now".to_string()).is_none());
    assert_eq!(ids(store.ordered()), ["b", "a"]);
}

#[test]
fn removal_leaves_the_others() {
    let mut store = JobStore::new(Vec::new());
    for id in ["a", "b", "c"] {
        store.insert(job(id, "queued"));
    }
    assert_eq!(ids(remove_job(&mut store, "b")), ["c", "a"]);
    assert_eq!(ids(remove_job(&mut store, "x")), ["c", "a"]);
    assert!(store.get("b").is_none());
}

#[test]
fn clearing_leaves_unfinished_jobs() {
    let mut store = JobStore::new(vec![job("old", "complete")]);
    store.insert(job("a", "queued"));
    store.insert(job("b", "error"));
    store.insert(job("c", "running"));
    assert_eq!(ids(clear_finished(&mut store)), ["c", "a"]);
    assert!(store.get("old").is_none());
    assert!(store.get("b").is_none());
}
