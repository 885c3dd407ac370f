use siphon::request::{
    check_link, check_request, id_from_uuid, job_title, make_job, new_job_id, start_download, state,
    DownloadRequest,
};
use siphon::store::JobStore;

fn request(url: &str, preset: &str) -> DownloadRequest {
    DownloadRequest {
        url: url.to_string(),
        preset: preset.to_string(),
        title: None,
        thumbnail: Some("t".to_string()),
        auto_open: None,
        auto_reveal: Some(true),
        referer: Some("  https://page ".to_string()),
    }
}

#[test]
fn links_are_checked_before_the_format() {
    assert_eq!(check_link(" https://a.b/c "), Ok("https://a.b/c".to_string()));
    assert_eq!(check_request("", "avi").unwrap_err(), "Paste a media URL first.");
    assert_eq!(check_request("x", "avi").unwrap_err(), "That URL is not valid.");
    assert_eq!(
        check_request("https://youtube.com/@x", "avi").unwrap_err(),
        "Please paste a direct YouTube video link, not a channel page."
    );
    assert_eq!(check_request("https://a.b", "avi").unwrap_err(), "Choose MP4, MP3, or WAV.");
    for preset in ["mp4", "mp3", "wav"] {
        assert_eq!(check_request("https://a.b", preset), Ok("https://a.b/".to_string()));
    }
    assert!(check_request("https://a.b", "MP4").is_err());
}

#[test]
fn titles_are_asked_for_or_found() {
    let asked = |t: &str| Some(t.to_string());
    assert_eq!(job_title("https://a.b/c", asked("  My title ")), "My title");
    assert_eq!(job_title("https://a.b/x_y.mp3", asked("  ")), "x y");
    assert_eq!(job_title("https://a.b/x_y.mp3", None), "x y");
    assert_eq!(job_title("https://a.b/watch", None), "Download");
    assert_eq!(state(asked(" ")), None);
    assert_eq!(state(None), None);
}

#[test]
fn accepted_requests_become_queued_jobs() {
    let job = make_job(
        request("https://a.b/c", "wav"),
        "/music".to_string(),
        "now".to_string(),
        "id".to_string(),
    )
    .unwrap();
    assert_eq!((job.id.as_str(), job.url.as_str()), ("id", "https://a.b/c"));
    assert_eq!((job.preset.as_str(), job.status.as_str()), ("wav", "queued"));
    assert_eq!((job.title.as_str(), job.target_dir.as_str()), ("Download", "/music"));
    assert_eq!(job.thumbnail.as_deref(), Some("t"));
    assert_eq!(job.referer.as_deref(), Some("https://page"));
    assert_eq!((job.auto_open, job.auto_reveal), (false, true));
    assert_eq!((job.created_at.as_str(), job.updated_at.as_str()), ("now", "now"));
    assert_eq!((job.phase, job.percent, job.error, job.output_path), (None, None, None, None));
}

#[test]
fn identities_begin_a_uuid() {
    assert_eq!(id_from_uuid("01234567-89ab-cdef-0123-456789abcdef"), "01234567-89a");
    let a = new_job_id();
    let b = new_job_id();
    assert_eq!(a.len(), 12);
    assert_eq!(a.find('-'), Some(8));
    assert!(a.chars().all(|c| c == '-' || c.is_ascii_digit() || ('a'..='f').contains(&c)));
    assert_ne!(a, b);
}

#[test]
fn started_jobs_are_listed_first() {
    let mut store = JobStore::new(Vec::new());
    let now = || "now".to_string();
    let first =
        start_download(&mut store, request("https://a.b/1", "mp4"), String::new(), now()).unwrap();
    let second =
        start_download(&mut store, request("https://a.b/2", "mp4"), String::new(), now()).unwrap();
    let refused = start_download(&mut store, request("https://a.b/2", "x"), String::new(), now());
    assert_eq!(refused.err().as_deref(), Some("Choose MP4, MP3, or WAV."));
    let listed: Vec<String> = store.ordered().into_iter().map(|j| j.id).collect();
    assert_eq!(listed, [second.id, first.id]);
}
