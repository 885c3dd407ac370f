use siphon::probe::{
    direct_info, duration_of, media_info, probe, probe_direct, probe_failure, read_probe,
    serialize_info, Probe, ToldFields,
};

fn some(s: &str) -> Option<String> {
    Some(s.to_string())
}

fn nothing() -> ToldFields {
    ToldFields {
        thumbnail: None,
        last_thumbnail: None,
        duration: None,
        uploader: None,
        channel: None,
        extractor_key: None,
        extractor: None,
        description: None,
        id: None,
        title: None,
        webpage_url: None,
    }
}

const FULL: &str = r#"{
  "id": "abc", "title": "A clip", "duration": 212.5, "channel": "Someone",
  "extractor": "site", "thumbnails": [{"url": "one"}, {"url": "two"}],
  "webpage_url": "https://a.b/c", "description": "long"
}"#;

#[test]
fn what_is_told_is_known() {
    let info = serialize_info(FULL.as_bytes(), Some(213)).unwrap();
    assert_eq!(info.id, some("abc"));
    assert_eq!(info.title, "A clip");
    assert_eq!(info.thumbnail, some("two"));
    assert_eq!(info.duration, some("212.5"));
    assert_eq!(info.duration_label, "3:33");
    assert_eq!(info.uploader, "Someone");
    assert_eq!(info.extractor, "site");
    assert_eq!(info.webpage_url, some("https://a.b/c"));
    assert_eq!(info.description, "long");
    assert!(!info.direct);
}

#[test]
fn durations_are_told_as_numbers() {
    assert_eq!(duration_of(FULL.as_bytes()), some("212.5"));
    assert_eq!(duration_of(b"{\"duration\": 7}"), some("7"));
    assert_eq!(duration_of(b"{\"duration\": \"7\"}"), None);
    assert_eq!(duration_of(b"no json"), None);
}

#[test]
fn other_documents_tell_nothing() {
    for text in ["{}", "[1, 2]", "7", "{\"title\": 7, \"thumbnails\": []}"] {
        let info = serialize_info(text.as_bytes(), None).unwrap();
        assert_eq!(info.title, "Untitled media");
        assert_eq!(info.uploader, "Unknown source");
        assert_eq!(info.extractor, "Web");
        assert_eq!(info.duration_label, "Unknown");
        assert_eq!((info.id, info.thumbnail, info.webpage_url), (None, None, None));
        assert_eq!(info.description, "");
    }
    let broken = serialize_info(b"{", None);
    assert_eq!(broken.err().as_deref(), Some("Could not read media info."));
}

#[test]
fn told_fields_stand_in_for_each_other() {
    let mut told = nothing();
    told.extractor_key = some("Key");
    told.extractor = some("ext");
    told.last_thumbnail = some("last");
    let info = media_info(told, None);
    assert_eq!((info.uploader.as_str(), info.extractor.as_str()), ("Key", "Key"));
    assert_eq!(info.thumbnail, some("last"));
    let mut told = nothing();
    told.uploader = some("Up");
    told.channel = some("Ch");
    told.thumbnail = some("first");
    told.last_thumbnail = some("last");
    let info = media_info(told, Some(61));
    assert_eq!((info.uploader.as_str(), info.extractor.as_str()), ("Up", "Web"));
    assert_eq!(info.thumbnail, some("first"));
    assert_eq!(info.duration_label, "1:01");
}

#[test]
fn descriptions_are_cut() {
    for (given, kept) in [(219, 219), (220, 220), (221, 220), (900, 220)] {
        let mut told = nothing();
        told.description = Some("\u{e9}".repeat(given));
        assert_eq!(media_info(told, None).description, "\u{e9}".repeat(kept));
    }
}

#[test]
fn direct_links_are_known_without_asking() {
    let info = probe_direct("https://cdn.example.com/My_song.mp3");
    assert_eq!(info.title, "My song");
    assert_eq!(info.uploader, "cdn.example.com");
    assert_eq!(info.extractor, "Direct");
    assert_eq!(info.duration_label, "Direct file");
    assert_eq!(info.description, "Direct media file");
    assert_eq!(info.webpage_url, some("https://cdn.example.com/My_song.mp3"));
    assert!(info.direct);
    assert_eq!(direct_info("u", None, "t".to_string()).uploader, "Direct source");
    match probe(" https://a.b/x.wav ", "pending") {
        Ok(Probe::Known(info)) => assert_eq!(info.title, "x"),
        _ => panic!("not known"),
    }
}

#[test]
fn other_links_are_asked_for() {
    match probe("https://a.b/watch", "ready") {
        Ok(Probe::Ask(args)) => {
            assert_eq!(args, ["-J", "--no-warnings", "--no-playlist", "https://a.b/watch"]);
        }
        _ => panic!("not asked"),
    }
    assert_eq!(
        probe("https://a.b/watch", "downloading").err().as_deref(),
        Some("The download engine is still preparing. Please wait a moment and try again.")
    );
    assert_eq!(probe("", "ready").err().as_deref(), Some("Paste a media URL first."));
    assert_eq!(
        probe("https://youtube.com/results", "ready").err().as_deref(),
        Some("Please paste a direct YouTube video link, not a search page.")
    );
}

#[test]
fn answers_are_read() {
    let info = read_probe(true, FULL.as_bytes(), b"", None).unwrap();
    assert_eq!(info.title, "A clip");
    assert_eq!(
        read_probe(true, b"oops", b"", None).err().as_deref(),
        Some("Could not read media info.")
    );
    assert_eq!(
        read_probe(false, FULL.as_bytes(), b"ERROR:\n bad", None).err().as_deref(),
        Some("ERROR: bad")
    );
    assert_eq!(probe_failure("not found"), "Failed to run yt-dlp: not found");
}
