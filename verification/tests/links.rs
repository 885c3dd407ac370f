use siphon::foreign::UrlParts;
use siphon::links::{
    infer_title_from_url, is_direct_extension, is_direct_media_url, judge_link, last_segment,
    last_segment_of, parse_url, title_from_stem, title_of_segment, trim_start_matches,
    unsupported_page_message, unsupported_parts_message, unsupported_url_message, url_extension,
};

const SEARCH: &str = "Please paste a direct YouTube video link, not a search page.";
const CHANNEL: &str = "Please paste a direct YouTube video link, not a channel page.";

fn parts(host: Option<&str>, path: &str) -> UrlParts {
    UrlParts {
        href: "https://x/".to_string(),
        host: host.map(String::from),
        path: path.to_string(),
        segments: Some(path.split('/').map(String::from).collect()),
    }
}

#[test]
fn links_are_read_or_refused() {
    assert_eq!(parse_url("  https://Example.com  "), Ok("https://example.com/".to_string()));
    assert_eq!(parse_url("   "), Err("Paste a media URL first.".to_string()));
    assert_eq!(parse_url("not a link"), Err("That URL is not valid.".to_string()));
    assert_eq!(judge_link("x", None), Err("That URL is not valid.".to_string()));
    assert_eq!(judge_link("", None), Err("Paste a media URL first.".to_string()));
    assert_eq!(judge_link("x", Some(parts(None, "/"))), Ok("https://x/".to_string()));
}

#[test]
fn pages_without_a_medium_are_named() {
    for url in ["https://www.youtube.com/results?q=a", "https://m.youtube.com/Results"] {
        assert_eq!(unsupported_url_message(url).as_deref(), Some(SEARCH), "{url}");
    }
    for url in [
        "https://youtube.com/@someone",
        "https://www.youtube.com/channel/abc",
        "https://www.youtube.com/c/abc",
        "https://WWW.YOUTUBE.COM/User/abc",
    ] {
        assert_eq!(unsupported_url_message(url).as_deref(), Some(CHANNEL), "{url}");
    }
    for url in [
        "https://www.youtube.com/watch?v=1",
        "https://example.com/@someone",
        "https://youtube.com/results/",
        "no link",
        "data:text/plain,x",
    ] {
        assert_eq!(unsupported_url_message(url), None, "{url}");
    }
}

#[test]
fn pages_are_judged_by_host_and_path() {
    assert_eq!(unsupported_page_message("youtube.com", "/results").as_deref(), Some(SEARCH));
    assert_eq!(unsupported_page_message("m.youtube.com", "/c/x").as_deref(), Some(CHANNEL));
    assert_eq!(unsupported_page_message("youtube.com", "/c"), None);
    let p = parts(Some("www.www.YouTube.com"), "/RESULTS");
    assert_eq!(unsupported_parts_message(&p).as_deref(), Some(SEARCH));
    assert_eq!(unsupported_parts_message(&parts(None, "/results")), None);
    assert_eq!(trim_start_matches("www.www.a", "www."), "a");
    assert_eq!(trim_start_matches("a.www.", "www."), "a.www.");
}

#[test]
fn last_segments_are_not_empty() {
    assert_eq!(last_segment("https://a.b/c/d.mp4?x=1").as_deref(), Some("d.mp4"));
    assert_eq!(last_segment("https://a.b/c/d//").as_deref(), Some("d"));
    assert_eq!(last_segment("https://a.b/"), None);
    assert_eq!(last_segment("mailto:a@b"), None);
    assert_eq!(last_segment("no link"), None);
    assert_eq!(last_segment_of(&parts(None, "/x//")).as_deref(), Some("x"));
}

#[test]
fn media_links_are_known_by_their_extension() {
    assert_eq!(url_extension("https://a.b/Clip.MP4").as_deref(), Some("mp4"));
    assert_eq!(url_extension("https://a.b/clip"), None);
    for ext in ["mp4", "mp3", "wav", "m4a", "webm", "ogg", "mov", "avi"] {
        assert!(is_direct_media_url(&format!("https://a.b/x.{ext}?q=1")));
        assert!(is_direct_extension(&Some(ext.to_string())));
    }
    for url in ["https://a.b/c/x.MP4", "https://a.b/c/x.html", "https://a.b", "https://a.b/x.mp4/"] {
        for tail in ["?q=1", "#t=2", "?q=.mp4", "?q=a/b.html#x.mp4", "#x.mp3?y", "?", "#"] {
            let whole = format!("{url}{tail}");
            assert_eq!(is_direct_media_url(&whole), is_direct_media_url(url), "{whole}");
            assert_eq!(url_extension(&whole), url_extension(url), "{whole}");
            assert_eq!(last_segment(&whole), last_segment(url), "{whole}");
        }
    }
    for url in ["https://a.b/.mp4", "https://a.b/mp4", "https://a.b/x.", "https://a.b/x.mp4.gz", "x"] {
        assert!(!is_direct_media_url(url), "{url}");
    }
    assert!(is_direct_media_url("https://a.b/wiki/File:Song.ogg"));
    assert!(!is_direct_media_url("https://a.b/x.html"));
    assert!(!is_direct_media_url("https://a.b/watch"));
    assert!(!is_direct_media_url("no link"));
    assert!(!is_direct_extension(&Some("mkv".to_string())));
    assert!(!is_direct_extension(&None));
}

#[test]
fn titles_come_from_the_last_segment() {
    assert_eq!(infer_title_from_url("https://a.b/My-Great_clip%20one.mp4"), "My Great clip one");
    assert_eq!(infer_title_from_url("https://a.b/"), "download");
    assert_eq!(infer_title_from_url("no link"), "download");
    assert_eq!(title_of_segment(Some("a--b__c.tar.gz".to_string())), "a b c.tar");
    assert_eq!(title_of_segment(None), "download");
    assert_eq!(title_from_stem("-_-"), "download");
}
