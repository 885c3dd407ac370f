use siphon::engine::Platform;
use siphon::sniffer::{
    clear_finder_data, is_manifest, is_manifest_name, kind_of, wait_for_close, Seen, SnifferState,
    CLOSE_PAUSE_MS, CLOSE_TRIES, REVEAL_AFTER_SECS,
};

#[test]
fn manifests_are_known_by_their_links() {
    for uri in [
        "https://a.b/x.m3u8",
        "https://a.b/X.M3U8?t=1",
        "https://a.b/x.mpd",
        "https://a.b/x.f4m",
        "https://a.b/x?format=m3u8",
    ] {
        assert!(is_manifest(uri), "{uri}");
    }
    for uri in ["https://a.b/x.mp4", "https://a.b/m3u8", ""] {
        assert!(!is_manifest(uri), "{uri}");
    }
    assert!(is_manifest_name("a.mpd"));
    assert!(!is_manifest_name("A.MPD"));
    assert_eq!(kind_of("x.mpd"), "dash");
    assert_eq!(kind_of("x.m3u8"), "hls");
}

#[test]
fn windows_are_numbered() {
    assert_eq!(REVEAL_AFTER_SECS, 10);
    let mut s = SnifferState::new();
    let first = s.open_sniffer(" https://a.b ").unwrap();
    assert_eq!((first.page_url.as_str(), first.generation), ("https://a.b/", 1));
    assert!(s.should_reveal(1));
    let second = s.open_sniffer("https://c.d").unwrap();
    assert_eq!(second.generation, 2);
    assert!(!s.should_reveal(1));
    assert!(s.should_reveal(2));
    s.generation = usize::MAX;
    assert_eq!(s.open_sniffer("https://c.d").unwrap().generation, 0);
}

#[test]
fn closed_windows_have_two_seconds_to_go() {
    assert_eq!(u64::from(CLOSE_TRIES) * CLOSE_PAUSE_MS, 2_000);
    assert!(wait_for_close(0, false));
    assert!(wait_for_close(99, false));
    assert!(!wait_for_close(100, false));
    assert!(!wait_for_close(0, true));
}

#[test]
fn windows_opened_long_ago_stay_hidden() {
    let mut s = SnifferState::new();
    for _ in 0..5 {
        s.open_sniffer("https://a.b").unwrap();
    }
    assert!((0..5).all(|old| !s.should_reveal(old)));
    assert!(s.should_reveal(5));
}

#[test]
fn refused_pages_change_nothing() {
    let mut s = SnifferState::new();
    s.open_sniffer("https://a.b").unwrap();
    s.found_any = true;
    assert_eq!(s.open_sniffer(" ").err().as_deref(), Some("Paste a media URL first."));
    assert_eq!(s.open_sniffer("x").err().as_deref(), Some("That URL is not valid."));
    assert!(s == SnifferState { found_any: true, generation: 1 });
}

#[test]
fn found_streams_keep_the_window_hidden() {
    let mut s = SnifferState::new();
    s.open_sniffer("https://a.b").unwrap();
    let found = s.report_stream("p".to_string(), "s".to_string(), "k".to_string());
    assert_eq!((found.page_url.as_str(), found.stream_url.as_str()), ("p", "s"));
    assert_eq!(found.kind, "k");
    assert!(!s.should_reveal(1));
    s.open_sniffer("https://a.b").unwrap();
    assert!(s.should_reveal(2));
}

#[test]
fn streams_are_reported_once() {
    let mut s = SnifferState::new();
    let mut seen = Seen::new();
    assert!(seen.observe(&mut s, "page", "https://a.b/x.css").is_none());
    assert!(!s.found_any);
    let found = seen.observe(&mut s, "page", "https://a.b/X.MPD").unwrap();
    assert_eq!((found.page_url.as_str(), found.kind.as_str()), ("page", "dash"));
    assert_eq!(found.stream_url, "https://a.b/X.MPD");
    assert!(s.found_any);
    assert!(seen.observe(&mut s, "page", "https://a.b/X.MPD").is_none());
    assert_eq!(seen.observe(&mut s, "page", "https://a.b/x.m3u8").unwrap().kind, "hls");
}

#[test]
fn data_is_cleared_on_windows_only() {
    assert_eq!(clear_finder_data(Platform::Windows), Ok(()));
    for platform in [Platform::MacOs, Platform::Other] {
        assert_eq!(
            clear_finder_data(platform).unwrap_err(),
            "Clearing finder data isn't supported on this platform yet."
        );
    }
}
