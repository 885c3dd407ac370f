use siphon::engine::{
    exe_name, run_version, version_in, yt_dlp_filename, yt_dlp_source, BinaryStatus, EngineState,
    Platform, Program, Ran,
};

fn engine(platform: Platform) -> EngineState {
    EngineState::new("/bin".to_string(), "/downloads".to_string(), platform)
}

#[test]
fn binaries_are_pending_at_first() {
    let e = engine(Platform::Other);
    assert_eq!((e.bin_dir.as_str(), e.downloads_dir.as_str()), ("/bin", "/downloads"));
    let s = e.snapshot();
    assert_eq!((s.yt_dlp.status.as_str(), s.ffmpeg.status.as_str()), ("pending", "pending"));
    assert_eq!((s.yt_dlp.version, s.yt_dlp.error), (None, None));
    assert!(!s.ready);
}

#[test]
fn all_is_ready_where_both_are() {
    let mut e = engine(Platform::Other);
    e.set_yt(BinaryStatus::ready("1".to_string()));
    assert!(!e.snapshot().ready);
    e.set_ff(BinaryStatus::downloading());
    assert!(!e.snapshot().ready);
    e.set_ff(BinaryStatus::ready("2".to_string()));
    let s = e.snapshot();
    assert!(s.ready);
    assert_eq!((s.yt_dlp.version.as_deref(), s.ffmpeg.version.as_deref()), (Some("1"), Some("2")));
    e.set_yt(BinaryStatus::broken("gone".to_string()));
    let s = e.snapshot();
    assert!(!s.ready);
    assert_eq!(s.yt_dlp.status, "error");
    assert_eq!(s.yt_dlp.error.as_deref(), Some("gone"));
}

#[test]
fn binaries_are_named_by_platform() {
    assert_eq!(exe_name(Platform::Windows, "ffmpeg"), "ffmpeg.exe");
    assert_eq!(exe_name(Platform::MacOs, "ffmpeg"), "ffmpeg");
    assert_eq!(yt_dlp_filename(Platform::Windows), "yt-dlp.exe");
    assert_eq!(yt_dlp_filename(Platform::Other), "yt-dlp");
    let e = engine(Platform::Windows);
    let p = e.yt_dlp_path();
    assert_eq!((p.dir.as_str(), p.name.as_str()), ("/bin", "yt-dlp.exe"));
    assert_eq!(e.bundled_ffmpeg().name, "ffmpeg.exe");
    assert_eq!(e.bundled_ffprobe().name, "ffprobe.exe");
}

#[test]
fn kept_converters_are_preferred() {
    let e = engine(Platform::Other);
    match e.ffmpeg_exe(true) {
        Program::At(p) => assert_eq!((p.dir.as_str(), p.name.as_str()), ("/bin", "ffmpeg")),
        Program::Named(_) => panic!("not kept"),
    }
    match e.ffmpeg_exe(false) {
        Program::Named(n) => assert_eq!(n, "ffmpeg"),
        Program::At(_) => panic!("kept"),
    }
    assert_eq!(e.ffmpeg_location(true).as_deref(), Some("/bin"));
    assert_eq!(e.ffmpeg_location(false), None);
}

#[test]
fn preparing_happens_once_at_a_time() {
    let mut e = engine(Platform::Other);
    assert!(e.prepare());
    assert!(!e.prepare());
    e.prepared();
    assert!(e.prepare());
}

#[test]
fn versions_are_first_lines() {
    let ran = |success, stdout: &[u8]| Some(Ran { success, stdout: stdout.to_vec() });
    assert_eq!(run_version(&ran(true, b" 2024.05.01 \nmore\n")).as_deref(), Some("2024.05.01"));
    assert_eq!(run_version(&ran(true, b"\nmore")).as_deref(), Some(""));
    assert_eq!(run_version(&ran(true, b"v\xff")).as_deref(), Some("v\u{fffd}"));
    assert_eq!(run_version(&ran(true, b"")), None);
    assert_eq!(run_version(&ran(false, b"1")), None);
    assert_eq!(run_version(&None), None);
    assert_eq!(version_in(true, "ffmpeg version 7\r\nbuilt"), Some("ffmpeg version 7".to_string()));
}

#[test]
fn tools_come_from_their_releases() {
    let base = "https://github.com/yt-dlp/yt-dlp/releases/latest/download/";
    for (platform, asset) in [
        (Platform::Windows, "yt-dlp.exe"),
        (Platform::MacOs, "yt-dlp_macos"),
        (Platform::Other, "yt-dlp"),
    ] {
        let (url, name) = yt_dlp_source(platform);
        assert_eq!(url, format!("{base}{asset}"));
        assert_eq!(name, asset);
    }
}
