use siphon::checksum::sha256_hex;
use siphon::engine::{EngineState, Platform, Program, Ran};
use siphon::install::{
    download_bytes, FfAction, FfEvent, FfInstall, Reply, YtAction, YtEvent, YtInstall,
};
use std::io::Write;

fn engine(platform: Platform) -> EngineState {
    EngineState::new("/bin".to_string(), "/downloads".to_string(), platform)
}

fn body(bytes: &[u8]) -> Reply {
    Reply::Body(Ok(bytes.to_vec()))
}

fn ran(stdout: &str) -> Option<Ran> {
    Some(Ran { success: true, stdout: stdout.as_bytes().to_vec() })
}

fn archive(entries: &[(&str, &[u8])]) -> Vec<u8> {
    let mut writer = zip::ZipWriter::new(std::io::Cursor::new(Vec::new()));
    for (name, bytes) in entries {
        writer.start_file(*name, zip::write::SimpleFileOptions::default()).unwrap();
        writer.write_all(bytes).unwrap();
    }
    writer.finish().unwrap().into_inner()
}

fn yt_url(action: Option<YtAction>) -> String {
    match action {
        Some(YtAction::Fetch(url)) => url,
        _ => panic!("nothing to get"),
    }
}

fn ff_url(action: Option<FfAction>) -> String {
    match action {
        Some(FfAction::Fetch(url)) => url,
        _ => panic!("nothing to get"),
    }
}

/// The action runs the tool's file for its version.
fn is_tool_run(action: Option<YtAction>) {
    match action {
        Some(YtAction::Try { program: Program::At(path), arg }) => {
            assert_eq!((path.dir.as_str(), path.name.as_str()), ("/bin", "yt-dlp"));
            assert_eq!(arg, "--version");
        }
        _ => panic!("not run"),
    }
}

/// The name of the file that an action looks for.
fn sought(action: Option<FfAction>) -> String {
    match action {
        Some(FfAction::Look(path)) => path.name,
        _ => panic!("not looked for"),
    }
}

/// The name of the system's program that an action runs for its version.
fn named(action: Option<FfAction>) -> String {
    match action {
        Some(FfAction::Try { program: Program::Named(name), arg }) => {
            assert_eq!(arg, "-version");
            name
        }
        _ => panic!("not run"),
    }
}

/// The name of the file that an action runs for its version.
fn kept(action: Option<FfAction>) -> String {
    match action {
        Some(FfAction::Try { program: Program::At(path), arg }) => {
            assert_eq!((path.dir.as_str(), arg.as_str()), ("/bin", "-version"));
            path.name
        }
        _ => panic!("not run"),
    }
}

/// Getting the tool, up to its checksums.
fn checking(e: &mut EngineState, bytes: &[u8]) -> YtInstall {
    let mut install = YtInstall::new();
    match install.ensure_yt_dlp(e, YtEvent::Begin) {
        Some(YtAction::Look(path)) => assert_eq!(path.name, "yt-dlp"),
        _ => panic!("not looked for"),
    }
    let first = install.ensure_yt_dlp(e, YtEvent::Looked(false));
    assert!(matches!(first, Some(YtAction::Announce)));
    assert_eq!(e.yt_dlp.status, "downloading");
    assert_eq!(
        yt_url(install.ensure_yt_dlp(e, YtEvent::Announced)),
        "https://github.com/yt-dlp/yt-dlp/releases/latest/download/yt-dlp"
    );
    assert_eq!(
        yt_url(install.ensure_yt_dlp(e, YtEvent::Fetched(body(bytes)))),
        "https://github.com/yt-dlp/yt-dlp/releases/latest/download/SHA2-256SUMS"
    );
    install
}

#[test]
fn replies_bring_bytes_or_errors() {
    assert_eq!(download_bytes(body(b"x")), Ok(b"x".to_vec()));
    assert_eq!(download_bytes(Reply::NoClient("tls".to_string())).unwrap_err(), "tls");
    assert_eq!(
        download_bytes(Reply::NoAnswer("dns".to_string())).unwrap_err(),
        "Download failed: dns"
    );
    assert_eq!(download_bytes(Reply::Refused(404)).unwrap_err(), "Download failed: HTTP 404");
    assert_eq!(download_bytes(Reply::Body(Err("cut".to_string()))).unwrap_err(), "cut");
}

#[test]
fn a_tool_that_is_there_is_only_run() {
    let mut e = engine(Platform::Other);
    let mut install = YtInstall::new();
    install.ensure_yt_dlp(&mut e, YtEvent::Begin);
    is_tool_run(install.ensure_yt_dlp(&mut e, YtEvent::Looked(true)));
    assert_eq!(e.yt_dlp.status, "pending");
    let last = install.ensure_yt_dlp(&mut e, YtEvent::Tried(ran("2024.01.01\n")));
    assert!(matches!(last, Some(YtAction::Stop)));
    assert_eq!(e.yt_dlp.status, "ready");
    assert_eq!(e.yt_dlp.version.as_deref(), Some("2024.01.01"));
}

#[test]
fn a_verified_tool_is_written() {
    let mut e = engine(Platform::Other);
    let mut install = checking(&mut e, b"binary");
    let sums = format!("{}  yt-dlp\n", sha256_hex(b"binary").to_uppercase());
    match install.ensure_yt_dlp(&mut e, YtEvent::Fetched(body(sums.as_bytes()))) {
        Some(YtAction::Write(write)) => {
            assert_eq!(write.bytes, b"binary");
            assert_eq!((write.path.dir.as_str(), write.path.name.as_str()), ("/bin", "yt-dlp"));
        }
        _ => panic!("not written"),
    }
    is_tool_run(install.ensure_yt_dlp(&mut e, YtEvent::Wrote(Ok(()))));
    install.ensure_yt_dlp(&mut e, YtEvent::Tried(None));
    assert_eq!(e.yt_dlp.status, "error");
    assert_eq!(e.yt_dlp.error.as_deref(), Some("yt-dlp downloaded but failed to run."));
    assert_eq!(e.ffmpeg.status, "pending");
}

#[test]
fn an_unverified_tool_is_never_written() {
    let other = format!("{}  yt-dlp\n", sha256_hex(b"other"));
    for reply in [body(other.as_bytes()), body(b""), Reply::Refused(500)] {
        let mut e = engine(Platform::Other);
        let mut install = checking(&mut e, b"binary");
        let last = install.ensure_yt_dlp(&mut e, YtEvent::Fetched(reply));
        assert!(matches!(last, Some(YtAction::Stop)));
        assert_eq!(e.yt_dlp.status, "error");
        assert!(install.ensure_yt_dlp(&mut e, YtEvent::Wrote(Ok(()))).is_none());
    }
}

#[test]
fn a_tool_that_cannot_be_got_is_an_error() {
    let mut e = engine(Platform::Other);
    let mut install = YtInstall::new();
    install.ensure_yt_dlp(&mut e, YtEvent::Begin);
    install.ensure_yt_dlp(&mut e, YtEvent::Looked(false));
    install.ensure_yt_dlp(&mut e, YtEvent::Announced);
    let last = install.ensure_yt_dlp(&mut e, YtEvent::Fetched(Reply::Refused(503)));
    assert!(matches!(last, Some(YtAction::Stop)));
    assert_eq!(e.yt_dlp.error.as_deref(), Some("Download failed: HTTP 503"));

    let mut e = engine(Platform::Other);
    let mut install = checking(&mut e, b"binary");
    let sums = format!("{} *yt-dlp", sha256_hex(b"binary"));
    install.ensure_yt_dlp(&mut e, YtEvent::Fetched(body(sums.as_bytes())));
    install.ensure_yt_dlp(&mut e, YtEvent::Wrote(Err("read-only".to_string())));
    assert_eq!(e.yt_dlp.error.as_deref(), Some("read-only"));
}

/// Getting the converter, up to its announcement.
fn announced(e: &mut EngineState) -> FfInstall {
    let mut install = FfInstall::new();
    let begun = install.ensure_ffmpeg(e, FfEvent::Begin);
    assert!(sought(begun).starts_with("ffmpeg"));
    assert_eq!(named(install.ensure_ffmpeg(e, FfEvent::Looked(false))), "ffmpeg");
    let missing = install.ensure_ffmpeg(e, FfEvent::Tried(None));
    assert!(matches!(missing, Some(FfAction::Announce)));
    assert_eq!(e.ffmpeg.status, "downloading");
    install
}

#[test]
fn converters_that_are_there_are_only_run() {
    let mut e = engine(Platform::Other);
    let mut install = FfInstall::new();
    assert_eq!(sought(install.ensure_ffmpeg(&mut e, FfEvent::Begin)), "ffmpeg");
    assert_eq!(sought(install.ensure_ffmpeg(&mut e, FfEvent::Looked(true))), "ffprobe");
    assert_eq!(sought(install.ensure_ffmpeg(&mut e, FfEvent::Looked(true))), "ffmpeg");
    assert_eq!(kept(install.ensure_ffmpeg(&mut e, FfEvent::Looked(true))), "ffmpeg");
    install.ensure_ffmpeg(&mut e, FfEvent::Tried(None));
    assert_eq!(e.ffmpeg.error.as_deref(), Some("ffmpeg is present but failed to run."));

    let mut e = engine(Platform::Other);
    let mut install = FfInstall::new();
    install.ensure_ffmpeg(&mut e, FfEvent::Begin);
    install.ensure_ffmpeg(&mut e, FfEvent::Looked(true));
    assert_eq!(named(install.ensure_ffmpeg(&mut e, FfEvent::Looked(false))), "ffmpeg");
    assert_eq!(named(install.ensure_ffmpeg(&mut e, FfEvent::Tried(ran("ffmpeg 7")))), "ffprobe");
    assert_eq!(sought(install.ensure_ffmpeg(&mut e, FfEvent::Tried(ran("ffprobe 7")))), "ffmpeg");
    assert_eq!(named(install.ensure_ffmpeg(&mut e, FfEvent::Looked(false))), "ffmpeg");
    let last = install.ensure_ffmpeg(&mut e, FfEvent::Tried(ran("ffmpeg 7")));
    assert!(matches!(last, Some(FfAction::Stop)));
    assert_eq!(e.ffmpeg.version.as_deref(), Some("ffmpeg 7"));
    assert_eq!(e.yt_dlp.status, "pending");
}

#[test]
fn users_of_other_systems_install_the_converter() {
    let mut e = engine(Platform::Other);
    let mut install = announced(&mut e);
    let last = install.ensure_ffmpeg(&mut e, FfEvent::Announced);
    assert!(matches!(last, Some(FfAction::Stop)));
    assert_eq!(
        e.ffmpeg.error.as_deref(),
        Some("ffmpeg/ffprobe were not found. Please install them with your package manager (e.g. `sudo apt install ffmpeg`).")
    );
}

#[test]
fn the_windows_archive_is_verified_first() {
    let zip = archive(&[("b/bin/ffmpeg.exe", b"one"), ("b/bin/ffprobe.exe", b"two")]);
    let archive_url = "https://www.gyan.dev/ffmpeg/builds/ffmpeg-release-essentials.zip";

    let mut e = engine(Platform::Windows);
    let mut install = announced(&mut e);
    assert_eq!(ff_url(install.ensure_ffmpeg(&mut e, FfEvent::Announced)), archive_url);
    assert_eq!(
        ff_url(install.ensure_ffmpeg(&mut e, FfEvent::Fetched(body(&zip)))),
        format!("{archive_url}.sha256")
    );
    let sum = sha256_hex(&zip);
    match install.ensure_ffmpeg(&mut e, FfEvent::Fetched(body(sum.as_bytes()))) {
        Some(FfAction::Extract(writes)) => {
            assert_eq!(writes.len(), 2);
            assert_eq!(writes[0].path.name, "ffmpeg.exe");
            assert_eq!(writes[0].bytes, b"one");
        }
        _ => panic!("not extracted"),
    }
    assert_eq!(sought(install.ensure_ffmpeg(&mut e, FfEvent::Extracted(Ok(())))), "ffmpeg.exe");
    assert_eq!(kept(install.ensure_ffmpeg(&mut e, FfEvent::Looked(true))), "ffmpeg.exe");

    let mut e = engine(Platform::Windows);
    let mut install = announced(&mut e);
    install.ensure_ffmpeg(&mut e, FfEvent::Announced);
    install.ensure_ffmpeg(&mut e, FfEvent::Fetched(body(b"tampered")));
    let last = install.ensure_ffmpeg(&mut e, FfEvent::Fetched(body(sum.as_bytes())));
    assert!(matches!(last, Some(FfAction::Stop)));
    assert!(e.ffmpeg.error.unwrap().starts_with("Integrity check failed"));
}

#[test]
fn mac_binaries_come_one_by_one() {
    let mut e = engine(Platform::MacOs);
    let mut install = announced(&mut e);
    assert_eq!(
        ff_url(install.ensure_ffmpeg(&mut e, FfEvent::Announced)),
        "https://evermeet.cx/ffmpeg/getrelease/ffmpeg/zip"
    );
    let zip = archive(&[("ffmpeg", b"one")]);
    match install.ensure_ffmpeg(&mut e, FfEvent::Fetched(body(&zip))) {
        Some(FfAction::Extract(writes)) => assert_eq!(writes[0].path.name, "ffmpeg"),
        _ => panic!("not extracted"),
    }
    assert_eq!(
        ff_url(install.ensure_ffmpeg(&mut e, FfEvent::Extracted(Ok(())))),
        "https://evermeet.cx/ffmpeg/getrelease/ffprobe/zip"
    );
    let zip = archive(&[("anything", b"two")]);
    match install.ensure_ffmpeg(&mut e, FfEvent::Fetched(body(&zip))) {
        Some(FfAction::Extract(writes)) => {
            assert_eq!(writes[0].path.name, "ffprobe");
            assert_eq!(writes[0].bytes, b"two");
        }
        _ => panic!("not extracted"),
    }
    match install.ensure_ffmpeg(&mut e, FfEvent::Extracted(Ok(()))) {
        Some(FfAction::Mark(first, second)) => {
            assert_eq!((first.name.as_str(), second.name.as_str()), ("ffmpeg", "ffprobe"));
        }
        _ => panic!("not marked"),
    }
    assert_eq!(sought(install.ensure_ffmpeg(&mut e, FfEvent::Marked)), "ffmpeg");
    assert_eq!(kept(install.ensure_ffmpeg(&mut e, FfEvent::Looked(true))), "ffmpeg");
    install.ensure_ffmpeg(&mut e, FfEvent::Tried(ran("ffmpeg 7\n")));
    assert_eq!(e.ffmpeg.status, "ready");
}

#[test]
fn failed_extractions_are_errors() {
    let mut e = engine(Platform::MacOs);
    let mut install = announced(&mut e);
    install.ensure_ffmpeg(&mut e, FfEvent::Announced);
    match install.ensure_ffmpeg(&mut e, FfEvent::Fetched(body(b"no archive"))) {
        Some(FfAction::Extract(writes)) => assert!(writes.is_empty()),
        _ => panic!("not extracted"),
    }
    let last = install.ensure_ffmpeg(&mut e, FfEvent::Extracted(Ok(())));
    assert!(matches!(last, Some(FfAction::Stop)));
    assert_eq!(e.ffmpeg.status, "error");

    let mut e = engine(Platform::MacOs);
    let mut install = announced(&mut e);
    install.ensure_ffmpeg(&mut e, FfEvent::Announced);
    install.ensure_ffmpeg(&mut e, FfEvent::Fetched(body(&archive(&[("f", b"x")]))));
    install.ensure_ffmpeg(&mut e, FfEvent::Extracted(Err("disk full".to_string())));
    assert_eq!(e.ffmpeg.error.as_deref(), Some("disk full"));
}
