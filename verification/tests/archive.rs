use siphon::archive::{
    binary_path, check_complete, extract_single_binary, fetch_ffmpeg_windows, wanted_binary, Binary,
};
use siphon::engine::{EngineState, Platform};
use siphon::names::FilePath;
use std::io::Write;
use zip::write::SimpleFileOptions;

/// An archive with the given entries; those without contents are folders.
fn archive(entries: &[(&str, Option<&[u8]>)]) -> Vec<u8> {
    let mut writer = zip::ZipWriter::new(std::io::Cursor::new(Vec::new()));
    for (name, contents) in entries {
        match contents {
            Some(bytes) => {
                writer.start_file(*name, SimpleFileOptions::default()).unwrap();
                writer.write_all(bytes).unwrap();
            }
            None => writer.add_directory(*name, SimpleFileOptions::default()).unwrap(),
        }
    }
    writer.finish().unwrap().into_inner()
}

fn engine() -> EngineState {
    EngineState::new("/bin".to_string(), String::new(), Platform::Windows)
}

fn path() -> FilePath {
    FilePath { dir: "/bin".to_string(), name: "ffmpeg".to_string() }
}

#[test]
fn both_binaries_are_taken_out() {
    let bytes = archive(&[
        ("build/", None),
        ("build/README.txt", Some(b"read me")),
        ("build/BIN/FFmpeg.exe", Some(b"converter")),
        ("build/bin/ffplay.exe", Some(b"player")),
        ("build/bin/ffprobe.exe", Some(b"companion")),
    ]);
    let e = fetch_ffmpeg_windows(&bytes, &engine());
    assert_eq!(e.outcome, Ok(()));
    assert_eq!(e.writes.len(), 2);
    assert_eq!(e.writes[0].path.name, "ffmpeg.exe");
    assert_eq!(e.writes[0].bytes, b"converter");
    assert_eq!(e.writes[1].path.name, "ffprobe.exe");
    assert_eq!(e.writes[1].path.dir, "/bin");
    assert_eq!(e.writes[1].bytes, b"companion");
}

#[test]
fn missing_binaries_are_an_error() {
    let bytes = archive(&[("bin/ffmpeg.exe", Some(b"converter"))]);
    let e = fetch_ffmpeg_windows(&bytes, &engine());
    assert_eq!(e.writes.len(), 1);
    assert_eq!(
        e.outcome.unwrap_err(),
        "Could not extract ffmpeg/ffprobe from the downloaded archive."
    );
    let e = fetch_ffmpeg_windows(b"no archive", &engine());
    assert!(e.writes.is_empty());
    assert!(e.outcome.is_err());
}

#[test]
fn damaged_contents_are_an_error() {
    let contents: Vec<u8> = (0..200u8).collect();
    let mut bytes = archive(&[("only", Some(&contents))]);
    // Spoils the contents, which follow the local header and the name.
    bytes[60] ^= 0x55;
    let e = extract_single_binary(&bytes, path());
    assert_eq!(e.writes.len(), 1);
    assert!(e.outcome.is_err());
}

#[test]
fn the_first_regular_file_is_taken_out() {
    let bytes =
        archive(&[("folder/", None), ("a", Some(b"first")), ("b", Some(b"second"))]);
    let e = extract_single_binary(&bytes, path());
    assert_eq!(e.outcome, Ok(()));
    assert_eq!(e.writes.len(), 1);
    assert_eq!(e.writes[0].path.name, "ffmpeg");
    assert_eq!(e.writes[0].bytes, b"first");
}

#[test]
fn archives_without_files_are_an_error() {
    let e = extract_single_binary(&archive(&[("folder/", None)]), path());
    assert!(e.writes.is_empty());
    assert_eq!(e.outcome.unwrap_err(), "Downloaded archive contained no file.");
    assert!(extract_single_binary(b"", path()).outcome.is_err());
}

#[test]
fn binaries_are_known_by_their_place() {
    assert!(wanted_binary("x/bin/ffmpeg.exe") == Some(Binary::Ffmpeg));
    assert!(wanted_binary("bin/ffprobe.exe") == Some(Binary::Ffprobe));
    assert!(wanted_binary("bin/ffmpeg").is_none());
    assert!(wanted_binary("sbin\\ffmpeg.exe").is_none());
    assert_eq!(binary_path(&engine(), Binary::Ffprobe).name, "ffprobe.exe");
    assert_eq!(check_complete(true, true), Ok(()));
    assert!(check_complete(true, false).is_err());
    assert!(check_complete(false, true).is_err());
}
