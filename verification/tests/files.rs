use siphon::files::{
    find_output, list_files, newest_mtime, resolve_completed_output, FileEntry,
};

fn file(name: &str, modified_ms: u128) -> FileEntry {
    FileEntry { name: name.to_string(), size: 1, path: format!("dir/{name}"), modified_ms }
}

fn names(list: &Vec<FileEntry>) -> Vec<String> {
    list.iter().map(|f| f.name.clone()).collect()
}

#[test]
fn whole_files_are_listed_newest_first() {
    let list = list_files(vec![
        file("a", 1),
        file("b.part", 9),
        file("c", 3),
        file("d", 1),
        file("e", 2),
    ]);
    assert_eq!(names(&list), ["c", "e", "a", "d"]);
    assert_eq!(list[0].path, "dir/c");
}

#[test]
fn the_latest_time_counts() {
    assert_eq!(newest_mtime(&vec![]), None);
    assert_eq!(newest_mtime(&vec![None, None]), None);
    assert_eq!(newest_mtime(&vec![Some(3), None, Some(7), Some(5)]), Some(7));
}

#[test]
fn a_reported_file_is_taken() {
    let none = Vec::new();
    let r = resolve_completed_output(Some("/tmp/x/My song.mp3"), true, &none, "mp3", 0);
    assert_eq!(r, Ok("My song.mp3".to_string()));
}

#[test]
fn the_newest_output_is_found() {
    let list = list_files(vec![
        file("old.mp4", 100),
        file("video.f137.mp4", 20_000),
        file("Video.MP4", 19_000),
        file("audio.m4a", 21_000),
    ]);
    let r = resolve_completed_output(Some("/gone"), false, &list, "mp4", 20_000);
    assert_eq!(r, Ok("Video.MP4".to_string()));
    assert_eq!(find_output(&list, "M4A", 20_000), Ok("audio.m4a".to_string()));
}

#[test]
fn files_may_be_slightly_older_than_the_start() {
    let list = list_files(vec![file("a.mp3", 8_000)]);
    assert!(find_output(&list, "mp3", 10_000).is_ok());
    assert!(find_output(&list, "mp3", 10_001).is_err());
    assert!(find_output(&list, "mp3", 1_000).is_ok());
}

#[test]
fn missing_outputs_are_explained() {
    let left = list_files(vec![file("video.f137.mp4", 20_000)]);
    assert_eq!(
        resolve_completed_output(None, false, &left, "mp4", 20_000).unwrap_err(),
        "The video was downloaded, but it was not merged correctly. ffmpeg or ffprobe was not resolved correctly."
    );
    assert_eq!(
        resolve_completed_output(None, true, &left, "mp3", 20_000).unwrap_err(),
        "The audio was downloaded, but it was not converted correctly. ffmpeg or ffprobe was not resolved correctly."
    );
    assert_eq!(
        resolve_completed_output(None, false, &left, "mp4", 30_000).unwrap_err(),
        "No final output file was found."
    );
}
