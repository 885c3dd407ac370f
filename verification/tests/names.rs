use siphon::names::{
    basename, candidate_name, has_tag, looks_like_intermediate, path_extension, path_parts,
    sanitize_file_name, split_name, unique_path, FilePath,
};

fn free_in(taken: &Vec<String>, name: &str) -> String {
    let exists_at = |p: &FilePath| taken.contains(&p.name);
    let found = unique_path("music", name, &exists_at).unwrap();
    assert_eq!(found.dir, "music");
    found.name
}

#[test]
fn unique_path_avoids_overwrite() {
    let mut taken: Vec<String> = Vec::new();

    // Free name is returned unchanged.
    let p0 = free_in(&taken, "song.mp3");
    assert_eq!(p0, "song.mp3");
    taken.push(p0);

    // Taken names get ` (1)`, ` (2)`, … before the extension.
    let p1 = free_in(&taken, "song.mp3");
    assert_eq!(p1, "song (1).mp3");
    taken.push(p1);
    assert_eq!(free_in(&taken, "song.mp3"), "song (2).mp3");

    // Names with no extension still work.
    taken.push("README".to_string());
    assert_eq!(free_in(&taken, "README"), "README (1)");

    // Multi-dot names keep the full stem.
    taken.push("My.Video.mp4".to_string());
    assert_eq!(free_in(&taken, "My.Video.mp4"), "My.Video (1).mp4");
}

#[test]
fn file_names_lose_what_paths_need() {
    assert_eq!(sanitize_file_name("a/b\\c:d*e?f\"g<h>i|j"), "a b c d e f g h i j");
    assert_eq!(sanitize_file_name("  tab\there \n"), "tab here");
    assert_eq!(sanitize_file_name("\u{1}\u{1f}"), "download");
    assert_eq!(sanitize_file_name(""), "download");
    let long: String = "x".repeat(300);
    assert_eq!(sanitize_file_name(&long), "x".repeat(180));
    let wide: String = "\u{e9}".repeat(200);
    assert_eq!(sanitize_file_name(&wide).chars().count(), 180);
}

#[test]
fn base_names_are_last_components() {
    assert_eq!(basename("/home/me/song.mp3"), "song.mp3");
    assert_eq!(basename("song.mp3"), "song.mp3");
    assert_eq!(basename("/home/me/"), "me");
    assert_eq!(basename("/"), "/");
    assert_eq!(basename("a/.."), "a/..");
}

#[test]
fn paths_are_read_as_the_system_reads_them() {
    let on_windows = std::path::MAIN_SEPARATOR == '\\';
    let whole = "C:\\Users\\me\\song.mp3";
    assert_eq!(basename(whole), if on_windows { "song.mp3" } else { whole });
    assert_eq!(basename("C:song.mp3"), if on_windows { "song.mp3" } else { "C:song.mp3" });
    assert_eq!(basename("C:/music/song.mp3"), "song.mp3");
    assert_eq!(path_extension(whole).as_deref(), Some("mp3"));
}

#[test]
fn network_paths_end_in_their_file_name() {
    let on_windows = std::path::MAIN_SEPARATOR == '\\';
    let far = "\\\\server\\share\\song.mp3";
    assert_eq!(basename(far), if on_windows { "song.mp3" } else { far });
    assert_eq!(path_extension(far).as_deref(), Some("mp3"));
    assert_eq!(basename("//server/share/song.mp3"), "song.mp3");
    let device = "\\\\?\\C:\\song.mp3";
    assert_eq!(basename(device), if on_windows { "song.mp3" } else { device });
}

#[test]
fn plain_names_may_hold_colons() {
    assert_eq!(basename("File:Song.ogg"), "File:Song.ogg");
    assert_eq!(path_extension("File:Song.OGG").as_deref(), Some("ogg"));
    let taken = vec!["clip:one.mp4".to_string(), "clip:one (1).mp4".to_string()];
    assert_eq!(free_in(&taken, "clip:one.mp4"), "clip:one (2).mp4");
}

#[test]
fn cleaned_names_stay() {
    for name in ["a/b  c", "", "  x ", "\u{1}", &"ab ".repeat(100), &"word".repeat(90)] {
        let once = sanitize_file_name(name);
        if !once.ends_with(' ') {
            assert_eq!(sanitize_file_name(&once), once);
        }
    }
    // Cut off after a blank, a name loses the blank when it is cleaned again.
    let cut = sanitize_file_name(&"ab ".repeat(100));
    assert!(cut.ends_with(' '));
    assert_eq!(sanitize_file_name(&cut), cut.trim_end());
}

#[test]
fn names_split_at_the_last_dot() {
    let p = split_name("My.Video.mp4");
    assert_eq!((p.stem.as_str(), p.extension.as_deref()), ("My.Video", Some("mp4")));
    let p = split_name(".bashrc");
    assert_eq!((p.stem.as_str(), p.extension.as_deref()), (".bashrc", None));
    let p = split_name("end.");
    assert_eq!((p.stem.as_str(), p.extension.as_deref()), ("end", Some("")));
    let p = path_parts("dir/a.tar.gz");
    assert_eq!((p.stem.as_str(), p.extension.as_deref()), ("a.tar", Some("gz")));
    let p = path_parts("..");
    assert_eq!((p.stem.as_str(), p.extension.as_deref()), ("..", None));
}

#[test]
fn names_split_as_paths_do() {
    for name in ["a", "a.b", ".a", "a.b.c", "a.", "..a", "x y.MP3", "\u{e9}.\u{e9}"] {
        let path = std::path::Path::new(name);
        let p = path_parts(name);
        assert_eq!(Some(p.stem.as_str()), path.file_stem().and_then(|s| s.to_str()), "{name}");
        assert_eq!(p.extension.as_deref(), path.extension().and_then(|s| s.to_str()), "{name}");
    }
}

#[test]
fn extensions_are_in_lower_case() {
    assert_eq!(path_extension("Clip.MP4"), Some("mp4".to_string()));
    assert_eq!(path_extension("Clip"), None);
    assert_eq!(path_extension(".."), None);
}

#[test]
fn numbered_candidates_differ() {
    let parts = split_name("a.b");
    assert_eq!(candidate_name("a.b", &parts, 0), "a.b");
    assert_eq!(candidate_name("a.b", &parts, 1), "a (1).b");
    assert_eq!(candidate_name("a.b", &parts, 12), "a (12).b");
}

#[test]
fn intermediate_streams_are_known() {
    assert!(looks_like_intermediate("video.f137.mp4"));
    assert!(looks_like_intermediate("VIDEO.F1.webm"));
    assert!(looks_like_intermediate("a.f.f2.mp4"));
    assert!(!looks_like_intermediate("video.f137"));
    assert!(!looks_like_intermediate("video.f.mp4"));
    assert!(!looks_like_intermediate("video.fx1.mp4"));
    assert!(!looks_like_intermediate("plain.mp4"));
    assert!(has_tag("x.f12.y"));
    assert!(!has_tag("X.F12.Y"));
}
