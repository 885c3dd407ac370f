use siphon::settings::{
    base_dir, default_accent, default_base_dir, default_download_mode, default_shortcut,
    default_theme, downloads_dir, downloads_dir_in, normalize_accent_color, type_dir, AppData,
    Location, SettingsState, SystemDirs,
};

fn dirs() -> SystemDirs {
    SystemDirs {
        downloads: Some("/d".to_string()),
        video: Some("/v".to_string()),
        audio: None,
    }
}

fn no_dirs() -> SystemDirs {
    SystemDirs { downloads: None, video: None, audio: None }
}

fn text(location: Location) -> String {
    match location {
        Location::Whole(path) => path,
        Location::Inside(p) => format!("{}+{}", p.dir, p.name),
    }
}

#[test]
fn defaults_hold_until_something_is_set() {
    let s = SettingsState::load(None);
    assert_eq!(s.data.theme, default_theme());
    assert_eq!(s.data.theme, "dark");
    assert_eq!(s.data.accent_color, default_accent());
    assert_eq!(s.data.accent_color, "#4FB286");
    assert_eq!(s.data.shortcut, default_shortcut());
    assert_eq!(s.data.shortcut, "Alt+S");
    assert_eq!(s.data.download_mode, default_download_mode());
    assert_eq!(s.data.download_mode, "single");
    assert_eq!(s.data.download_dir, "");
    let mut kept = AppData::default();
    kept.theme = "light".to_string();
    assert_eq!(SettingsState::load(Some(kept)).data.theme, "light");
}

#[test]
fn accents_are_colours() {
    assert_eq!(normalize_accent_color(" #a1b2c3 "), "#A1B2C3");
    assert_eq!(normalize_accent_color("A1B2C3"), "#A1B2C3");
    for bad in ["", "#", "#12345", "#1234567", "##12345", "12345g", "\u{e9}\u{e9}\u{e9}", "red"] {
        assert_eq!(normalize_accent_color(bad), "#4FB286", "{bad}");
    }
    let once = normalize_accent_color("abcdef");
    assert_eq!(normalize_accent_color(&once), once);
}

#[test]
fn folders_follow_from_what_is_set() {
    assert_eq!(text(base_dir("", &dirs())), "/d+Siphon");
    assert_eq!(text(base_dir("  ", &no_dirs())), "Siphon");
    assert_eq!(text(base_dir(" /mine ", &dirs())), " /mine ");
    assert_eq!(text(default_base_dir("/mine")), "/mine");
    let fallback = || Location::Whole("/f".to_string());
    assert_eq!(text(type_dir("mp4", &dirs(), fallback())), "/v+Siphon");
    assert_eq!(text(type_dir("mp3", &dirs(), fallback())), "/f");
    assert_eq!(text(type_dir("wav", &dirs(), fallback())), "/f");
}

#[test]
fn downloads_go_by_mode() {
    let mut s = SettingsState::load(None);
    assert_eq!(text(s.target_dir_in("mp4", &dirs())), "/d+Siphon");
    s.set_download_mode("byType");
    assert_eq!(s.data.download_mode, "byType");
    assert_eq!(text(s.target_dir_in("mp4", &dirs())), "/v+Siphon");
    assert_eq!(text(s.target_dir_in("mp3", &dirs())), "/d+Siphon");
    s.set_download_mode("anything");
    assert_eq!(s.data.download_mode, "single");
    s.set_download_mode("byType");
    s.pick_download_dir("/picked".to_string());
    assert_eq!(s.data.download_mode, "single");
    for preset in ["mp4", "mp3", "wav"] {
        assert_eq!(text(s.target_dir(preset)), "/picked");
    }
}

#[test]
fn snapshots_show_all() {
    let mut s = SettingsState::load(None);
    assert_eq!(s.set_theme("light".to_string()), "light");
    s.set_appearance("#abcdef");
    s.set_shortcut("Ctrl+D".to_string());
    let shown = s.snapshot_in(&dirs());
    assert_eq!((shown.theme.as_str(), shown.accent_color.as_str()), ("light", "#ABCDEF"));
    assert_eq!((shown.shortcut.as_str(), shown.download_mode.as_str()), ("Ctrl+D", "single"));
    assert_eq!(text(shown.download_dir), "/d+Siphon");
    assert_eq!(text(shown.video_dir), "/v+Siphon");
    assert_eq!(text(shown.audio_dir), "/d+Siphon");
    s.pick_download_dir("/picked".to_string());
    assert_eq!(text(s.snapshot().download_dir), "/picked");
}

#[test]
fn the_old_default_shortcut_is_replaced() {
    let mut s = SettingsState::load(None);
    s.set_shortcut("CommandOrControl+Shift+S".to_string());
    s.migrate_shortcut();
    assert_eq!(s.data.shortcut, "Alt+S");
    s.set_shortcut("Ctrl+D".to_string());
    s.migrate_shortcut();
    assert_eq!(s.data.shortcut, "Ctrl+D");
}

#[test]
fn downloads_are_kept_with_the_user_or_the_program() {
    let p = downloads_dir_in("/data", &dirs());
    assert_eq!((p.dir.as_str(), p.name.as_str()), ("/d", "Siphon"));
    let p = downloads_dir_in("/data", &no_dirs());
    assert_eq!((p.dir.as_str(), p.name.as_str()), ("/data", "downloads"));
    let p = downloads_dir("/data");
    match dirs::download_dir() {
        Some(dir) => assert_eq!((p.dir, p.name.as_str()), (dir.to_string_lossy().into(), "Siphon")),
        None => assert_eq!((p.dir.as_str(), p.name.as_str()), ("/data", "downloads")),
    }
}
