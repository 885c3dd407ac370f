use siphon::launch::{has_deep_link, starts_hidden};

fn args(list: &[&str]) -> Vec<String> {
    list.iter().map(|s| s.to_string()).collect()
}

#[test]
fn links_of_the_program_are_found() {
    assert!(has_deep_link(&args(&["siphon", "siphon://open"])));
    assert!(!has_deep_link(&args(&["siphon", "https://siphon://"])));
    assert!(!has_deep_link(&args(&["siphon", "SIPHON://x"])));
    assert!(!has_deep_link(&args(&[])));
}

#[test]
fn autostarts_are_hidden() {
    assert!(starts_hidden(&args(&["siphon", "--autostart"])));
    assert!(!starts_hidden(&args(&["siphon", "--autostarted"])));
    assert!(!starts_hidden(&args(&["siphon"])));
}
