use siphon::checksum::{
    compare_digests, download_text, expected_sha_for, sha256_hex, verify_archive, verify_asset,
    verify_sha256,
};

const ABC: &str = "ba7816bf8f01cfea414140de5dae2223b00361a396177a9cb410ff61f20015ad";
const EMPTY: &str = "e3b0c44298fc1c149afbf4c8996fb92427ae41e4649b934ca495991b7852b855";

#[test]
fn digests_are_those_of_sha256() {
    assert_eq!(sha256_hex(b"abc"), ABC);
    assert_eq!(sha256_hex(b""), EMPTY);
}

#[test]
fn matching_checksums_pass_in_any_case() {
    assert_eq!(verify_sha256(b"abc", ABC), Ok(()));
    assert_eq!(verify_sha256(b"abc", &format!("  {}\n", ABC.to_uppercase())), Ok(()));
}

#[test]
fn other_checksums_do_not_pass() {
    assert_eq!(
        verify_sha256(b"abc", EMPTY).unwrap_err(),
        format!("Integrity check failed (expected {EMPTY}, got {ABC}); download discarded.")
    );
    for bad in ["", "abc", &ABC[1..], &format!("{ABC}0")] {
        assert_eq!(
            verify_sha256(b"abc", bad).unwrap_err(),
            "Checksum was missing or malformed; download discarded."
        );
    }
    assert_eq!(compare_digests(ABC, ABC), Ok(()));
    assert!(compare_digests(EMPTY, ABC).is_err());
    // Sixty-four bytes, but not sixty-four characters.
    let wide = "\u{e9}".repeat(32);
    assert!(compare_digests(&wide, ABC).unwrap_err().starts_with("Integrity check failed"));
}

#[test]
fn lists_give_checksums_by_name() {
    let sums = "aaa  other\r\nBBB *yt-dlp\n\nccc yt-dlp.exe extra\nddd yt-dlp\nlonely\n";
    assert_eq!(expected_sha_for(sums, "yt-dlp").as_deref(), Some("bbb"));
    assert_eq!(expected_sha_for(sums, "yt-dlp.exe").as_deref(), Some("ccc"));
    assert_eq!(expected_sha_for(sums, "other").as_deref(), Some("aaa"));
    assert_eq!(expected_sha_for(sums, "yt-dlp_macos"), None);
    assert_eq!(expected_sha_for("", "yt-dlp"), None);
}

#[test]
fn lists_have_to_be_text() {
    assert_eq!(download_text(Ok(b"abc".to_vec())), Ok("abc".to_string()));
    assert_eq!(
        download_text(Ok(vec![0xff])).unwrap_err(),
        "Checksum file was not valid UTF-8."
    );
    assert_eq!(download_text(Err("offline".to_string())).unwrap_err(), "offline");
}

#[test]
fn assets_are_verified_against_the_list() {
    let sums = |text: String| Ok(text.into_bytes());
    assert_eq!(verify_asset(b"abc", sums(format!("{ABC}  yt-dlp\n")), "yt-dlp"), Ok(()));
    assert!(verify_asset(b"abd", sums(format!("{ABC}  yt-dlp\n")), "yt-dlp").is_err());
    let unavailable = "Could not verify yt-dlp: checksums were unavailable.";
    for list in [sums(format!("{ABC}  other\n")), Ok(vec![0xff]), Err("offline".to_string())] {
        assert_eq!(verify_asset(b"abc", list, "yt-dlp").unwrap_err(), unavailable);
    }
}

#[test]
fn archives_are_verified_against_the_first_word() {
    let file = |text: String| Ok(text.into_bytes());
    assert_eq!(verify_archive(b"abc", file(format!(" {ABC} name.zip\n"))), Ok(()));
    assert!(verify_archive(b"abc", file(EMPTY.to_string())).is_err());
    assert_eq!(
        verify_archive(b"abc", file(" \n".to_string())).unwrap_err(),
        "Checksum was missing or malformed; download discarded."
    );
    assert_eq!(verify_archive(b"abc", Err("offline".to_string())).unwrap_err(), "offline");
}

#[test]
fn one_checksum_passes_one_content() {
    assert!(verify_sha256(b"abc", ABC).is_ok());
    for other in [&b"abd"[..], b"ab", b"", b"abcabc"] {
        assert!(verify_sha256(other, ABC).is_err());
    }
}
