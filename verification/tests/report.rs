use siphon::report::{
    clean_field, conversion_error, converter_ready, friendly_error, http_status_error,
    normalize_error, run_ffmpeg, source_status_error,
};

#[test]
fn known_errors_are_explained() {
    assert_eq!(
        normalize_error("ERROR: this is DRM  protected"),
        "This source is DRM-protected, so it can't be downloaded."
    );
    let cookies = "This source is blocking the request without browser cookies. Try enabling browser cookies in the settings to download this file.";
    assert_eq!(normalize_error("Sign in to confirm you're Not A\nBot"), cookies);
    assert_eq!(normalize_error("use --cookies-from-browser"), cookies);
    assert_eq!(
        normalize_error("This   video is\tunavailable."),
        "This video is currently unavailable."
    );
    assert_eq!(normalize_error("  \n "), "Download failed.");
    assert_eq!(normalize_error(" some \n other  error "), "some other error");
    assert_eq!(friendly_error("A Drm", "x"), "A Drm");
    assert_eq!(friendly_error("", ""), "Download failed.");
}

#[test]
fn messages_stay() {
    for text in ["DRM", "not a bot", "cookies-from-browser", "this video is unavailable", "", " a  b "] {
        let once = normalize_error(text);
        assert_eq!(normalize_error(&once), once);
    }
}

#[test]
fn blank_fields_are_nothing() {
    assert_eq!(clean_field(None), None);
    assert_eq!(clean_field(Some("  ")), None);
    assert_eq!(clean_field(Some(" NA ")), None);
    assert_eq!(clean_field(Some("nA")), None);
    assert_eq!(clean_field(Some(" 12% ")), Some("12%".to_string()));
    assert_eq!(clean_field(Some("NAN")), Some("NAN".to_string()));
}

#[test]
fn statuses_are_told() {
    assert_eq!(
        source_status_error(404, &Some("Not Found".to_string())),
        "Source returned 404 Not Found."
    );
    assert_eq!(source_status_error(599, &None), "Source returned 599 error.");
    assert_eq!(http_status_error(503), "Download failed: HTTP 503");
}

#[test]
fn conversions_fail_with_what_was_written() {
    assert_eq!(conversion_error(b" \n"), "ffmpeg conversion failed.");
    assert_eq!(conversion_error(b" bad codec\n"), " bad codec\n");
    assert_eq!(conversion_error(b"\xff"), "\u{fffd}");
    assert_eq!(run_ffmpeg(true, b"warning"), Ok(()));
    assert_eq!(run_ffmpeg(false, b"no"), Err("no".to_string()));
    assert_eq!(run_ffmpeg(false, b""), Err("ffmpeg conversion failed.".to_string()));
}

#[test]
fn the_converter_has_to_be_ready() {
    assert_eq!(converter_ready("ready"), Ok(()));
    for status in ["pending", "downloading", "error"] {
        assert_eq!(
            converter_ready(status).unwrap_err(),
            "ffmpeg is not available yet. Please wait for the engine to finish preparing."
        );
    }
}
