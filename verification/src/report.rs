//! What the user is told when something goes wrong, and what counts as told by a tool.

use crate::foreign::{self, lossy_text, lowercase, lowers_ascii, reads_utf8};
use crate::number::{decimal, decimal_text, is_number, lemma_decimal, value_of};
use crate::text::{
    ascii_lower, collapse, collapsed, collapsed_is_tidy, contains, has, is_blank, is_space, is_tidy,
    occurs_at, opt, same, step_outcome, tidy_text_stays, to_ascii_lower, to_chars, trim, trimmed,
    trimmed_is_between_blanks,
};
use vstd::prelude::*;
use vstd::utf8::is_ascii_chars;

verus! {

/// The message that an error text becomes, given the text and its lower-case form.
pub open spec fn friendly(text: Seq<char>, lower: Seq<char>) -> Seq<char> {
    if has(lower, "drm"@) {
        "This source is DRM-protected, so it can't be downloaded."@
    } else if has(lower, "not a bot"@) || has(lower, "cookies-from-browser"@) {
        "This source is blocking the request without browser cookies. Try enabling browser cookies in the settings to download this file."@
    } else if has(lower, "this video is unavailable"@) {
        "This video is currently unavailable."@
    } else if text.len() == 0 {
        "Download failed."@
    } else {
        text
    }
}

/// The message that an error text becomes, given the text and its lower-case form.
pub fn friendly_error(text: &str, lower: &str) -> (r: String)
    ensures
        r@ == friendly(text@, lower@),
{
    if contains(lower, "drm") {
        String::from_str("This source is DRM-protected, so it can't be downloaded.")
    } else if contains(lower, "not a bot") || contains(lower, "cookies-from-browser") {
        String::from_str(
            "This source is blocking the request without browser cookies. Try enabling browser cookies in the settings to download this file.",
        )
    } else if contains(lower, "this video is unavailable") {
        String::from_str("This video is currently unavailable.")
    } else if text.is_empty() {
        String::from_str("Download failed.")
    } else {
        text.to_owned()
    }
}

/// The message that the raw error text of a tool becomes.
pub open spec fn normalized_error(message: Seq<char>) -> Seq<char> {
    friendly(collapsed(message), lowercase(collapsed(message)))
}

/// The message that the raw error text of a tool becomes.
pub fn normalize_error(message: &str) -> (r: String)
    ensures
        r@ == normalized_error(message@),
        lowers_ascii(collapsed(message@)),
{
    let text = collapse(message);
    let lower = foreign::to_lowercase(text.as_str());
    friendly_error(text.as_str(), lower.as_str())
}

/// An error message is never empty.
pub proof fn error_is_never_empty(message: Seq<char>)
    ensures
        normalized_error(message).len() > 0,
{
    reveal_strlit("This source is DRM-protected, so it can't be downloaded.");
    reveal_strlit(
        "This source is blocking the request without browser cookies. Try enabling browser cookies in the settings to download this file.",
    );
    reveal_strlit("This video is currently unavailable.");
    reveal_strlit("Download failed.");
}

proof fn lemma_kept(text: Seq<char>)
    requires
        text.len() > 0,
        is_tidy(text),
        is_ascii_chars(text),
        lowers_ascii(text),
        forall|i: int|
            0 <= i && i + 2 < text.len() && ascii_lower(#[trigger] text[i]) == 'd' ==> ascii_lower(
                text[i + 1],
            ) != 'r',
        forall|i: int| 0 <= i < text.len() ==> #[trigger] text[i] != '-',
        forall|i: int|
            0 <= i && i + 2 < text.len() && ascii_lower(#[trigger] text[i]) == 'b' ==> ascii_lower(
                text[i + 1],
            ) != 'o' || ascii_lower(text[i + 2]) != 't',
        forall|i: int|
            0 <= i && i + 1 < text.len() && ascii_lower(#[trigger] text[i]) == 's' ==> !(text[i + 1]
                == ' ' && ascii_lower(text[i + 2]) == 'u'),
    ensures
        normalized_error(text) == text,
{
    tidy_text_stays(text);
    let lower = lowercase(text);
    reveal_strlit("drm");
    reveal_strlit("not a bot");
    reveal_strlit("cookies-from-browser");
    reveal_strlit("this video is unavailable");
    if has(lower, "drm"@) {
        let at = choose|at: int| occurs_at(lower, "drm"@, at);
        let w = lower.subrange(at, at + 3);
        assert(w[0] == lower[at] && w[1] == lower[at + 1]);
        assert(ascii_lower(text[at]) == 'd');
    }
    if has(lower, "not a bot"@) {
        let at = choose|at: int| occurs_at(lower, "not a bot"@, at);
        let w = lower.subrange(at, at + 9);
        assert(w[6] == lower[at + 6] && w[7] == lower[at + 7] && w[8] == lower[at + 8]);
        assert(ascii_lower(text[at + 6]) == 'b');
    }
    if has(lower, "cookies-from-browser"@) {
        let at = choose|at: int| occurs_at(lower, "cookies-from-browser"@, at);
        let w = lower.subrange(at, at + 20);
        assert(w[7] == lower[at + 7]);
        assert(ascii_lower(text[at + 7]) == '-');
    }
    if has(lower, "this video is unavailable"@) {
        let at = choose|at: int| occurs_at(lower, "this video is unavailable"@, at);
        let w = lower.subrange(at, at + 25);
        assert(w[12] == lower[at + 12] && w[13] == lower[at + 13] && w[14] == lower[at + 14]);
        assert(ascii_lower(text[at + 12]) == 's');
        assert(ascii_lower(text[at + 13]) == ' ');
    }
}

/// A message that came out of an error text is kept as it is when it goes in again. That it is
/// lowered as ASCII texts are is what `normalize_error` says of every text that it is given.
pub proof fn error_stays(message: Seq<char>)
    requires
        lowers_ascii(collapsed(normalized_error(message))),
    ensures
        normalized_error(normalized_error(message)) == normalized_error(message),
{
    let r = normalized_error(message);
    let text = collapsed(message);
    let lower = lowercase(text);
    collapsed_is_tidy(message);
    reveal_strlit("This source is DRM-protected, so it can't be downloaded.");
    reveal_strlit(
        "This source is blocking the request without browser cookies. Try enabling browser cookies in the settings to download this file.",
    );
    reveal_strlit("This video is currently unavailable.");
    reveal_strlit("Download failed.");
    if has(lower, "drm"@) {
        reveal_strlit("drm");
        assert(is_tidy(r));
        tidy_text_stays(r);
        assert(lowercase(r).subrange(15, 18) =~= "drm"@);
        assert(occurs_at(lowercase(r), "drm"@, 15));
    } else if has(lower, "not a bot"@) || has(lower, "cookies-from-browser"@) {
        assert(is_tidy(r));
        tidy_text_stays(r);
        lemma_kept(r);
    } else if has(lower, "this video is unavailable"@) {
        assert(is_tidy(r));
        tidy_text_stays(r);
        lemma_kept(r);
    } else if text.len() == 0 {
        assert(is_tidy(r));
        tidy_text_stays(r);
        lemma_kept(r);
    } else {
        tidy_text_stays(text);
    }
}

/// Whether `s` is `na` in letters of any case.
pub open spec fn is_na(s: Seq<char>) -> bool {
    s.len() == 2 && ascii_lower(s[0]) == 'n' && ascii_lower(s[1]) == 'a'
}

/// A field of a progress report: nothing where it is blank or `NA`.
pub open spec fn cleaned(value: Option<Seq<char>>) -> Option<Seq<char>> {
    match value {
        Some(v) => if trimmed(v).len() == 0 || is_na(trimmed(v)) {
            None
        } else {
            Some(trimmed(v))
        },
        None => None,
    }
}

/// A field of a progress report: nothing where it is blank or `NA`.
pub fn clean_field(value: Option<&str>) -> (r: Option<String>)
    ensures
        opt(r) == cleaned(
            match value {
                Some(v) => Some(v@),
                None => None,
            },
        ),
{
    match value {
        Some(v) => {
            let t = trim(v);
            let c = to_chars(t.as_str());
            let na = c.len() == 2 && to_ascii_lower(c[0]) == 'n' && to_ascii_lower(c[1]) == 'a';
            if c.len() == 0 || na {
                None
            } else {
                Some(t)
            }
        },
        None => None,
    }
}

/// What is reported of a source that answered with an error status.
pub open spec fn source_status_text(code: u16, reason: Option<Seq<char>>) -> Seq<char> {
    "Source returned "@ + decimal(code as nat) + " "@ + (match reason {
        Some(text) => text,
        None => "error"@,
    }) + "."@
}

/// What is reported of a source that answered with an error status.
pub fn source_status_error(code: u16, reason: &Option<String>) -> (r: String)
    ensures
        r@ == source_status_text(code, opt(*reason)),
{
    let reason = match reason {
        Some(text) => text.as_str(),
        None => "error",
    };
    let number = decimal_text(code as u128);
    String::from_str("Source returned ").concat(number.as_str()).concat(" ").concat(reason).concat(
        ".",
    )
}

/// What is reported of a server that answered a request for a tool with an error status.
pub fn http_status_error(code: u16) -> (r: String)
    ensures
        r@ == "Download failed: HTTP "@ + decimal(code as nat),
{
    let number = decimal_text(code as u128);
    String::from_str("Download failed: HTTP ").concat(number.as_str())
}

/// What is reported of a conversion that failed, given what the converter wrote.
pub fn conversion_error(stderr: &[u8]) -> (r: String)
    ensures
        r@ == (if trimmed(lossy_text(stderr@)).len() == 0 {
            "ffmpeg conversion failed."@
        } else {
            lossy_text(stderr@)
        }),
        reads_utf8(stderr@),
{
    let text = foreign::from_utf8_lossy(stderr);
    if trim(text.as_str()).as_str().is_empty() {
        String::from_str("ffmpeg conversion failed.")
    } else {
        text
    }
}

/// Whether the converter may be run, given the status of its binary.
pub fn converter_ready(status: &str) -> (r: Result<(), String>)
    ensures
        step_outcome(r) == (if status@ == "ready"@ {
            Ok(())
        } else {
            Err("ffmpeg is not available yet. Please wait for the engine to finish preparing."@)
        }),
{
    if same(status, "ready") {
        Ok(())
    } else {
        Err(
            String::from_str(
                "ffmpeg is not available yet. Please wait for the engine to finish preparing.",
            ),
        )
    }
}

/// What becomes of a run of the converter that ended with the given success and error text.
pub fn run_ffmpeg(success: bool, stderr: &[u8]) -> (r: Result<(), String>)
    ensures
        step_outcome(r) == (if success {
            Ok(())
        } else if trimmed(lossy_text(stderr@)).len() == 0 {
            Err("ffmpeg conversion failed."@)
        } else {
            Err(lossy_text(stderr@))
        }),
        !success ==> reads_utf8(stderr@),
{
    if success {
        Ok(())
    } else {
        Err(conversion_error(stderr))
    }
}

/// A message names the cause where the error text tells of one of the known causes, in letters of
/// any case and with any white space between its words: protection first, then a missing login,
/// then a missing video. Any other text is kept, with single blanks between its words, and a blank
/// one becomes a message all the same.
pub proof fn known_causes_are_named(message: &str, r: String)
    requires
        call_ensures(normalize_error, (message,), r),
    ensures
        ({
            let text = collapsed(message@);
            let lower = lowercase(text);
            let told = |phrase: Seq<char>|
                exists|a: Seq<char>, b: Seq<char>| lower == #[trigger] (a + phrase + b);
            let protection = told("drm"@);
            let login = told("not a bot"@) || told("cookies-from-browser"@);
            let missing = told("this video is unavailable"@);
            &&& protection ==> r@ == "This source is DRM-protected, so it can't be downloaded."@
            &&& !protection && login ==> r@
                == "This source is blocking the request without browser cookies. Try enabling browser cookies in the settings to download this file."@
            &&& !protection && !login && missing ==> r@ == "This video is currently unavailable."@
            &&& !protection && !login && !missing && text.len() > 0 ==> r@ == text
            &&& !protection && !login && !missing && text.len() == 0 ==> r@ == "Download failed."@
        }),
{
    let lower = lowercase(collapsed(message@));
    lemma_has(lower, "drm"@);
    lemma_has(lower, "not a bot"@);
    lemma_has(lower, "cookies-from-browser"@);
    lemma_has(lower, "this video is unavailable"@);
}

proof fn lemma_has(s: Seq<char>, part: Seq<char>)
    ensures
        has(s, part) <==> exists|a: Seq<char>, b: Seq<char>| s == #[trigger] (a + part + b),
{
    let n = part.len() as int;
    if has(s, part) {
        let at = choose|at: int| occurs_at(s, part, at);
        assert(s.take(at) + part + s.skip(at + n) =~= s) by {
            assert forall|i: int| at <= i < at + n implies s[i] == part[i - at] by {
                assert(s.subrange(at, at + n)[i - at] == s[i]);
            }
        }
    }
    if exists|a: Seq<char>, b: Seq<char>| s == #[trigger] (a + part + b) {
        let (a, b) = choose|a: Seq<char>, b: Seq<char>| s == #[trigger] (a + part + b);
        assert(s.subrange(a.len() as int, a.len() + n) =~= part);
        assert(occurs_at(s, part, a.len() as int));
    }
}

/// A field of a progress report says nothing exactly where it is missing, blank, or the letters N
/// and A in any case; else it says what stands between the blanks around it.
pub proof fn fields_say_something_or_nothing(value: Option<&str>, r: Option<String>)
    requires
        call_ensures(clean_field, (value,), r),
    ensures
        value is None ==> r is None,
        value matches Some(v) ==> {
            let t = trimmed(v@);
            let missing = t.len() == 2 && (t[0] == 'n' || t[0] == 'N') && (t[1] == 'a' || t[1]
                == 'A');
            &&& is_blank(v@) || missing <==> r is None
            &&& r matches Some(s) ==> s@ == t
        },
{
    if let Some(v) = value {
        trimmed_is_between_blanks(v@);
        let (a, b) = choose|a: Seq<char>, b: Seq<char>|
            #[trigger] is_blank(a) && #[trigger] is_blank(b) && v@ == a + trimmed(v@) + b;
        if trimmed(v@).len() == 0 {
            assert forall|i: int| 0 <= i < v@.len() implies is_space(#[trigger] v@[i]) by {
                if i < a.len() {
                    assert(v@[i] == a[i]);
                } else {
                    assert(v@[i] == b[i - a.len()]);
                }
            }
        } else {
            assert(v@[a.len() as int] == trimmed(v@)[0]);
        }
    }
}

/// What is reported of an answer names its status, which reads back, and the reason that was given
/// with it.
pub proof fn statuses_read_back(code: u16, reason: Option<String>, of_source: String, of_tool: String)
    requires
        call_ensures(source_status_error, (code, &reason), of_source),
        call_ensures(http_status_error, (code,), of_tool),
    ensures
        exists|digits: Seq<char>|
            {
                &&& is_number(digits) && value_of(digits) == code
                &&& of_source@ == #[trigger] ("Source returned "@ + digits) + " "@ + (match opt(
                    reason,
                ) {
                    Some(text) => text,
                    None => "error"@,
                }) + "."@
            },
        exists|digits: Seq<char>|
            is_number(digits) && value_of(digits) == code && of_tool@ == #[trigger] (
            "Download failed: HTTP "@ + digits),
{
    lemma_decimal(code as nat);
    let digits = decimal(code as nat);
    assert(of_source@ == ("Source returned "@ + digits) + " "@ + (match opt(reason) {
        Some(text) => text,
        None => "error"@,
    }) + "."@);
    assert(of_tool@ == "Download failed: HTTP "@ + digits);
}

/// The converter is run only where it is ready; its run succeeded exactly where it says so, and
/// else what it wrote is told, or that it failed where it wrote nothing.
pub proof fn converter_tells_why(
    status: &str,
    success: bool,
    stderr: &[u8],
    ready: Result<(), String>,
    r: Result<(), String>,
)
    requires
        call_ensures(converter_ready, (status,), ready),
        call_ensures(run_ffmpeg, (success, stderr), r),
    ensures
        ready is Ok <==> status@ == "ready"@,
        ready matches Err(e) ==> e@
            == "ffmpeg is not available yet. Please wait for the engine to finish preparing."@,
        r is Ok <==> success,
        r matches Err(e) ==> {
            &&& trimmed(lossy_text(stderr@)).len() > 0 ==> e@ == lossy_text(stderr@)
            &&& trimmed(lossy_text(stderr@)).len() == 0 ==> e@ == "ffmpeg conversion failed."@
        },
{
}

} // verus!
