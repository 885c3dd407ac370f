//! What is known of a medium before it is downloaded.

use crate::foreign::{
    self, is_json, json_array_len, json_number, json_text, lossy_text, lowers_ascii, reads_utf8,
    url_of, UrlModel,
};
use crate::links::{
    infer_title_from_url, is_direct_media_url, is_segment_title, segment_of, tells_direct,
};
use crate::number::{
    clock_value, decimal, decimal_text, duration_text, format_duration, is_clock, is_number,
    lemma_decimal, lemma_duration, value_of,
};
use crate::report::{normalize_error, normalized_error};
use crate::request::{check_link, link_checked};
use crate::session::not_ready;
use crate::text::{collapsed, from_chars, opt, same, to_chars, views};
use crate::tool::probe_args;
use vstd::prelude::*;

verus! {

/// What is known of a medium.
pub struct MediaInfo {
    pub id: Option<String>,
    pub title: String,
    pub thumbnail: Option<String>,
    /// The number of seconds that it lasts, as it was told.
    pub duration: Option<String>,
    pub duration_label: String,
    pub uploader: String,
    pub extractor: String,
    pub webpage_url: Option<String>,
    pub description: String,
    /// Whether the link leads to the media file itself.
    pub direct: bool,
}

/// The model of `MediaInfo`.
#[verifier::ext_equal]
pub struct MediaModel {
    pub id: Option<Seq<char>>,
    pub title: Seq<char>,
    pub thumbnail: Option<Seq<char>>,
    pub duration: Option<Seq<char>>,
    pub duration_label: Seq<char>,
    pub uploader: Seq<char>,
    pub extractor: Seq<char>,
    pub webpage_url: Option<Seq<char>>,
    pub description: Seq<char>,
    pub direct: bool,
}

impl View for MediaInfo {
    type V = MediaModel;

    open spec fn view(&self) -> MediaModel {
        MediaModel {
            id: opt(self.id),
            title: self.title@,
            thumbnail: opt(self.thumbnail),
            duration: opt(self.duration),
            duration_label: self.duration_label@,
            uploader: self.uploader@,
            extractor: self.extractor@,
            webpage_url: opt(self.webpage_url),
            description: self.description@,
            direct: self.direct,
        }
    }
}

/// What the tool tells of a medium.
pub struct ToldFields {
    pub thumbnail: Option<String>,
    /// The link of the last of the thumbnails.
    pub last_thumbnail: Option<String>,
    pub duration: Option<String>,
    pub uploader: Option<String>,
    pub channel: Option<String>,
    pub extractor_key: Option<String>,
    pub extractor: Option<String>,
    pub description: Option<String>,
    pub id: Option<String>,
    pub title: Option<String>,
    pub webpage_url: Option<String>,
}

/// The model of `ToldFields`.
#[verifier::ext_equal]
pub struct ToldModel {
    pub thumbnail: Option<Seq<char>>,
    pub last_thumbnail: Option<Seq<char>>,
    pub duration: Option<Seq<char>>,
    pub uploader: Option<Seq<char>>,
    pub channel: Option<Seq<char>>,
    pub extractor_key: Option<Seq<char>>,
    pub extractor: Option<Seq<char>>,
    pub description: Option<Seq<char>>,
    pub id: Option<Seq<char>>,
    pub title: Option<Seq<char>>,
    pub webpage_url: Option<Seq<char>>,
}

impl View for ToldFields {
    type V = ToldModel;

    open spec fn view(&self) -> ToldModel {
        ToldModel {
            thumbnail: opt(self.thumbnail),
            last_thumbnail: opt(self.last_thumbnail),
            duration: opt(self.duration),
            uploader: opt(self.uploader),
            channel: opt(self.channel),
            extractor_key: opt(self.extractor_key),
            extractor: opt(self.extractor),
            description: opt(self.description),
            id: opt(self.id),
            title: opt(self.title),
            webpage_url: opt(self.webpage_url),
        }
    }
}

/// The first of two texts that is there.
pub open spec fn either(a: Option<Seq<char>>, b: Option<Seq<char>>) -> Option<Seq<char>> {
    if a is Some {
        a
    } else {
        b
    }
}

/// A text, or what stands for it where it is missing.
pub open spec fn or_text(a: Option<Seq<char>>, b: Seq<char>) -> Seq<char> {
    match a {
        Some(s) => s,
        None => b,
    }
}

/// How much of a description is kept, in characters.
pub const MAX_DESCRIPTION: usize = 220;

/// The part of a description that is kept.
pub open spec fn clipped(description: Option<Seq<char>>) -> Seq<char> {
    match description {
        Some(d) => if d.len() > MAX_DESCRIPTION {
            d.take(MAX_DESCRIPTION as int)
        } else {
            d
        },
        None => Seq::empty(),
    }
}

/// What is known of a medium of which the tool told; it lasts `total` whole seconds.
pub open spec fn media_of(told: ToldModel, total: Option<nat>) -> MediaModel {
    MediaModel {
        id: told.id,
        title: or_text(told.title, "Untitled media"@),
        thumbnail: either(told.thumbnail, told.last_thumbnail),
        duration: told.duration,
        duration_label: duration_text(total),
        uploader: or_text(
            either(either(told.uploader, told.channel), told.extractor_key),
            "Unknown source"@,
        ),
        extractor: or_text(either(told.extractor_key, told.extractor), "Web"@),
        webpage_url: told.webpage_url,
        description: clipped(told.description),
        direct: false,
    }
}

fn first_of(a: Option<String>, b: Option<String>) -> (r: Option<String>)
    ensures
        opt(r) == either(opt(a), opt(b)),
{
    match a {
        Some(s) => Some(s),
        None => b,
    }
}

fn text_or(a: Option<String>, b: &str) -> (r: String)
    ensures
        r@ == or_text(opt(a), b@),
{
    match a {
        Some(s) => s,
        None => b.to_owned(),
    }
}

fn clip(description: Option<String>) -> (r: String)
    ensures
        r@ == clipped(opt(description)),
{
    match description {
        Some(d) => {
            let c = to_chars(d.as_str());
            if c.len() > MAX_DESCRIPTION {
                let r = from_chars(&c, 0, MAX_DESCRIPTION);
                assert(r@ =~= d@.take(MAX_DESCRIPTION as int));
                r
            } else {
                d
            }
        },
        None => {
            let r = String::new();
            assert(r@ =~= Seq::<char>::empty());
            r
        },
    }
}

/// What is known of a medium of which the tool told; it lasts `total` whole seconds.
pub fn media_info(told: ToldFields, total: Option<u64>) -> (r: MediaInfo)
    ensures
        r@ == media_of(
            told@,
            match total {
                Some(t) => Some(t as nat),
                None => None,
            },
        ),
{
    let key = told.extractor_key.clone();
    MediaInfo {
        id: told.id,
        title: text_or(told.title, "Untitled media"),
        thumbnail: first_of(told.thumbnail, told.last_thumbnail),
        duration: told.duration,
        duration_label: format_duration(total),
        uploader: text_or(
            first_of(first_of(told.uploader, told.channel), key),
            "Unknown source",
        ),
        extractor: text_or(first_of(told.extractor_key, told.extractor), "Web"),
        webpage_url: told.webpage_url,
        description: clip(told.description),
        direct: false,
    }
}

/// The link of the last of the thumbnails that a document lists.
pub open spec fn last_thumbnail_in(document: Seq<u8>) -> Option<Seq<char>> {
    match json_array_len(document, "/thumbnails"@) {
        Some(n) => if n > 0 {
            json_text(document, "/thumbnails/"@ + decimal((n - 1) as nat) + "/url"@)
        } else {
            None
        },
        None => None,
    }
}

/// What a document tells of a medium.
pub open spec fn told_in(document: Seq<u8>) -> ToldModel {
    ToldModel {
        thumbnail: json_text(document, "/thumbnail"@),
        last_thumbnail: last_thumbnail_in(document),
        duration: json_number(document, "/duration"@),
        uploader: json_text(document, "/uploader"@),
        channel: json_text(document, "/channel"@),
        extractor_key: json_text(document, "/extractor_key"@),
        extractor: json_text(document, "/extractor"@),
        description: json_text(document, "/description"@),
        id: json_text(document, "/id"@),
        title: json_text(document, "/title"@),
        webpage_url: json_text(document, "/webpage_url"@),
    }
}

/// The link of the last of the thumbnails that a document lists.
fn last_thumbnail(document: &[u8]) -> (r: Option<String>)
    ensures
        opt(r) == last_thumbnail_in(document@),
{
    match foreign::json_len(document, "/thumbnails") {
        Some(n) => if n > 0 {
            let number = decimal_text((n - 1) as u128);
            let pointer = String::from_str("/thumbnails/").concat(number.as_str()).concat("/url");
            foreign::json_string(document, pointer.as_str())
        } else {
            None
        },
        None => None,
    }
}

/// The number of seconds that a medium lasts, as a document tells it.
pub fn duration_of(document: &[u8]) -> (r: Option<String>)
    ensures
        opt(r) == json_number(document@, "/duration"@),
{
    foreign::json_number_text(document, "/duration")
}

/// What is known of a medium of which a document tells; it lasts `total` whole seconds.
pub fn serialize_info(document: &[u8], total: Option<u64>) -> (r: Result<MediaInfo, String>)
    ensures
        match r {
            Ok(info) => is_json(document@) && info@ == media_of(
                told_in(document@),
                match total {
                    Some(t) => Some(t as nat),
                    None => None,
                },
            ),
            Err(e) => !is_json(document@) && e@ == "Could not read media info."@,
        },
{
    if !foreign::is_json_document(document) {
        return Err(String::from_str("Could not read media info."));
    }
    let told = ToldFields {
        thumbnail: foreign::json_string(document, "/thumbnail"),
        last_thumbnail: last_thumbnail(document),
        duration: duration_of(document),
        uploader: foreign::json_string(document, "/uploader"),
        channel: foreign::json_string(document, "/channel"),
        extractor_key: foreign::json_string(document, "/extractor_key"),
        extractor: foreign::json_string(document, "/extractor"),
        description: foreign::json_string(document, "/description"),
        id: foreign::json_string(document, "/id"),
        title: foreign::json_string(document, "/title"),
        webpage_url: foreign::json_string(document, "/webpage_url"),
    };
    Ok(media_info(told, total))
}

/// The host that a link names.
pub open spec fn host_of(url: Option<UrlModel>) -> Option<Seq<char>> {
    match url {
        Some(u) => u.host,
        None => None,
    }
}

/// What is known of a media file at its own link.
pub open spec fn direct_media(url: Seq<char>, host: Option<Seq<char>>, title: Seq<char>) -> MediaModel {
    MediaModel {
        id: None,
        title,
        thumbnail: None,
        duration: None,
        duration_label: "Direct file"@,
        uploader: or_text(host, "Direct source"@),
        extractor: "Direct"@,
        webpage_url: Some(url),
        description: "Direct media file"@,
        direct: true,
    }
}

/// What is known of a media file at its own link, given the host and the title.
pub fn direct_info(url: &str, host: Option<String>, title: String) -> (r: MediaInfo)
    ensures
        r@ == direct_media(url@, opt(host), title@),
{
    MediaInfo {
        id: None,
        title,
        thumbnail: None,
        duration: None,
        duration_label: String::from_str("Direct file"),
        uploader: text_or(host, "Direct source"),
        extractor: String::from_str("Direct"),
        webpage_url: Some(url.to_owned()),
        description: String::from_str("Direct media file"),
        direct: true,
    }
}

/// Whether `info` is what is known of a media file at its own link.
pub open spec fn is_direct_info(url: Seq<char>, info: MediaModel) -> bool {
    is_segment_title(segment_of(url_of(url)), info.title) && info == direct_media(
        url,
        host_of(url_of(url)),
        info.title,
    )
}

/// What is known of a media file at its own link.
pub fn probe_direct(url: &str) -> (r: MediaInfo)
    ensures
        is_direct_info(url@, r@),
{
    let host = match foreign::read_url(url) {
        Some(parts) => parts.host,
        None => None,
    };
    let title = infer_title_from_url(url);
    direct_info(url, host, title)
}

/// How to learn about a medium.
pub enum Probe {
    /// It is known without asking.
    Known(MediaInfo),
    /// The tool is asked, with the given arguments.
    Ask(Vec<String>),
}

/// Whether `r` is how to learn about the medium at a link that the user typed, or why that cannot
/// be; `status` is that of the tool's binary.
pub open spec fn is_probe(raw_url: Seq<char>, status: Seq<char>, r: Result<Probe, String>) -> bool {
    match link_checked(raw_url) {
        Ok(url) => exists|direct: bool| #[trigger]
            tells_direct(url, direct) && if direct {
                r matches Ok(Probe::Known(info)) && is_direct_info(url, info@)
            } else if status != "ready"@ {
                r matches Err(e) && e@ == not_ready()
            } else {
                r matches Ok(Probe::Ask(args)) && views(args@) == seq![
                    "-J"@,
                    "--no-warnings"@,
                    "--no-playlist"@,
                    url,
                ]
            },
        Err(message) => r matches Err(e) && e@ == message,
    }
}

/// How to learn about the medium at a link that the user typed, or why that cannot be.
pub fn probe(raw_url: &str, status: &str) -> (r: Result<Probe, String>)
    ensures
        is_probe(raw_url@, status@, r),
{
    let url = match check_link(raw_url) {
        Ok(url) => url,
        Err(e) => {
            return Err(e);
        },
    };
    let direct = is_direct_media_url(url.as_str());
    assert(tells_direct(url@, direct));
    if direct {
        return Ok(Probe::Known(probe_direct(url.as_str())));
    }
    if !same(status, "ready") {
        return Err(
            String::from_str(
                "The download engine is still preparing. Please wait a moment and try again.",
            ),
        );
    }
    Ok(Probe::Ask(probe_args(url.as_str())))
}

/// What the tool's answer tells of a medium; it lasts `total` whole seconds.
pub fn read_probe(success: bool, stdout: &[u8], stderr: &[u8], total: Option<u64>) -> (r: Result<
    MediaInfo,
    String,
>)
    ensures
        match r {
            Ok(info) => success && is_json(stdout@) && info@ == media_of(
                told_in(stdout@),
                match total {
                    Some(t) => Some(t as nat),
                    None => None,
                },
            ),
            Err(e) => if success {
                !is_json(stdout@) && e@ == "Could not read media info."@
            } else {
                e@ == normalized_error(lossy_text(stderr@))
            },
        },
        !success ==> r is Err && reads_utf8(stderr@) && lowers_ascii(
            collapsed(lossy_text(stderr@)),
        ),
{
    if !success {
        let text = foreign::from_utf8_lossy(stderr);
        return Err(normalize_error(text.as_str()));
    }
    serialize_info(stdout, total)
}

/// What is reported where the tool could not be asked.
pub fn probe_failure(error: &str) -> (r: String)
    ensures
        r@ == "Failed to run yt-dlp: "@ + error@,
{
    String::from_str("Failed to run yt-dlp: ").concat(error)
}

/// Whether a text is the beginning of another, cut off after 220 characters and nowhere else.
pub open spec fn is_beginning(text: Seq<char>, whole: Seq<char>) -> bool {
    text.is_prefix_of(whole) && (text == whole || text.len() == 220 && whole.len() > 220)
}

/// Whether a label shows how long a medium lasts: as a clock time that reads back to the whole
/// seconds, or as unknown.
pub open spec fn labels_length(label: Seq<char>, total: Option<u64>) -> bool {
    match total {
        Some(t) => clock_value(label) == t && is_clock(
            label,
            if t >= 3600 {
                2
            } else {
                1
            },
        ),
        None => label == "Unknown"@,
    }
}

/// What is known of a medium is what the tool's document says of it under the names of the tool:
/// its title, picture, length, page and description, who put it up and where. What is not said is
/// taken from what stands for it, and is named unknown in the end.
pub proof fn probe_tells_what_the_document_says(
    success: bool,
    stdout: &[u8],
    stderr: &[u8],
    total: Option<u64>,
    r: Result<MediaInfo, String>,
)
    requires
        call_ensures(read_probe, (success, stdout, stderr, total), r),
    ensures
        r is Ok <==> success && is_json(stdout@),
        r matches Ok(info) ==> {
            let text = |key: Seq<char>| json_text(stdout@, key);
            &&& text("/title"@) matches Some(t) ==> info.title@ == t
            &&& text("/title"@) is None ==> info.title@ == "Untitled media"@
            &&& opt(info.id) == text("/id"@)
            &&& opt(info.webpage_url) == text("/webpage_url"@)
            &&& opt(info.duration) == json_number(stdout@, "/duration"@)
            &&& labels_length(info.duration_label@, total)
            &&& text("/thumbnail"@) is Some ==> opt(info.thumbnail) == text("/thumbnail"@)
            &&& text("/thumbnail"@) is None ==> opt(info.thumbnail) == last_thumbnail_in(stdout@)
            &&& text("/uploader"@) matches Some(u) ==> info.uploader@ == u
            &&& text("/uploader"@) is None ==> (text("/channel"@) matches Some(c)
                ==> info.uploader@ == c)
            &&& text("/uploader"@) is None && text("/channel"@) is None ==> match text(
                "/extractor_key"@,
            ) {
                Some(k) => info.uploader@ == k,
                None => info.uploader@ == "Unknown source"@,
            }
            &&& text("/extractor_key"@) matches Some(k) ==> info.extractor@ == k
            &&& text("/extractor_key"@) is None ==> match text("/extractor"@) {
                Some(e) => info.extractor@ == e,
                None => info.extractor@ == "Web"@,
            }
            &&& text("/description"@) matches Some(d) ==> is_beginning(info.description@, d)
            &&& text("/description"@) is None ==> info.description@.len() == 0
            &&& !info.direct
        },
        r matches Err(e) ==> if success {
            e@ == "Could not read media info."@
        } else {
            e@ == normalized_error(lossy_text(stderr@))
        },
{
    if let Some(t) = total {
        lemma_duration(t as nat);
    }
    if let Ok(info) = r {
        let told = told_in(stdout@);
        assert(info@.description == clipped(told.description));
        if let Some(d) = told.description {
            assert(info.description@.len() <= d.len());
            assert(info.description@ =~= d.take(info.description@.len() as int));
        }
    }
}

/// The picture of a medium that names none itself is the last of those that are listed.
pub proof fn last_picture_is_taken(document: Seq<u8>, n: nat)
    ensures
        json_array_len(document, "/thumbnails"@) is None ==> last_thumbnail_in(document) is None,
        json_array_len(document, "/thumbnails"@) matches Some(len) ==> len == 0 ==> last_thumbnail_in(
            document,
        ) is None,
        json_array_len(document, "/thumbnails"@) matches Some(len) ==> len == n + 1 ==> exists|
            digits: Seq<char>,
        |
            is_number(digits) && value_of(digits) == n && last_thumbnail_in(document) == json_text(
                document,
                #[trigger] ("/thumbnails/"@ + digits + "/url"@),
            ),
{
    lemma_decimal(n);
    let pointer = "/thumbnails/"@ + decimal(n) + "/url"@;
}

/// Of a medium of which fields were told, each shows where it belongs.
pub proof fn told_fields_are_shown(told: ToldFields, total: Option<u64>, info: MediaInfo)
    requires
        call_ensures(media_info, (told, total), info),
    ensures
        opt(info.id) == opt(told.id),
        opt(told.title) matches Some(t) ==> info.title@ == t,
        opt(told.thumbnail) is Some ==> opt(info.thumbnail) == opt(told.thumbnail),
        opt(told.thumbnail) is None ==> opt(info.thumbnail) == opt(told.last_thumbnail),
        opt(info.duration) == opt(told.duration),
        labels_length(info.duration_label@, total),
        opt(told.uploader) matches Some(u) ==> info.uploader@ == u,
        opt(told.extractor_key) matches Some(k) ==> info.extractor@ == k,
        opt(info.webpage_url) == opt(told.webpage_url),
        opt(told.description) matches Some(d) ==> is_beginning(info.description@, d),
        !info.direct,
{
    if let Some(t) = total {
        lemma_duration(t as nat);
    }
    if let Some(d) = opt(told.description) {
        assert(info@.description == clipped(Some(d)));
        assert(info.description@ =~= d.take(info.description@.len() as int));
    }
}

/// Of a media file at its own link nothing is known but the link, its host, and the title that the
/// link suggests; and it is known to be a file.
pub proof fn direct_file_is_known_by_its_link(url: &str, info: MediaInfo)
    requires
        call_ensures(probe_direct, (url,), info),
    ensures
        info.direct,
        opt(info.webpage_url) == Some(url@),
        is_segment_title(segment_of(url_of(url@)), info.title@),
        url_of(url@) matches Some(u) ==> (u.host matches Some(host) ==> info.uploader@ == host),
        info.id is None && info.thumbnail is None && info.duration is None,
        info.duration_label@ == "Direct file"@,
        info.extractor@ == "Direct"@,
        info.description@ == "Direct media file"@,
{
}

/// A link that is refused is not asked about; a link to a media file is known without asking, and
/// for any other the tool is asked about that very link, once it is ready.
pub proof fn tool_is_asked_about_pages(raw_url: &str, status: &str, r: Result<Probe, String>)
    requires
        call_ensures(probe, (raw_url, status), r),
    ensures
        link_checked(raw_url@) matches Err(message) ==> (r matches Err(e) && e@ == message),
        link_checked(raw_url@) matches Ok(url) ==> exists|direct: bool| #[trigger]
            tells_direct(url, direct) && (direct ==> (r matches Ok(Probe::Known(info))
                && info.direct && opt(info.webpage_url) == Some(url))) && (!direct && status@
                != "ready"@ ==> (r matches Err(e) && e@
                == "The download engine is still preparing. Please wait a moment and try again."@))
                && (!direct && status@ == "ready"@ ==> (r matches Ok(Probe::Ask(args)) && views(
                args@,
            ).last() == url && views(args@)[0] == "-J"@ && views(args@).len() == 4)),
{
    if let Ok(url) = link_checked(raw_url@) {
        let direct = choose|direct: bool| #[trigger]
            tells_direct(url, direct) && if direct {
                r matches Ok(Probe::Known(info)) && is_direct_info(url, info@)
            } else if status@ != "ready"@ {
                r matches Err(e) && e@ == not_ready()
            } else {
                r matches Ok(Probe::Ask(args)) && views(args@) == seq![
                    "-J"@,
                    "--no-warnings"@,
                    "--no-playlist"@,
                    url,
                ]
            };
        if direct {
            if let Ok(Probe::Known(info)) = r {
                assert(info@.direct && info@.webpage_url == Some(url));
            }
        }
        assert(tells_direct(url, direct));
    }
}

/// The length that the tool told is found under its name, and a tool that could not be asked says
/// why.
pub proof fn length_and_failure_are_told(
    document: &[u8],
    error: &str,
    length: Option<String>,
    failure: String,
)
    requires
        call_ensures(duration_of, (document,), length),
        call_ensures(probe_failure, (error,), failure),
    ensures
        opt(length) == json_number(document@, "/duration"@),
        failure@ == "Failed to run yt-dlp: "@ + error@,
{
}

/// A document that is no JSON tells nothing; and what is known of a file at its own link is its
/// link, its host and its title.
pub proof fn documents_are_json(
    document: &[u8],
    total: Option<u64>,
    r: Result<MediaInfo, String>,
    url: &str,
    host: Option<String>,
    title: String,
    info: MediaInfo,
)
    requires
        call_ensures(serialize_info, (document, total), r),
        call_ensures(direct_info, (url, host, title), info),
    ensures
        r is Ok <==> is_json(document@),
        r matches Err(e) ==> e@ == "Could not read media info."@,
        r matches Ok(known) ==> labels_length(known.duration_label@, total) && (json_text(
            document@,
            "/title"@,
        ) matches Some(t) ==> known.title@ == t),
        info.direct && info.title@ == title@ && opt(info.webpage_url) == Some(url@),
        opt(host) matches Some(h) ==> info.uploader@ == h,
        host is None ==> info.uploader@ == "Direct source"@,
{
    if let Some(t) = total {
        lemma_duration(t as nat);
    }
}

} // verus!
