//! What the library calls without proof, each item with what it relies on.

use crate::text::{ascii_lowered, opt};
use std::io::Read;
use vstd::prelude::*;
use vstd::utf8::{decode_utf8, is_ascii_chars, valid_utf8};

verus! {

/// `String::push`: the character is appended to the string.
pub assume_specification[ String::push ](s: &mut String, c: char)
    ensures
        final(s)@ == old(s)@.push(c),
;

/// The milliseconds of the longest span of time that `Duration` can hold: `u64::MAX` seconds and
/// 999 milliseconds.
pub const MAX_MILLIS: u128 = 18_446_744_073_709_551_615_999;

/// `SystemTime::now().duration_since(UNIX_EPOCH)` in whole milliseconds; none where the clock
/// stands before the epoch. Of a clock reading only the range is promised.
#[verifier::external_body]
pub(crate) fn epoch_millis() -> (r: Option<u128>)
    ensures
        r matches Some(ms) ==> ms <= MAX_MILLIS,
{
    std::time::SystemTime::now().duration_since(std::time::UNIX_EPOCH).ok().map(|d| d.as_millis())
}

/// `SystemTime::now().duration_since(UNIX_EPOCH)` in whole seconds; none where the clock stands
/// before the epoch. Nothing is promised of a clock reading.
#[verifier::external_body]
pub(crate) fn epoch_secs() -> (r: Option<u64>) {
    std::time::SystemTime::now().duration_since(std::time::UNIX_EPOCH).ok().map(|d| d.as_secs())
}

/// What `str::to_lowercase` makes of a text.
pub uninterp spec fn lowercase(s: Seq<char>) -> Seq<char>;

/// Whether `str::to_lowercase` does with a text of ASCII characters what is known of it: only the
/// letters `A` to `Z` change, each to its lower-case form.
pub open spec fn lowers_ascii(s: Seq<char>) -> bool {
    is_ascii_chars(s) ==> lowercase(s) == ascii_lowered(s)
}

/// `str::to_lowercase`: the result depends on the text alone, and in a text of ASCII characters
/// the letters `A` to `Z` become `a` to `z` and nothing else changes.
#[verifier::external_body]
pub(crate) fn to_lowercase(s: &str) -> (r: String)
    ensures
        r@ == lowercase(s@),
        is_ascii_chars(s@) ==> r@ == ascii_lowered(s@),
{
    s.to_lowercase()
}

/// What `String::from_utf8_lossy` makes of bytes.
pub uninterp spec fn lossy_text(bytes: Seq<u8>) -> Seq<char>;

/// Whether `String::from_utf8_lossy` does with bytes what is known of it: valid UTF-8 is decoded as
/// it stands.
pub open spec fn reads_utf8(bytes: Seq<u8>) -> bool {
    valid_utf8(bytes) ==> lossy_text(bytes) == decode_utf8(bytes)
}

/// `String::from_utf8_lossy`: the result depends on the bytes alone, and valid UTF-8 is decoded
/// as it stands.
#[verifier::external_body]
pub(crate) fn from_utf8_lossy(bytes: &[u8]) -> (r: String)
    ensures
        r@ == lossy_text(bytes@),
        valid_utf8(bytes@) ==> r@ == decode_utf8(bytes@),
{
    String::from_utf8_lossy(bytes).into_owned()
}

/// `String::from_utf8`: the decoded text of valid UTF-8, and nothing for other bytes.
#[verifier::external_body]
pub(crate) fn from_utf8(bytes: Vec<u8>) -> (r: Option<String>)
    ensures
        r is Some <==> valid_utf8(bytes@),
        r matches Some(s) ==> s@ == decode_utf8(bytes@),
{
    String::from_utf8(bytes).ok()
}

/// The components of a path that is split at `/`: the empty ones and `.` are left out.
pub open spec fn path_components(path: Seq<char>) -> Seq<Seq<char>> {
    crate::text::pieces(path, seq!['/']).filter(
        |c: Seq<char>| c.len() > 0 && c != seq!['.'],
    )
}

/// The last component of a path that is split at `/`, unless it is `..`.
pub open spec fn last_component(path: Seq<char>) -> Option<Seq<char>> {
    let c = path_components(path);
    if c.len() == 0 || c.last() == seq!['.', '.'] {
        None
    } else {
        Some(c.last())
    }
}

/// A path with nothing in it that some system reads in its own way: no backslash, no colon, no
/// leading `//`.
pub open spec fn is_portable(path: Seq<char>) -> bool {
    &&& !path.contains('\\')
    &&& !path.contains(':')
    &&& !seq!['/', '/'].is_prefix_of(path)
}

/// Whether a character separates components on some system.
pub open spec fn is_separator(c: char) -> bool {
    c == '/' || c == '\\'
}

/// Whether a path begins with two separators, as paths to other machines and to devices do.
pub open spec fn begins_twice(path: Seq<char>) -> bool {
    path.len() >= 2 && is_separator(path[0]) && is_separator(path[1])
}

/// A path without the drive letter that it begins with.
pub open spec fn without_drive(path: Seq<char>) -> Seq<char> {
    if path.len() >= 2 && ('a' <= path[0] <= 'z' || 'A' <= path[0] <= 'Z') && path[1] == ':' {
        path.skip(2)
    } else {
        path
    }
}

/// A path with `/` in place of every backslash.
pub open spec fn slashed(path: Seq<char>) -> Seq<char> {
    path.map_values(
        |c: char|
            if c == '\\' {
                '/'
            } else {
                c
            },
    )
}

/// The last component of a path that may begin with a drive letter and is split at `/` and at
/// backslashes, unless it is `..`.
pub open spec fn last_component_with_drive(path: Seq<char>) -> Option<Seq<char>> {
    last_component(slashed(without_drive(path)))
}

/// Whether a path begins with two separators and `?` or `.`, as paths to devices do.
pub open spec fn begins_like_device(path: Seq<char>) -> bool {
    begins_twice(path) && path.len() >= 3 && (path[2] == '?' || path[2] == '.')
}

/// The last component of a path that is split at backslashes alone, unless it is `..`.
pub open spec fn last_component_verbatim(path: Seq<char>) -> Option<Seq<char>> {
    let c = crate::text::pieces(path, seq!['\\']).filter(
        |c: Seq<char>| c.len() > 0 && c != seq!['.'],
    );
    if c.len() == 0 || c.last() == seq!['.', '.'] {
        None
    } else {
        Some(c.last())
    }
}

/// Whether `name` can be what `Path::file_name` finds in a path.
pub open spec fn names_path(path: Seq<char>, name: Option<Seq<char>>) -> bool {
    &&& is_portable(path) ==> name == last_component(path)
    &&& !begins_twice(path) ==> name == last_component(path) || name == last_component_with_drive(
        path,
    )
    &&& begins_twice(path) ==> {
        ||| name == last_component(path)
        ||| name == last_component(slashed(path))
        ||| begins_like_device(path) && name == last_component_verbatim(path)
        ||| name is None
    }
}

/// `Path::file_name`: the last component of a path, unless it is `..`. Some systems split a path at
/// `/` alone, others at backslashes too and know drive letters; a path that all systems read alike
/// has one result, and another path one of two. A path that begins with two separators may lead to
/// another machine or to a device, and then its first components name no file; one that begins as
/// those of devices do may be split at backslashes alone.
#[verifier::external_body]
pub(crate) fn file_name(path: &str) -> (r: Option<String>)
    ensures
        names_path(path@, opt(r)),
{
    std::path::Path::new(path).file_name().map(|n| n.to_string_lossy().into_owned())
}

/// Whether the system found a file name in a path when it was asked, or none.
pub closed spec fn is_systems_name(path: Seq<char>, name: Option<Seq<char>>) -> bool {
    exists|text: &str, answer: Option<String>|
        text@ == path && #[trigger] call_ensures(file_name, (text,), answer) && name == opt(answer)
}

/// Whether `name` is what the system finds in a path, which is one of what systems can find there.
pub open spec fn finds_name(path: Seq<char>, name: Option<Seq<char>>) -> bool {
    names_path(path, name) && is_systems_name(path, name)
}

/// The file name that the system finds in a path.
pub(crate) fn name_in(path: &str) -> (r: Option<String>)
    ensures
        finds_name(path@, opt(r)),
{
    file_name(path)
}

/// The parts of a URL that the library reads.
pub struct UrlParts {
    /// The whole URL in normal form.
    pub href: String,
    pub host: Option<String>,
    pub path: String,
    /// The segments of the path, where the URL has a path of segments.
    pub segments: Option<Vec<String>>,
}

/// The model of `UrlParts`.
#[verifier::ext_equal]
pub struct UrlModel {
    pub href: Seq<char>,
    pub host: Option<Seq<char>>,
    pub path: Seq<char>,
    pub segments: Option<Seq<Seq<char>>>,
}

impl View for UrlParts {
    type V = UrlModel;

    open spec fn view(&self) -> UrlModel {
        UrlModel {
            href: self.href@,
            host: opt(self.host),
            path: self.path@,
            segments: match self.segments {
                Some(list) => Some(crate::text::views(list@)),
                None => None,
            },
        }
    }
}

/// The models of parts that may be missing.
pub open spec fn parts_model(parts: Option<UrlParts>) -> Option<UrlModel> {
    match parts {
        Some(p) => Some(p@),
        None => None,
    }
}

/// What `Url::parse` reads out of a text, if it is a URL.
pub uninterp spec fn url_of(text: Seq<char>) -> Option<UrlModel>;

/// A text up to its first `?` or `#`.
pub open spec fn before_query(text: Seq<char>) -> Seq<char>
    decreases text.len(),
{
    if text.len() == 0 || text[0] == '?' || text[0] == '#' {
        Seq::empty()
    } else {
        seq![text[0]] + before_query(text.skip(1))
    }
}

/// Whether the normal form of a URL is that of a web link.
pub open spec fn is_web_link(href: Seq<char>) -> bool {
    "http://"@.is_prefix_of(href) || "https://"@.is_prefix_of(href)
}

/// Whether `text` is short enough for a link with the normal form `href` to be followed by what
/// stands behind it there: positions in a URL are 32-bit numbers, and a character takes up to 12
/// bytes.
pub open spec fn fits_behind(href: Seq<char>, text: Seq<char>) -> bool {
    href.len() + 12 * text.len() <= u32::MAX
}

/// Whether `url`, read out of `text`, has the host and the path of the web link that stands before
/// the query and the fragment in it. Of a link that ends in a blank or a control character, which
/// are left out at the end of a text, nothing is said.
pub open spec fn keeps_path(text: Seq<char>, url: Option<UrlModel>) -> bool {
    let link = before_query(text);
    url_of(link) matches Some(u) ==> is_web_link(u.href) && link.last() > ' ' && fits_behind(
        u.href,
        text,
    ) ==> (url matches Some(whole) && whole.host == u.host && whole.path == u.path
        && whole.segments == u.segments)
}

/// `reqwest::Url::parse`, with the URL's text, host, path and path segments: which texts are
/// URLs, and what their parts are, depends on the text alone. A query and a fragment behind a web
/// link leave its host and path as they are.
#[verifier::external_body]
pub(crate) fn read_url(text: &str) -> (r: Option<UrlParts>)
    ensures
        url_of(text@) == parts_model(r),
        keeps_path(text@, parts_model(r)),
{
    let url = reqwest::Url::parse(text).ok()?;
    Some(
        UrlParts {
            href: url.to_string(),
            host: url.host_str().map(String::from),
            path: url.path().to_string(),
            segments: url.path_segments().map(|list| list.map(String::from).collect()),
        },
    )
}

/// The SHA-256 digest of bytes.
pub uninterp spec fn sha256(bytes: Seq<u8>) -> Seq<u8>;

/// `sha2::Sha256::digest`: the digest depends on the bytes alone and has 32 bytes.
#[verifier::external_body]
pub(crate) fn sha256_digest(bytes: &[u8]) -> (r: Vec<u8>)
    ensures
        r@ == sha256(bytes@),
        r@.len() == 32,
{
    <sha2::Sha256 as sha2::Digest>::digest(bytes).to_vec()
}

/// The lower-case hexadecimal digit `d`.
pub open spec fn hex_digit(d: int) -> char {
    if d < 10 {
        (48 + d) as char
    } else {
        (87 + d) as char
    }
}

/// Every byte as two lower-case hexadecimal digits, the high one first.
pub open spec fn hex_text(bytes: Seq<u8>) -> Seq<char> {
    Seq::new(
        2 * bytes.len(),
        |i: int|
            if i % 2 == 0 {
                hex_digit(bytes[i / 2] as int / 16)
            } else {
                hex_digit(bytes[i / 2] as int % 16)
            },
    )
}

/// `hex::encode`: every byte becomes two lower-case hexadecimal digits, the high one first.
#[verifier::external_body]
pub(crate) fn hex_encode(bytes: &Vec<u8>) -> (r: String)
    ensures
        r@ == hex_text(bytes@),
{
    hex::encode(bytes)
}

/// A random UUID in its hyphenated form: groups of 8, 4, 4, 4 and 12 lower-case hexadecimal
/// digits, with the version 4 and the variant at their places.
pub open spec fn is_uuid_text(s: Seq<char>) -> bool {
    &&& s.len() == 36
    &&& s[14] == '4'
    &&& s[19] == '8' || s[19] == '9' || s[19] == 'a' || s[19] == 'b'
    &&& forall|i: int|
        0 <= i < 36 ==> if i == 8 || i == 13 || i == 18 || i == 23 {
            #[trigger] s[i] == '-'
        } else {
            '0' <= s[i] <= '9' || 'a' <= s[i] <= 'f'
        }
}

/// `uuid::Uuid::new_v4` in its hyphenated form. The digits are random, so only the form is
/// stated.
#[verifier::external_body]
pub(crate) fn new_uuid() -> (r: String)
    ensures
        is_uuid_text(r@),
{
    uuid::Uuid::new_v4().to_string()
}

/// Whether bytes are a JSON document.
pub uninterp spec fn is_json(document: Seq<u8>) -> bool;

/// `serde_json::from_slice` into a JSON value: whether the bytes are JSON depends on them alone.
#[verifier::external_body]
pub(crate) fn is_json_document(document: &[u8]) -> (r: bool)
    ensures
        r == is_json(document@),
{
    serde_json::from_slice::<serde_json::Value>(document).is_ok()
}

/// The string that a JSON pointer leads to in a JSON document.
pub uninterp spec fn json_text(document: Seq<u8>, pointer: Seq<char>) -> Option<Seq<char>>;

/// `serde_json::from_slice`, with the string that a JSON pointer leads to: it depends on the bytes
/// and on the pointer alone.
#[verifier::external_body]
pub(crate) fn json_string(document: &[u8], pointer: &str) -> (r: Option<String>)
    ensures
        opt(r) == json_text(document@, pointer@),
{
    let value: serde_json::Value = serde_json::from_slice(document).ok()?;
    value.pointer(pointer)?.as_str().map(String::from)
}

/// The length of the array that a JSON pointer leads to in a JSON document.
pub uninterp spec fn json_array_len(document: Seq<u8>, pointer: Seq<char>) -> Option<nat>;

/// `serde_json::from_slice`, with the length of the array that a JSON pointer leads to: it
/// depends on the bytes and on the pointer alone.
#[verifier::external_body]
pub(crate) fn json_len(document: &[u8], pointer: &str) -> (r: Option<usize>)
    ensures
        match r {
            Some(n) => json_array_len(document@, pointer@) == Some(n as nat),
            None => json_array_len(document@, pointer@) is None,
        },
{
    let value: serde_json::Value = serde_json::from_slice(document).ok()?;
    value.pointer(pointer)?.as_array().map(|list| list.len())
}

/// The number that a JSON pointer leads to in a JSON document, as JSON writes it.
pub uninterp spec fn json_number(document: Seq<u8>, pointer: Seq<char>) -> Option<Seq<char>>;

/// `serde_json::from_slice`, with the number that a JSON pointer leads to, as text: it depends
/// on the bytes and on the pointer alone.
#[verifier::external_body]
pub(crate) fn json_number_text(document: &[u8], pointer: &str) -> (r: Option<String>)
    ensures
        opt(r) == json_number(document@, pointer@),
{
    let value: serde_json::Value = serde_json::from_slice(document).ok()?;
    value.pointer(pointer)?.as_number().map(|n| n.to_string())
}

/// The number of entries of a ZIP archive, or why the bytes are none.
pub uninterp spec fn zip_count(archive: Seq<u8>) -> Result<nat, Seq<char>>;

/// `zip::ZipArchive::new` and the number of entries: it depends on the bytes alone.
#[verifier::external_body]
pub(crate) fn zip_len(archive: &[u8]) -> (r: Result<usize, String>)
    ensures
        match r {
            Ok(n) => zip_count(archive@) == Ok::<nat, Seq<char>>(n as nat),
            Err(e) => zip_count(archive@) == Err::<nat, Seq<char>>(e@),
        },
{
    zip::ZipArchive::new(std::io::Cursor::new(archive)).map(|z| z.len()).map_err(|e| e.to_string())
}

/// The name of an entry of a ZIP archive and whether it is a regular file, or why it cannot be
/// read.
pub uninterp spec fn zip_entry_of(archive: Seq<u8>, index: nat) -> Result<(Seq<char>, bool), Seq<char>>;

/// `ZipArchive::by_index`, with the entry's name and whether it is a regular file: both depend on
/// the bytes and on the index alone.
#[verifier::external_body]
pub(crate) fn zip_entry(archive: &[u8], index: usize) -> (r: Result<(String, bool), String>)
    ensures
        match r {
            Ok(entry) => zip_entry_of(archive@, index as nat) == Ok::<(Seq<char>, bool), Seq<char>>(
                (entry.0@, entry.1),
            ),
            Err(e) => zip_entry_of(archive@, index as nat) == Err::<(Seq<char>, bool), Seq<char>>(
                e@,
            ),
        },
{
    let opened = zip::ZipArchive::new(std::io::Cursor::new(archive));
    let mut opened = opened.map_err(|e| e.to_string())?;
    let entry = opened.by_index(index).map_err(|e| e.to_string())?;
    Ok((entry.name().to_string(), entry.is_file()))
}

/// The contents of an entry of a ZIP archive, or why they cannot be read to their end.
pub uninterp spec fn zip_data_of(archive: Seq<u8>, index: nat) -> Result<Seq<u8>, Seq<char>>;

/// `ZipArchive::by_index` and reading the entry to its end, or up to an error: the contents, or the
/// error, depend on the bytes and on the index alone. How much is read before an error is left
/// open.
#[verifier::external_body]
pub(crate) fn zip_data(archive: &[u8], index: usize) -> (r: (Vec<u8>, Option<String>))
    ensures
        match r.1 {
            None => zip_data_of(archive@, index as nat) == Ok::<Seq<u8>, Seq<char>>(r.0@),
            Some(e) => zip_data_of(archive@, index as nat) == Err::<Seq<u8>, Seq<char>>(e@),
        },
{
    let mut data: Vec<u8> = Vec::new();
    let read = match zip::ZipArchive::new(std::io::Cursor::new(archive)) {
        Ok(mut opened) => {
            let entry = opened.by_index(index).map_err(|e| e.to_string());
            entry.and_then(|mut e| e.read_to_end(&mut data).map_err(|e| e.to_string()))
        },
        Err(e) => Err(e.to_string()),
    };
    (data, read.err())
}

/// Whether `bytes` are what was read of an entry of an archive, to its end or up to an error.
pub closed spec fn was_read(archive: Seq<u8>, index: nat, bytes: Seq<u8>) -> bool {
    exists|given: &[u8], at: usize, r: (Vec<u8>, Option<String>)|
        given@ == archive && at == index && #[trigger] call_ensures(zip_data, (given, at), r)
            && r.0@ == bytes
}

/// The contents of an entry of a ZIP archive, as far as they could be read, and the error where they
/// could not be read to their end.
pub(crate) fn entry_data(archive: &[u8], index: usize) -> (r: (Vec<u8>, Option<String>))
    ensures
        match r.1 {
            None => zip_data_of(archive@, index as nat) == Ok::<Seq<u8>, Seq<char>>(r.0@),
            Some(e) => zip_data_of(archive@, index as nat) == Err::<Seq<u8>, Seq<char>>(e@),
        },
        was_read(archive@, index as nat, r.0@),
{
    zip_data(archive, index)
}

/// `dirs::download_dir`: the user's download folder, if the system has one. It depends on the
/// machine, so nothing is promised of it.
#[verifier::external_body]
pub(crate) fn download_dir() -> (r: Option<String>) {
    dirs::download_dir().map(|d| d.to_string_lossy().into_owned())
}

/// `dirs::video_dir`: the user's video folder, if the system has one. It depends on the machine,
/// so nothing is promised of it.
#[verifier::external_body]
pub(crate) fn video_dir() -> (r: Option<String>) {
    dirs::video_dir().map(|d| d.to_string_lossy().into_owned())
}

/// `dirs::audio_dir`: the user's music folder, if the system has one. It depends on the machine,
/// so nothing is promised of it.
#[verifier::external_body]
pub(crate) fn audio_dir() -> (r: Option<String>) {
    dirs::audio_dir().map(|d| d.to_string_lossy().into_owned())
}

} // verus!
