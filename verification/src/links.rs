//! Media links: which are accepted, and what their last path segment tells of the medium.

use crate::foreign::{
    self, before_query, begins_twice, fits_behind, is_web_link, keeps_path, last_component,
    finds_name, lowercase, lowers_ascii, names_path, slashed, url_of, without_drive, UrlModel,
    UrlParts,
};
use crate::names::{
    extension_dot, extension_of, is_path_extension, is_plain_name, lemma_file_name_of_one,
    lower_extension, lowers_extension, parts_in, path_extension, path_parts,
    plain_name_is_read_alike, sanitize_file_name, sanitized, stem_of,
};
use crate::text::{
    ascii_lowered, from_chars, matches_at, opt, outcome, replace, replaced, same, starts_with,
    to_chars, trim, trimmed, views,
};
use vstd::prelude::*;
use vstd::utf8::is_ascii_chars;

verus! {

/// What becomes of a trimmed text that was read as a URL, or was found to be none.
pub open spec fn link_verdict(text: Seq<char>, url: Option<UrlModel>) -> Result<
    Seq<char>,
    Seq<char>,
> {
    if text.len() == 0 {
        Err("Paste a media URL first."@)
    } else {
        match url {
            Some(u) => Ok(u.href),
            None => Err("That URL is not valid."@),
        }
    }
}

/// What becomes of a trimmed text that was read as a URL, or was found to be none.
pub fn judge_link(text: &str, url: Option<UrlParts>) -> (r: Result<String, String>)
    ensures
        outcome(r) == link_verdict(
            text@,
            match url {
                Some(u) => Some(u@),
                None => None,
            },
        ),
{
    if text.is_empty() {
        return Err(String::from_str("Paste a media URL first."));
    }
    match url {
        Some(u) => Ok(u.href),
        None => Err(String::from_str("That URL is not valid.")),
    }
}

/// The normal form of the URL that the user typed, or why it is refused.
pub open spec fn normal_link(value: Seq<char>) -> Result<Seq<char>, Seq<char>> {
    link_verdict(trimmed(value), url_of(trimmed(value)))
}

/// The normal form of the URL that the user typed, or why it is refused.
pub fn parse_url(value: &str) -> (r: Result<String, String>)
    ensures
        outcome(r) == normal_link(value@),
{
    let text = trim(value);
    let url = foreign::read_url(text.as_str());
    judge_link(text.as_str(), url)
}

/// `s` without the copies of `prefix` at its front.
pub open spec fn without_prefixes(s: Seq<char>, prefix: Seq<char>) -> Seq<char>
    decreases s.len(),
{
    if prefix.len() > 0 && prefix.is_prefix_of(s) {
        without_prefixes(s.skip(prefix.len() as int), prefix)
    } else {
        s
    }
}

/// `s` without the copies of `prefix` at its front.
pub fn trim_start_matches(s: &str, prefix: &str) -> (r: String)
    requires
        prefix@.len() > 0,
    ensures
        r@ == without_prefixes(s@, prefix@),
{
    let c = to_chars(s);
    let p = to_chars(prefix);
    let n: usize = c.len();
    let mut i: usize = 0;
    assert(c@.skip(0) =~= c@);
    while matches_at(&c, &p, i)
        invariant
            i <= n == c@.len(),
            c@ == s@,
            p@ == prefix@,
            prefix@.len() > 0,
            without_prefixes(s@, prefix@) == without_prefixes(c@.skip(i as int), prefix@),
        decreases c@.len() - i,
    {
        let ghost t = c@.skip(i as int);
        assert(t.take(prefix@.len() as int) =~= c@.subrange(i as int, i + prefix@.len()));
        assert(t.skip(prefix@.len() as int) =~= c@.skip(i + prefix@.len()));
        i = i + p.len();
    }
    proof {
        let t = c@.skip(i as int);
        if prefix@.is_prefix_of(t) {
            assert(c@.subrange(i as int, i + prefix@.len()) =~= t.take(prefix@.len() as int));
        }
        assert(t =~= c@.subrange(i as int, c@.len() as int));
    }
    from_chars(&c, i, c.len())
}

/// The host of a URL as it is compared: without leading `www.`, in lower case.
pub open spec fn bare_host(host: Seq<char>) -> Seq<char> {
    lowercase(without_prefixes(host, "www."@))
}

/// Whether a bare host is one of YouTube's.
pub open spec fn is_youtube(host: Seq<char>) -> bool {
    host == "youtube.com"@ || host == "m.youtube.com"@
}

/// Whether a path in lower case leads to a YouTube channel.
pub open spec fn is_channel_path(path: Seq<char>) -> bool {
    ||| "/@"@.is_prefix_of(path)
    ||| "/channel/"@.is_prefix_of(path)
    ||| "/c/"@.is_prefix_of(path)
    ||| "/user/"@.is_prefix_of(path)
}

/// Why a link is not to a medium, where that can be seen from its bare host and lower-case path.
pub open spec fn unsupported_page(host: Seq<char>, path: Seq<char>) -> Option<Seq<char>> {
    if is_youtube(host) && path == "/results"@ {
        Some("Please paste a direct YouTube video link, not a search page."@)
    } else if is_youtube(host) && is_channel_path(path) {
        Some("Please paste a direct YouTube video link, not a channel page."@)
    } else {
        None
    }
}

/// Why a link is not to a medium, where that can be seen from its bare host and lower-case path.
pub fn unsupported_page_message(host: &str, path: &str) -> (r: Option<String>)
    ensures
        opt(r) == unsupported_page(host@, path@),
{
    let is_yt = same(host, "youtube.com") || same(host, "m.youtube.com");
    if is_yt && same(path, "/results") {
        return Some(
            String::from_str("Please paste a direct YouTube video link, not a search page."),
        );
    }
    if is_yt && (starts_with(path, "/@") || starts_with(path, "/channel/") || starts_with(
        path,
        "/c/",
    ) || starts_with(path, "/user/")) {
        return Some(
            String::from_str("Please paste a direct YouTube video link, not a channel page."),
        );
    }
    None
}

/// Why a URL is not a link to a medium, where that can be seen from it.
pub open spec fn unsupported_url(url: Option<UrlModel>) -> Option<Seq<char>> {
    match url {
        Some(u) => match u.host {
            Some(host) => unsupported_page(bare_host(host), lowercase(u.path)),
            None => None,
        },
        None => None,
    }
}

/// Whether lower-casing does with an ASCII host and path of a URL what is known of it.
pub open spec fn lowers_page(url: Option<UrlModel>) -> bool {
    match url {
        Some(u) => match u.host {
            Some(host) => lowers_ascii(without_prefixes(host, "www."@)) && lowers_ascii(u.path),
            None => true,
        },
        None => true,
    }
}

/// Why a URL that was read is not a link to a medium, where that can be seen from it.
pub fn unsupported_parts_message(url: &UrlParts) -> (r: Option<String>)
    ensures
        opt(r) == unsupported_url(Some(url@)),
        lowers_page(Some(url@)),
{
    match &url.host {
        Some(h) => {
            proof {
                reveal_strlit("www.");
            }
            let bare = trim_start_matches(h.as_str(), "www.");
            let host = foreign::to_lowercase(bare.as_str());
            let path = foreign::to_lowercase(url.path.as_str());
            unsupported_page_message(host.as_str(), path.as_str())
        },
        None => None,
    }
}

/// Why a link is not to a medium, where that can be seen from the link; none for a text that is
/// no URL.
pub fn unsupported_url_message(url: &str) -> (r: Option<String>)
    ensures
        opt(r) == unsupported_url(url_of(url@)),
        lowers_page(url_of(url@)),
{
    match foreign::read_url(url) {
        Some(u) => unsupported_parts_message(&u),
        None => None,
    }
}

/// The last element of `segments` that is not empty.
pub open spec fn last_nonempty(segments: Seq<Seq<char>>) -> Option<Seq<char>>
    decreases segments.len(),
{
    if segments.len() == 0 {
        None
    } else if segments.last().len() > 0 {
        Some(segments.last())
    } else {
        last_nonempty(segments.drop_last())
    }
}

/// The last path segment of a URL that is not empty.
pub open spec fn segment_of(url: Option<UrlModel>) -> Option<Seq<char>> {
    match url {
        Some(u) => match u.segments {
            Some(list) => last_nonempty(list),
            None => None,
        },
        None => None,
    }
}

/// The last path segment of a URL that is not empty.
#[verifier::loop_isolation(false)]
pub fn last_segment_of(url: &UrlParts) -> (r: Option<String>)
    ensures
        opt(r) == segment_of(Some(url@)),
{
    match &url.segments {
        Some(list) => {
            let ghost v = views(list@);
            let mut i: usize = list.len();
            assert(v.take(i as int) =~= v);
            while i > 0
                invariant
                    i <= list@.len(),
                    v == views(list@),
                    last_nonempty(v) == last_nonempty(v.take(i as int)),
                decreases i,
            {
                assert(v.take(i as int).last() == list@[i - 1]@);
                if !list[i - 1].as_str().is_empty() {
                    return Some(list[i - 1].clone());
                }
                assert(v.take(i as int).drop_last() =~= v.take(i - 1));
                i = i - 1;
            }
            None
        },
        None => None,
    }
}

/// The last path segment of a link that is not empty.
pub fn last_segment(url: &str) -> (r: Option<String>)
    ensures
        opt(r) == segment_of(url_of(url@)),
        keeps_path(url@, url_of(url@)),
{
    match foreign::read_url(url) {
        Some(u) => last_segment_of(&u),
        None => None,
    }
}

/// Whether `ext` is the lower-case extension of the file that a link names in its last path
/// segment. It is fixed for the segments in which every system finds the same file name.
pub open spec fn is_link_extension(url: Seq<char>, ext: Option<Seq<char>>) -> bool {
    match segment_of(url_of(url)) {
        Some(segment) => is_path_extension(segment, ext),
        None => ext is None,
    }
}

/// The lower-case extension of the file that a link names in its last path segment.
pub fn url_extension(url: &str) -> (r: Option<String>)
    ensures
        is_link_extension(url@, opt(r)),
        keeps_path(url@, url_of(url@)),
{
    match last_segment(url) {
        Some(segment) => path_extension(segment.as_str()),
        None => None,
    }
}

/// The extensions of media files that are fetched without further ado.
pub open spec fn is_media_extension(ext: Seq<char>) -> bool {
    ||| ext == "mp4"@
    ||| ext == "mp3"@
    ||| ext == "wav"@
    ||| ext == "m4a"@
    ||| ext == "webm"@
    ||| ext == "ogg"@
    ||| ext == "mov"@
    ||| ext == "avi"@
}

/// Whether a link with the given lower-case extension leads to a media file.
pub fn is_direct_extension(ext: &Option<String>) -> (r: bool)
    ensures
        r == (opt(*ext) matches Some(e) && is_media_extension(e)),
{
    match ext {
        Some(e) => {
            let e = e.as_str();
            same(e, "mp4") || same(e, "mp3") || same(e, "wav") || same(e, "m4a") || same(e, "webm")
                || same(e, "ogg") || same(e, "mov") || same(e, "avi")
        },
        None => false,
    }
}

/// Whether `direct` tells if a link leads to a media file: it does where the extension of the file
/// that it names is that of a medium.
pub open spec fn tells_direct(url: Seq<char>, direct: bool) -> bool {
    exists|ext: Option<Seq<char>>| #[trigger]
        is_link_extension(url, ext) && direct == (ext matches Some(e) && is_media_extension(e))
}

/// Whether a link leads to a media file.
pub fn is_direct_media_url(url: &str) -> (r: bool)
    ensures
        tells_direct(url@, r),
        keeps_path(url@, url_of(url@)),
{
    let ext = url_extension(url);
    let r = is_direct_extension(&ext);
    assert(is_link_extension(url@, opt(ext)));
    r
}

/// The title that a file stem suggests: dashes and underscores are blanks.
pub open spec fn title_of(stem: Seq<char>) -> Seq<char> {
    sanitized(
        stem.map_values(
            |c: char|
                if c == '-' || c == '_' {
                    ' '
                } else {
                    c
                },
        ),
    )
}

/// The title that a file stem suggests.
pub fn title_from_stem(stem: &str) -> (r: String)
    ensures
        r@ == title_of(stem@),
{
    let c = to_chars(stem);
    let mut spaced = String::new();
    let mut i: usize = 0;
    let ghost blank = |c: char|
        if c == '-' || c == '_' {
            ' '
        } else {
            c
        };
    while i < c.len()
        invariant
            i <= c@.len(),
            c@ == stem@,
            blank == (|c: char|
                if c == '-' || c == '_' {
                    ' '
                } else {
                    c
                }),
            spaced@ == stem@.take(i as int).map_values(blank),
        decreases c.len() - i,
    {
        spaced.push(
            if c[i] == '-' || c[i] == '_' {
                ' '
            } else {
                c[i]
            },
        );
        i = i + 1;
        assert(stem@.take(i as int).map_values(blank) =~= stem@.take(i - 1).map_values(blank).push(
            blank(stem@[i - 1]),
        ));
    }
    assert(stem@.take(stem@.len() as int) =~= stem@);
    sanitize_file_name(spaced.as_str())
}

/// A path segment with its encoded blanks decoded.
pub open spec fn decoded_blanks(segment: Seq<char>) -> Seq<char> {
    replaced(segment, "%20"@, " "@)
}

/// Whether `title` is what the last path segment of a link suggests as a title.
pub open spec fn is_segment_title(segment: Option<Seq<char>>, title: Seq<char>) -> bool {
    match segment {
        Some(s) => exists|name: Option<Seq<char>>| #[trigger]
            finds_name(decoded_blanks(s), name) && title == title_of(
                parts_in(decoded_blanks(s), name).stem,
            ),
        None => title == "download"@,
    }
}

/// The title that the last path segment of a link suggests.
pub fn title_of_segment(segment: Option<String>) -> (r: String)
    ensures
        is_segment_title(opt(segment), r@),
{
    match segment {
        Some(s) => {
            proof {
                reveal_strlit("%20");
            }
            let decoded = replace(s.as_str(), "%20", " ");
            let parts = path_parts(decoded.as_str());
            title_from_stem(parts.stem.as_str())
        },
        None => String::from_str("download"),
    }
}

/// The title that a link suggests.
pub fn infer_title_from_url(url: &str) -> (r: String)
    ensures
        is_segment_title(segment_of(url_of(url@)), r@),
        keeps_path(url@, url_of(url@)),
{
    title_of_segment(last_segment(url))
}

/// Whether `segment` is a stem, a dot and the extension `ext`, neither of them empty.
pub open spec fn is_stem_and_extension(
    segment: Seq<char>,
    stem: Seq<char>,
    ext: Seq<char>,
) -> bool {
    stem.len() > 0 && ext.len() > 0 && !ext.contains('.') && segment == stem + seq!['.'] + ext
}

/// Whether every system finds the same extension in a path segment: it holds no separator, and
/// what looks like a drive letter in front of it is not all there is before its last dot.
pub open spec fn has_one_extension(segment: Seq<char>) -> bool {
    &&& !segment.contains('/')
    &&& !segment.contains('\\')
    &&& extension_of(without_drive(segment)) == extension_of(segment)
}

/// A text that is no link, or is one without a path segment, does not lead to a media file.
/// Another link does exactly where its last path segment that is not empty is a stem, a dot and
/// the extension of a medium in letters of any case; the system decides only where it is not the
/// same extension for all of them.
pub proof fn direct_link_by_segment(url: Seq<char>, direct: bool)
    requires
        tells_direct(url, direct),
    ensures
        url_of(url) is None ==> !direct,
        segment_of(url_of(url)) is None ==> !direct,
        segment_of(url_of(url)) matches Some(segment) ==> has_one_extension(segment) ==> (direct
            <==> exists|stem: Seq<char>, ext: Seq<char>| #[trigger]
            is_stem_and_extension(segment, stem, ext) && is_media_extension(lowercase(ext))),
{
    if let Some(segment) = segment_of(url_of(url)) {
        if has_one_extension(segment) {
            let ext = choose|ext: Option<Seq<char>>| #[trigger]
                is_link_extension(url, ext) && direct == (ext matches Some(e) && is_media_extension(
                    e,
                ));
            let name = choose|name: Option<Seq<char>>| #[trigger]
                finds_name(segment, name) && ext == lower_extension(name) && lowers_extension(name);
            lemma_one_extension(segment, name);
            lemma_stem_and_extension(segment);
            if let Some(n) = name {
                if let Some(e) = extension_of(n) {
                    if e.len() == 0 {
                        assert(is_ascii_chars(e));
                        assert(ascii_lowered(e) =~= e);
                        lemma_media_extensions();
                    }
                }
            }
        }
    }
}

/// No medium has an empty extension.
proof fn lemma_media_extensions()
    ensures
        forall|ext: Seq<char>| #[trigger] is_media_extension(ext) ==> ext.len() > 0,
{
    reveal_strlit("mp4");
    reveal_strlit("mp3");
    reveal_strlit("wav");
    reveal_strlit("m4a");
    reveal_strlit("webm");
    reveal_strlit("ogg");
    reveal_strlit("mov");
    reveal_strlit("avi");
}

/// A segment with one extension has it in what any system finds as its file name, or it is the
/// empty extension of a name that no system finds.
proof fn lemma_one_extension(segment: Seq<char>, name: Option<Seq<char>>)
    requires
        has_one_extension(segment),
        names_path(segment, name),
    ensures
        match name {
            Some(n) => extension_of(n) == extension_of(segment),
            None => extension_of(segment) matches Some(e) ==> e.len() == 0,
        },
{
    let rest = without_drive(segment);
    assert forall|i: int| 0 <= i < segment.len() implies segment[i] != '/' && segment[i]
        != '\\' by {
        assert(segment.contains(segment[i]));
    }
    assert(slashed(rest) =~= rest);
    assert(!begins_twice(segment));
    assert(name == last_component(segment) || name == last_component(rest));
    lemma_file_name_of_one(segment);
    lemma_file_name_of_one(rest);
    Seq::<char>::empty().index_of_last_ensures('.');
    seq!['.'].index_of_last_ensures('.');
    seq!['.', '.'].index_of_last_ensures('.');
    assert(seq!['.', '.'][1] == '.');
    match name {
        Some(n) => {
            assert(n == segment || n == rest);
            assert(extension_of(n) == extension_of(segment));
        },
        None => {
            let at = if last_component(segment) is None {
                segment
            } else {
                rest
            };
            assert(at.len() == 0 || at == seq!['.'] || at == seq!['.', '.']);
            assert(at.len() == 0 ==> at =~= Seq::<char>::empty());
            assert(extension_of(at) matches Some(e) ==> e.len() == 0);
        },
    }
}

/// The parts of a file name at its last dot.
proof fn lemma_stem_and_extension(segment: Seq<char>)
    ensures
        extension_of(segment) matches Some(e) ==> e.len() > 0 ==> is_stem_and_extension(
            segment,
            stem_of(segment),
            e,
        ),
        forall|stem: Seq<char>, ext: Seq<char>| #[trigger]
            is_stem_and_extension(segment, stem, ext) ==> extension_of(segment) == Some(ext),
{
    segment.index_of_last_ensures('.');
    if let Some(e) = extension_of(segment) {
        let at = extension_dot(segment)->0;
        if e.contains('.') {
            let i = choose|i: int| 0 <= i < e.len() && e[i] == '.';
            assert(segment[at + 1 + i] == '.');
        }
        assert(segment =~= segment.take(at) + seq!['.'] + segment.skip(at + 1));
    }
    assert forall|stem: Seq<char>, ext: Seq<char>| #[trigger]
        is_stem_and_extension(segment, stem, ext) implies extension_of(segment) == Some(ext) by {
        let at = stem.len() as int;
        assert(segment[at] == '.');
        assert forall|i: int| at < i < segment.len() implies segment[i] != '.' by {
            assert(segment[i] == ext[i - at - 1]);
            assert(ext.contains(ext[i - at - 1]));
        }
        assert(segment.skip(at + 1) =~= ext);
    }
}

proof fn lemma_before_query(link: Seq<char>, tail: Seq<char>)
    requires
        !link.contains('?'),
        !link.contains('#'),
        tail.len() == 0 || tail[0] == '?' || tail[0] == '#',
    ensures
        before_query(link + tail) == link,
    decreases link.len(),
{
    if link.len() == 0 {
        assert(link + tail =~= tail);
    } else {
        let rest = link.skip(1);
        assert((link + tail).skip(1) =~= rest + tail);
        assert(link.contains(link[0]));
        assert forall|c: char| rest.contains(c) implies link.contains(c) by {
            let i = choose|i: int| 0 <= i < rest.len() && rest[i] == c;
            assert(link[i + 1] == c);
        }
        lemma_before_query(rest, tail);
        assert(seq![link[0]] + rest =~= link);
    }
}

/// Neither a query nor a fragment behind a web link changes where it leads: the path segment that
/// counts is the same, and so is all that is told by it. That the host and the path stay is what
/// the functions of this module that read links say of every text that they are given; the link
/// ends in no blank, and what is behind it fits into a URL.
pub proof fn query_changes_nothing(
    link: Seq<char>,
    tail: Seq<char>,
    direct: bool,
    direct_with_tail: bool,
)
    requires
        !link.contains('?'),
        !link.contains('#'),
        tail.len() > 0 && (tail[0] == '?' || tail[0] == '#'),
        url_of(link) matches Some(u) && is_web_link(u.href) && fits_behind(u.href, link + tail),
        link.last() > ' ',
        keeps_path(link + tail, url_of(link + tail)),
        tells_direct(link, direct),
        tells_direct(link + tail, direct_with_tail),
    ensures
        url_of(link + tail) is Some,
        segment_of(url_of(link + tail)) == segment_of(url_of(link)),
        unsupported_url(url_of(link + tail)) == unsupported_url(url_of(link)),
        forall|ext: Option<Seq<char>>|
            is_link_extension(link + tail, ext) == #[trigger] is_link_extension(link, ext),
        forall|d: bool| tells_direct(link + tail, d) == #[trigger] tells_direct(link, d),
        (segment_of(url_of(link)) matches Some(segment) ==> has_one_extension(segment))
            ==> direct_with_tail == direct,
{
    lemma_before_query(link, tail);
    assert forall|ext: Option<Seq<char>>|
        is_link_extension(link + tail, ext) == #[trigger] is_link_extension(link, ext) by {}
    assert forall|d: bool| tells_direct(link + tail, d) == #[trigger] tells_direct(link, d) by {
        if tells_direct(link, d) {
            let ext = choose|ext: Option<Seq<char>>| #[trigger]
                is_link_extension(link, ext) && d == (ext matches Some(e) && is_media_extension(e));
            assert(is_link_extension(link + tail, ext));
        }
        if tells_direct(link + tail, d) {
            let ext = choose|ext: Option<Seq<char>>| #[trigger]
                is_link_extension(link + tail, ext) && d == (ext matches Some(e)
                    && is_media_extension(e));
            assert(is_link_extension(link, ext));
        }
    }
    direct_link_by_segment(link, direct);
    direct_link_by_segment(link + tail, direct_with_tail);
}

/// What is left of a text without the copies of another at its front does not begin with one any
/// more, and what was taken away is made of them.
pub proof fn prefixes_are_taken_away(s: &str, prefix: &str, r: String)
    requires
        prefix@.len() > 0,
        call_ensures(trim_start_matches, (s, prefix), r),
    ensures
        !prefix@.is_prefix_of(r@),
        exists|n: nat| s@ == #[trigger] copies(prefix@, n) + r@,
{
    let n = lemma_without_prefixes(s@, prefix@);
}

/// A text written a number of times in a row.
pub open spec fn copies(s: Seq<char>, n: nat) -> Seq<char>
    decreases n,
{
    if n == 0 {
        Seq::empty()
    } else {
        s + copies(s, (n - 1) as nat)
    }
}

proof fn lemma_without_prefixes(s: Seq<char>, prefix: Seq<char>) -> (n: nat)
    requires
        prefix.len() > 0,
    ensures
        !prefix.is_prefix_of(without_prefixes(s, prefix)),
        s == copies(prefix, n) + without_prefixes(s, prefix),
    decreases s.len(),
{
    if prefix.is_prefix_of(s) {
        let rest = s.skip(prefix.len() as int);
        let n = lemma_without_prefixes(rest, prefix);
        assert(copies(prefix, n + 1) == prefix + copies(prefix, n));
        assert(s =~= prefix + rest);
        assert(s =~= copies(prefix, n + 1) + without_prefixes(s, prefix));
        n + 1
    } else {
        assert(s =~= copies(prefix, 0) + s);
        0
    }
}

/// The pages of YouTube that hold no single video are its search page and those of a channel, with
/// or without `www.` before the host and in letters of any case; no other page is refused.
pub proof fn pages_without_a_video_are_refused(host: &str, path: &str, r: Option<String>)
    requires
        call_ensures(unsupported_page_message, (host, path), r),
    ensures
        ({
            let youtube = host@ == "youtube.com"@ || host@ == "m.youtube.com"@;
            let channel = "/@"@.is_prefix_of(path@) || "/channel/"@.is_prefix_of(path@)
                || "/c/"@.is_prefix_of(path@) || "/user/"@.is_prefix_of(path@);
            &&& !youtube ==> r is None
            &&& youtube && path@ == "/results"@ ==> opt(r) == Some(
                "Please paste a direct YouTube video link, not a search page."@,
            )
            &&& youtube && path@ != "/results"@ && channel ==> opt(r) == Some(
                "Please paste a direct YouTube video link, not a channel page."@,
            )
            &&& path@ != "/results"@ && !channel ==> r is None
        }),
{
}

/// A link is judged by its host without leading `www.` and its path, both in lower case; a text
/// that is no link, or names no host, is not refused for its page.
pub proof fn pages_are_judged_by_host_and_path(url: &str, r: Option<String>)
    requires
        call_ensures(unsupported_url_message, (url,), r),
    ensures
        opt(r) == (match url_of(url@) {
            Some(u) => match u.host {
                Some(host) => unsupported_page(
                    lowercase(without_prefixes(host, "www."@)),
                    lowercase(u.path),
                ),
                None => None,
            },
            None => None,
        }),
{
}

proof fn lemma_last_nonempty(segments: Seq<Seq<char>>)
    ensures
        last_nonempty(segments) matches Some(s) ==> s.len() > 0 && exists|k: int|
            0 <= k < segments.len() && #[trigger] segments[k] == s && forall|j: int|
                k < j < segments.len() ==> (#[trigger] segments[j]).len() == 0,
        last_nonempty(segments) is None ==> forall|j: int|
            0 <= j < segments.len() ==> (#[trigger] segments[j]).len() == 0,
    decreases segments.len(),
{
    if segments.len() > 0 {
        let n = segments.len() - 1;
        let front = segments.drop_last();
        if segments.last().len() > 0 {
            assert(segments[n] == segments.last());
        } else {
            lemma_last_nonempty(front);
            if let Some(s) = last_nonempty(front) {
                let k = choose|k: int|
                    0 <= k < front.len() && #[trigger] front[k] == s && forall|j: int|
                        k < j < front.len() ==> (#[trigger] front[j]).len() == 0;
                assert(segments[k] == s);
                assert forall|j: int| k < j < segments.len() implies (
                #[trigger] segments[j]).len() == 0 by {
                    if j < n {
                        assert(front[j] == segments[j]);
                    }
                }
            } else {
                assert forall|j: int| 0 <= j < segments.len() implies (
                #[trigger] segments[j]).len() == 0 by {
                    if j < n {
                        assert(front[j] == segments[j]);
                    }
                }
            }
        }
    }
}

/// The segment that counts is the last of the path that is not empty; there is none only where all
/// are, or the link has no path of segments.
pub proof fn last_segment_counts(url: &str, r: Option<String>)
    requires
        call_ensures(last_segment, (url,), r),
    ensures
        url_of(url@) is None ==> r is None,
        url_of(url@) matches Some(u) ==> match u.segments {
            Some(list) => match r {
                Some(s) => s@.len() > 0 && exists|k: int|
                    0 <= k < list.len() && #[trigger] list[k] == s@ && forall|j: int|
                        k < j < list.len() ==> (#[trigger] list[j]).len() == 0,
                None => forall|j: int|
                    0 <= j < list.len() ==> (#[trigger] list[j]).len() == 0,
            },
            None => r is None,
        },
{
    if let Some(u) = url_of(url@) {
        if let Some(list) = u.segments {
            lemma_last_nonempty(list);
        }
    }
}

/// The title that a file suggests is its stem, where dashes and underscores count as blanks, as a
/// file name is made of it; without a file it is that of a download like any other.
pub proof fn title_is_made_of_the_stem(
    stem: &str,
    spaced: Seq<char>,
    r: String,
    nameless: String,
)
    requires
        call_ensures(title_from_stem, (stem,), r),
        call_ensures(title_of_segment, (None,), nameless),
        spaced.len() == stem@.len(),
        forall|i: int|
            0 <= i < spaced.len() ==> #[trigger] spaced[i] == if stem@[i] == '-' || stem@[i] == '_' {
                ' '
            } else {
                stem@[i]
            },
    ensures
        r@ == sanitized(spaced),
        nameless@ == "download"@,
{
    assert(spaced =~= stem@.map_values(
        |c: char|
            if c == '-' || c == '_' {
                ' '
            } else {
                c
            },
    ));
}

/// A link to a file suggests the stem of that file as a title, with its encoded blanks decoded.
pub proof fn link_suggests_the_stem(
    segment: String,
    decoded: &str,
    stem: &str,
    ext: Seq<char>,
    r: String,
    title: String,
)
    requires
        decoded@ == replaced(segment@, "%20"@, " "@),
        is_plain_name(decoded@),
        is_stem_and_extension(decoded@, stem@, ext),
        call_ensures(title_of_segment, (Some(segment),), r),
        call_ensures(title_from_stem, (stem,), title),
    ensures
        r@ == title@,
{
    lemma_stem_and_extension(decoded@);
    assert forall|name: Option<Seq<char>>| #[trigger] finds_name(decoded@, name) implies name
        == Some(decoded@) by {
        plain_name_is_read_alike(decoded@, name);
    }
    let at = stem@.len() as int;
    decoded@.index_of_last_ensures('.');
    assert(decoded@[at] == '.');
    assert forall|i: int| at < i < decoded@.len() implies decoded@[i] != '.' by {
        assert(decoded@[i] == ext[i - at - 1]);
        assert(ext.contains(ext[i - at - 1]));
    }
    assert(stem_of(decoded@) =~= stem@);
}

/// A file is fetched straight from its link exactly where its extension is that of a medium.
pub proof fn media_extensions_are_eight(ext: Option<String>, r: bool)
    requires
        call_ensures(is_direct_extension, (&ext,), r),
    ensures
        opt(ext) == Some("mp4"@) || opt(ext) == Some("mp3"@) || opt(ext) == Some("wav"@) || opt(ext)
            == Some("m4a"@) || opt(ext) == Some("webm"@) || opt(ext) == Some("ogg"@) || opt(ext)
            == Some("mov"@) || opt(ext) == Some("avi"@) <==> r,
{
}

/// A link leads to a media file exactly where its last path segment that is not empty is a stem, a
/// dot and one of the extensions of media in letters of any case; only where systems read the
/// segment differently, the system decides.
pub proof fn direct_links_are_known_by_extension(
    url: &str,
    segment: Seq<char>,
    stem: Seq<char>,
    ext: Seq<char>,
    lower: Option<String>,
    is_medium: bool,
    r: bool,
)
    requires
        call_ensures(is_direct_media_url, (url,), r),
        segment_of(url_of(url@)) == Some(segment),
        has_one_extension(segment),
        is_stem_and_extension(segment, stem, ext),
        opt(lower) == Some(lowercase(ext)),
        call_ensures(is_direct_extension, (&lower,), is_medium),
    ensures
        r == is_medium,
{
    direct_link_by_segment(url@, r);
    lemma_stem_and_extension(segment);
    if r {
        let (s, e) = choose|s: Seq<char>, e: Seq<char>| #[trigger]
            is_stem_and_extension(segment, s, e) && is_media_extension(lowercase(e));
        assert(extension_of(segment) == Some(e));
        assert(extension_of(segment) == Some(ext));
    }
}

/// A text that the user typed is read without the blanks around it: as nothing, as a link, whose
/// normal form comes out, or as no link.
pub proof fn typed_links_are_read(value: &str, r: Result<String, String>)
    requires
        call_ensures(parse_url, (value,), r),
    ensures
        trimmed(value@).len() == 0 ==> (r matches Err(e) && e@ == "Paste a media URL first."@),
        trimmed(value@).len() > 0 ==> match url_of(trimmed(value@)) {
            Some(u) => r matches Ok(link) && link@ == u.href,
            None => r matches Err(e) && e@ == "That URL is not valid."@,
        },
{
}

/// The extension of a link is that of its last path segment, in lower case, where all systems find
/// the same; a link without a segment has none, and suggests the title of any download.
pub proof fn link_extension_is_of_the_segment(
    url: &str,
    extension: Option<String>,
    title: String,
)
    requires
        call_ensures(url_extension, (url,), extension),
        call_ensures(infer_title_from_url, (url,), title),
    ensures
        segment_of(url_of(url@)) is None ==> extension is None && title@ == "download"@,
        segment_of(url_of(url@)) matches Some(segment) ==> has_one_extension(segment) ==> match opt(
            extension,
        ) {
            Some(lower) => exists|stem: Seq<char>, ext: Seq<char>|
                stem.len() > 0 && !ext.contains('.') && segment == #[trigger] (stem + "."@ + ext)
                    && lower == lowercase(ext),
            None => forall|stem: Seq<char>, ext: Seq<char>| !#[trigger] is_stem_and_extension(
                segment,
                stem,
                ext,
            ),
        },
{
    if let Some(segment) = segment_of(url_of(url@)) {
        if has_one_extension(segment) {
            let name = choose|name: Option<Seq<char>>| #[trigger]
                finds_name(segment, name) && opt(extension) == lower_extension(name)
                    && lowers_extension(name);
            lemma_one_extension(segment, name);
            lemma_stem_and_extension(segment);
            reveal_strlit(".");
            if extension is Some {
                segment.index_of_last_ensures('.');
                let at = extension_dot(segment)->0;
                let ext = segment.skip(at + 1);
                assert(segment =~= segment.take(at) + "."@ + ext);
                if ext.contains('.') {
                    let i = choose|i: int| 0 <= i < ext.len() && ext[i] == '.';
                    assert(segment[at + 1 + i] == '.');
                }
            } else {
                assert forall|stem: Seq<char>, ext: Seq<char>| !#[trigger] is_stem_and_extension(
                    segment,
                    stem,
                    ext,
                ) by {
                    if is_stem_and_extension(segment, stem, ext) {
                        assert(extension_of(segment) == Some(ext));
                    }
                }
            }
        }
    }
}

} // verus!
