//! The stream finder: which requests of a page are streams, and when its window is shown.

use crate::engine::Platform;
use crate::foreign::{self, lowercase, lowers_ascii, url_of};
use crate::links::{normal_link, parse_url};
use crate::text::{contains, has, occurs_at, step_outcome};
use vstd::hash_set::StringHashSet;
use vstd::prelude::*;

verus! {

/// How long a finder window stays hidden, in seconds.
pub const REVEAL_AFTER_SECS: u64 = 10;

/// How many pauses a closed window has to go, at most.
pub const CLOSE_TRIES: u32 = 100;

/// How long each of these pauses is, in milliseconds.
pub const CLOSE_PAUSE_MS: u64 = 20;

/// Whether a closed window has another pause to go, after `tries` of them.
pub fn wait_for_close(tries: u32, gone: bool) -> (r: bool)
    ensures
        r == (!gone && tries < CLOSE_TRIES),
{
    !gone && tries < CLOSE_TRIES
}

/// The state of the stream finder.
#[derive(PartialEq, Eq, Structural, Clone, Copy)]
pub struct SnifferState {
    /// Whether a stream was found since the window was opened.
    pub found_any: bool,
    /// The number of the window that was opened last.
    pub generation: usize,
}

/// A stream that was found.
pub struct FoundStream {
    pub page_url: String,
    pub stream_url: String,
    pub kind: String,
}

/// The model of `FoundStream`.
#[verifier::ext_equal]
pub struct StreamModel {
    pub page_url: Seq<char>,
    pub stream_url: Seq<char>,
    pub kind: Seq<char>,
}

impl View for FoundStream {
    type V = StreamModel;

    open spec fn view(&self) -> StreamModel {
        StreamModel {
            page_url: self.page_url@,
            stream_url: self.stream_url@,
            kind: self.kind@,
        }
    }
}

/// The number of the window after the one numbered `generation`.
pub open spec fn next_generation(generation: usize) -> usize {
    if generation == usize::MAX {
        0
    } else {
        (generation + 1) as usize
    }
}

/// The link of a page that is opened in the finder, or why it is refused.
pub open spec fn page_checked(url: Seq<char>) -> Result<Seq<char>, Seq<char>> {
    match normal_link(url) {
        Ok(page) => if url_of(page) is Some {
            Ok(page)
        } else {
            Err("That URL is not valid."@)
        },
        Err(e) => Err(e),
    }
}

/// A finder window that is to be opened.
pub struct Window {
    pub page_url: String,
    pub generation: usize,
}

/// Whether the window numbered `generation`, which found nothing for a while, is shown.
pub open spec fn reveals(state: SnifferState, generation: usize) -> bool {
    state.generation == generation && !state.found_any
}

impl SnifferState {
    /// No window was opened yet.
    pub fn new() -> (r: SnifferState)
        ensures
            r == (SnifferState { found_any: false, generation: 0 }),
    {
        SnifferState { found_any: false, generation: 0 }
    }

    /// Opens a window for a page, or says why it is refused and changes nothing.
    pub fn open_sniffer(&mut self, url: &str) -> (r: Result<Window, String>)
        ensures
            match r {
                Ok(window) => {
                    &&& page_checked(url@) == Ok::<Seq<char>, Seq<char>>(window.page_url@)
                    &&& window.generation == next_generation(old(self).generation)
                    &&& *final(self) == (SnifferState {
                        found_any: false,
                        generation: window.generation,
                    })
                },
                Err(e) => page_checked(url@) == Err::<Seq<char>, Seq<char>>(e@) && *final(self)
                    == *old(self),
            },
    {
        let page_url = match parse_url(url) {
            Ok(page) => page,
            Err(e) => {
                return Err(e);
            },
        };
        if foreign::read_url(page_url.as_str()).is_none() {
            return Err(String::from_str("That URL is not valid."));
        }
        let generation: usize = if self.generation == usize::MAX {
            0
        } else {
            self.generation + 1
        };
        self.found_any = false;
        self.generation = generation;
        Ok(Window { page_url, generation })
    }

    /// Whether the window numbered `generation`, which found nothing for a while, is shown.
    pub fn should_reveal(&self, generation: usize) -> (r: bool)
        ensures
            r == reveals(*self, generation),
    {
        self.generation == generation && !self.found_any
    }

    /// Notes a stream that a page reported.
    pub fn report_stream(&mut self, page_url: String, stream_url: String, kind: String) -> (r:
        FoundStream)
        ensures
            *final(self) == (SnifferState { found_any: true, ..*old(self) }),
            r@ == (StreamModel { page_url: page_url@, stream_url: stream_url@, kind: kind@ }),
    {
        self.found_any = true;
        FoundStream { page_url, stream_url, kind }
    }
}

/// Whether a link in lower case is that of a list of streams.
pub open spec fn names_manifest(lower: Seq<char>) -> bool {
    has(lower, ".m3u8"@) || has(lower, ".mpd"@) || has(lower, ".f4m"@) || has(
        lower,
        "format=m3u8"@,
    )
}

/// Whether a link in lower case is that of a list of streams.
pub fn is_manifest_name(lower: &str) -> (r: bool)
    ensures
        r == names_manifest(lower@),
{
    contains(lower, ".m3u8") || contains(lower, ".mpd") || contains(lower, ".f4m") || contains(
        lower,
        "format=m3u8",
    )
}

/// Whether a link is that of a list of streams.
pub fn is_manifest(uri: &str) -> (r: bool)
    ensures
        r == names_manifest(lowercase(uri@)),
        lowers_ascii(uri@),
{
    let lower = foreign::to_lowercase(uri);
    is_manifest_name(lower.as_str())
}

/// The kind of the streams that a list with the given link in lower case holds.
pub open spec fn stream_kind(lower: Seq<char>) -> Seq<char> {
    if has(lower, ".mpd"@) {
        "dash"@
    } else {
        "hls"@
    }
}

/// The kind of the streams that a list with the given link in lower case holds.
pub fn kind_of(lower: &str) -> (r: String)
    ensures
        r@ == stream_kind(lower@),
{
    if contains(lower, ".mpd") {
        String::from_str("dash")
    } else {
        String::from_str("hls")
    }
}

/// The stream that a request of a page finds: a list of streams that was not seen before.
pub open spec fn observed(seen: Set<Seq<char>>, page_url: Seq<char>, uri: Seq<char>) -> Option<
    StreamModel,
> {
    if names_manifest(lowercase(uri)) && !seen.contains(uri) {
        Some(StreamModel { page_url, stream_url: uri, kind: stream_kind(lowercase(uri)) })
    } else {
        None
    }
}

/// The lists of streams that a finder window has seen.
pub struct Seen {
    pub links: StringHashSet,
}

impl View for Seen {
    type V = Set<Seq<char>>;

    open spec fn view(&self) -> Set<Seq<char>> {
        self.links@
    }
}

impl Seen {
    /// Nothing was seen yet.
    pub fn new() -> (r: Seen)
        ensures
            r@ == Set::<Seq<char>>::empty(),
    {
        Seen { links: StringHashSet::new() }
    }

    /// Notes a request of a page, and returns the stream that it finds: a list of streams that was
    /// not seen before.
    pub fn observe(&mut self, state: &mut SnifferState, page_url: &str, uri: &str) -> (r: Option<
        FoundStream,
    >)
        ensures
            match r {
                Some(stream) => {
                    &&& observed(old(self)@, page_url@, uri@) == Some(stream@)
                    &&& final(self)@ == old(self)@.insert(uri@)
                    &&& *final(state) == (SnifferState { found_any: true, ..*old(state) })
                },
                None => {
                    &&& observed(old(self)@, page_url@, uri@) is None
                    &&& final(self)@ == old(self)@
                    &&& *final(state) == *old(state)
                },
            },
            lowers_ascii(uri@),
    {
        let lower = foreign::to_lowercase(uri);
        if !is_manifest_name(lower.as_str()) || self.links.contains(uri) {
            return None;
        }
        self.links.insert(uri.to_owned());
        let kind = kind_of(lower.as_str());
        Some(state.report_stream(page_url.to_owned(), uri.to_owned(), kind))
    }
}

/// Whether the stored data of the finder's pages can be cleared.
pub open spec fn clearing(platform: Platform) -> Result<(), Seq<char>> {
    if platform == Platform::Windows {
        Ok(())
    } else {
        Err("Clearing finder data isn't supported on this platform yet."@)
    }
}

/// Whether the stored data of the finder's pages can be cleared.
pub fn clear_finder_data(platform: Platform) -> (r: Result<(), String>)
    ensures
        step_outcome(r) == clearing(platform),
{
    if platform == Platform::Windows {
        Ok(())
    } else {
        Err(String::from_str("Clearing finder data isn't supported on this platform yet."))
    }
}

/// A window is not shown once another is the last that was opened, nor once a stream was found;
/// and a window never has the number of the one that was opened before it.
pub proof fn stale_window_stays_hidden(generation: usize, state: SnifferState)
    requires
        state.generation != generation || state.found_any,
    ensures
        !reveals(state, generation),
        next_generation(generation) != generation,
{
}

/// A window reports a list of streams once, and what it reported does not keep it from reporting
/// others.
pub proof fn stream_is_reported_once(
    seen: Set<Seq<char>>,
    page_url: Seq<char>,
    uri: Seq<char>,
    other: Seq<char>,
)
    ensures
        observed(seen.insert(uri), page_url, uri) is None,
        other != uri ==> observed(seen.insert(uri), page_url, other) == observed(
            seen,
            page_url,
            other,
        ),
{
}

/// A request is for a list of streams exactly where its link names one of the known kinds of lists
/// in letters of any case; streams of the one kind are told from those of the other by it.
pub proof fn lists_of_streams_are_known(uri: &str, lower: &str, r: bool, kind: String)
    requires
        call_ensures(is_manifest, (uri,), r),
        lower@ == lowercase(uri@),
        call_ensures(kind_of, (lower,), kind),
    ensures
        ({
            let names = |part: Seq<char>|
                exists|a: Seq<char>, b: Seq<char>| lower@ == #[trigger] (a + part + b);
            &&& r <==> names(".m3u8"@) || names(".mpd"@) || names(".f4m"@) || names("format=m3u8"@)
            &&& names(".mpd"@) ==> kind@ == "dash"@
            &&& !names(".mpd"@) ==> kind@ == "hls"@
        }),
{
    lemma_named(lower@, ".m3u8"@);
    lemma_named(lower@, ".mpd"@);
    lemma_named(lower@, ".f4m"@);
    lemma_named(lower@, "format=m3u8"@);
}

proof fn lemma_named(s: Seq<char>, part: Seq<char>)
    ensures
        has(s, part) <==> exists|a: Seq<char>, b: Seq<char>| s == #[trigger] (a + part + b),
{
    let n = part.len() as int;
    if has(s, part) {
        let at = choose|at: int| occurs_at(s, part, at);
        assert(s.take(at) + part + s.skip(at + n) =~= s) by {
            assert forall|i: int| at <= i < at + n implies s[i] == part[i - at] by {
                assert(s.subrange(at, at + n)[i - at] == s[i]);
            }
        }
    }
    if exists|a: Seq<char>, b: Seq<char>| s == #[trigger] (a + part + b) {
        let (a, b) = choose|a: Seq<char>, b: Seq<char>| s == #[trigger] (a + part + b);
        assert(s.subrange(a.len() as int, a.len() + n) =~= part);
        assert(occurs_at(s, part, a.len() as int));
    }
}

/// A window finds the requests for lists of streams, each once: what it finds names the page and
/// the very link of the request, it is remembered, and the window counts as one that found
/// something. Any other request leaves everything as it is.
pub proof fn each_list_is_found_once(
    seen: &mut Seen,
    state: &mut SnifferState,
    page_url: &str,
    uri: &str,
    r: Option<FoundStream>,
    lists_streams: bool,
    other: Seq<char>,
)
    requires
        call_ensures(Seen::observe, (seen, state, page_url, uri), r),
        call_ensures(is_manifest, (uri,), lists_streams),
    ensures
        r is Some <==> lists_streams && !old(seen).links@.contains(uri@),
        r matches Some(found) ==> {
            &&& found.page_url@ == page_url@
            &&& found.stream_url@ == uri@
            &&& final(seen).links@.contains(uri@)
            &&& final(state).found_any
            &&& final(state).generation == old(state).generation
        },
        r is None ==> *final(state) == *old(state) && final(seen).links@ == old(seen).links@,
        other != uri@ ==> final(seen).links@.contains(other) == old(seen).links@.contains(other),
{
}

/// A window opens for the very page that was asked for, in its normal form, under a number that the
/// window before it does not have, and counts as one that found nothing; a page that is no link is
/// refused, and nothing changes.
pub proof fn window_opens_for_its_page(
    state: &mut SnifferState,
    url: &str,
    r: Result<Window, String>,
)
    requires
        call_ensures(SnifferState::open_sniffer, (state, url), r),
    ensures
        r matches Ok(window) ==> {
            &&& normal_link(url@) matches Ok(page) && window.page_url@ == page && url_of(page)
                is Some
            &&& window.generation != old(state).generation
            &&& window.generation == old(state).generation + 1 || old(state).generation
                == usize::MAX
            &&& final(state).generation == window.generation
            &&& !final(state).found_any
        },
        r is Err ==> *final(state) == *old(state),
        normal_link(url@) matches Err(message) ==> (r matches Err(e) && e@ == message),
        normal_link(url@) matches Ok(page) ==> url_of(page) is Some ==> r is Ok,
{
}

/// A window is shown exactly where it is the last that was opened and found nothing; what a page
/// reports is passed on as it is, and keeps the window hidden.
pub proof fn idle_window_is_shown(
    state: &mut SnifferState,
    generation: usize,
    shown: bool,
    page_url: String,
    stream_url: String,
    kind: String,
    found: FoundStream,
)
    ensures
        call_ensures(SnifferState::should_reveal, (&*old(state), generation), shown) ==> (shown
            <==> old(state).generation == generation && !old(state).found_any),
        call_ensures(SnifferState::report_stream, (state, page_url, stream_url, kind), found) ==> {
            &&& found.page_url@ == page_url@
            &&& found.stream_url@ == stream_url@
            &&& found.kind@ == kind@
            &&& final(state).found_any
            &&& final(state).generation == old(state).generation
        },
{
}

/// A closed window has at most a hundred pauses to go, and none once it is gone.
pub proof fn closing_is_waited_for(tries: u32, gone: bool, r: bool)
    requires
        call_ensures(wait_for_close, (tries, gone), r),
    ensures
        r <==> !gone && tries < 100,
{
}

/// The stored data of the finder can be cleared on one system alone, and no other is said to have
/// done it.
pub proof fn clearing_needs_support(platform: Platform, r: Result<(), String>)
    requires
        call_ensures(clear_finder_data, (platform,), r),
    ensures
        r is Ok <==> platform == Platform::Windows,
        r matches Err(e) ==> e@ == "Clearing finder data isn't supported on this platform yet."@,
{
}

/// No window was opened and nothing was seen in the beginning, so that the first list of streams
/// that is requested is found.
pub proof fn finder_begins_fresh(state: SnifferState, seen: Seen, link: Seq<char>)
    requires
        call_ensures(SnifferState::new, (), state),
        call_ensures(Seen::new, (), seen),
    ensures
        !state.found_any,
        state.generation == 0,
        !seen.links@.contains(link),
{
}

} // verus!
