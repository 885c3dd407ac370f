//! Requests for downloads: which are accepted, and the job that an accepted one becomes.

use crate::foreign::{self, is_uuid_text, url_of};
use crate::job::{Job, JobModel};
use crate::links::{
    infer_title_from_url, is_direct_media_url, is_segment_title, lowers_page, normal_link,
    parse_url, segment_of, tells_direct, unsupported_url, unsupported_url_message,
};
use crate::store::JobStore;
use crate::text::{
    from_chars, is_blank, is_space, opt, outcome, same, to_chars, trim, trimmed,
    trimmed_is_between_blanks,
};
use vstd::prelude::*;

verus! {

/// The normal form of a link to a medium that the user typed, or why it is refused.
pub open spec fn link_checked(value: Seq<char>) -> Result<Seq<char>, Seq<char>> {
    match normal_link(value) {
        Ok(url) => match unsupported_url(url_of(url)) {
            Some(message) => Err(message),
            None => Ok(url),
        },
        Err(e) => Err(e),
    }
}

/// The normal form of a link to a medium that the user typed, or why it is refused.
pub fn check_link(value: &str) -> (r: Result<String, String>)
    ensures
        outcome(r) == link_checked(value@),
        normal_link(value@) matches Ok(url) ==> lowers_page(url_of(url)),
{
    match parse_url(value) {
        Ok(url) => match unsupported_url_message(url.as_str()) {
            Some(message) => Err(message),
            None => Ok(url),
        },
        Err(e) => Err(e),
    }
}

/// The formats that a download can have.
pub open spec fn is_preset(preset: Seq<char>) -> bool {
    preset == "mp4"@ || preset == "mp3"@ || preset == "wav"@
}

/// The normal form of a link that is to be downloaded in a format, or why that is refused.
pub open spec fn request_checked(value: Seq<char>, preset: Seq<char>) -> Result<
    Seq<char>,
    Seq<char>,
> {
    match link_checked(value) {
        Ok(url) => if is_preset(preset) {
            Ok(url)
        } else {
            Err("Choose MP4, MP3, or WAV."@)
        },
        Err(e) => Err(e),
    }
}

/// The normal form of a link that is to be downloaded in a format, or why that is refused.
pub fn check_request(value: &str, preset: &str) -> (r: Result<String, String>)
    ensures
        outcome(r) == request_checked(value@, preset@),
        normal_link(value@) matches Ok(url) ==> lowers_page(url_of(url)),
{
    match check_link(value) {
        Ok(url) => if same(preset, "mp4") || same(preset, "mp3") || same(preset, "wav") {
            Ok(url)
        } else {
            Err(String::from_str("Choose MP4, MP3, or WAV."))
        },
        Err(e) => Err(e),
    }
}

/// A text without the white space around it, where anything is left.
pub open spec fn stated(value: Option<Seq<char>>) -> Option<Seq<char>> {
    match value {
        Some(v) if trimmed(v).len() > 0 => Some(trimmed(v)),
        _ => None,
    }
}

/// A text without the white space around it, where anything is left.
pub fn state(value: Option<String>) -> (r: Option<String>)
    ensures
        opt(r) == stated(opt(value)),
{
    match value {
        Some(v) => {
            let t = trim(v.as_str());
            if t.as_str().is_empty() {
                None
            } else {
                Some(t)
            }
        },
        None => None,
    }
}

/// Whether `title` is the title of a job for the link `url`: the one that was asked for, or what
/// a link to a media file suggests, or `Download`.
pub open spec fn is_job_title(url: Seq<char>, asked: Option<Seq<char>>, title: Seq<char>) -> bool {
    match stated(asked) {
        Some(t) => title == t,
        None => exists|direct: bool| #[trigger]
            tells_direct(url, direct) && if direct {
                is_segment_title(segment_of(url_of(url)), title)
            } else {
                title == "Download"@
            },
    }
}

/// The title of a job for the link `url`.
pub fn job_title(url: &str, asked: Option<String>) -> (r: String)
    ensures
        is_job_title(url@, opt(asked), r@),
{
    match state(asked) {
        Some(t) => t,
        None => {
            let direct = is_direct_media_url(url);
            assert(tells_direct(url@, direct));
            if direct {
                infer_title_from_url(url)
            } else {
                String::from_str("Download")
            }
        },
    }
}

/// What the user asks for.
pub struct DownloadRequest {
    pub url: String,
    pub preset: String,
    pub title: Option<String>,
    pub thumbnail: Option<String>,
    pub auto_open: Option<bool>,
    pub auto_reveal: Option<bool>,
    pub referer: Option<String>,
}

/// The model of `DownloadRequest`.
#[verifier::ext_equal]
pub struct RequestModel {
    pub url: Seq<char>,
    pub preset: Seq<char>,
    pub title: Option<Seq<char>>,
    pub thumbnail: Option<Seq<char>>,
    pub auto_open: Option<bool>,
    pub auto_reveal: Option<bool>,
    pub referer: Option<Seq<char>>,
}

impl View for DownloadRequest {
    type V = RequestModel;

    open spec fn view(&self) -> RequestModel {
        RequestModel {
            url: self.url@,
            preset: self.preset@,
            title: opt(self.title),
            thumbnail: opt(self.thumbnail),
            auto_open: self.auto_open,
            auto_reveal: self.auto_reveal,
            referer: opt(self.referer),
        }
    }
}

/// The job that a request for the link `url` becomes.
pub open spec fn queued_job(
    request: RequestModel,
    url: Seq<char>,
    title: Seq<char>,
    target_dir: Seq<char>,
    now: Seq<char>,
    id: Seq<char>,
) -> JobModel {
    JobModel {
        id,
        url,
        preset: request.preset,
        status: "queued"@,
        title,
        thumbnail: request.thumbnail,
        phase: None,
        percent: None,
        total_size: None,
        speed: None,
        eta: None,
        error: None,
        output_name: None,
        output_path: None,
        target_dir,
        referer: stated(request.referer),
        auto_open: request.auto_open == Some(true),
        auto_reveal: request.auto_reveal == Some(true),
        created_at: now,
        updated_at: now,
    }
}

/// Whether `job` is what a request becomes under the identity `id`.
pub open spec fn is_job_for(
    request: RequestModel,
    target_dir: Seq<char>,
    now: Seq<char>,
    id: Seq<char>,
    job: JobModel,
) -> bool {
    request_checked(request.url, request.preset) matches Ok(url) && is_job_title(
        url,
        request.title,
        job.title,
    ) && job == queued_job(request, url, job.title, target_dir, now, id)
}

/// The job that a request becomes under the identity `id`, or why it is refused.
pub fn make_job(request: DownloadRequest, target_dir: String, now: String, id: String) -> (r: Result<
    Job,
    String,
>)
    ensures
        match r {
            Ok(job) => is_job_for(request@, target_dir@, now@, id@, job@),
            Err(e) => request_checked(request@.url, request@.preset) == Err::<
                Seq<char>,
                Seq<char>,
            >(e@),
        },
{
    let url = match check_request(request.url.as_str(), request.preset.as_str()) {
        Ok(url) => url,
        Err(e) => {
            return Err(e);
        },
    };
    let title = job_title(url.as_str(), request.title);
    let job = Job {
        id,
        url,
        preset: request.preset,
        status: String::from_str("queued"),
        title,
        thumbnail: request.thumbnail,
        phase: None,
        percent: None,
        total_size: None,
        speed: None,
        eta: None,
        error: None,
        output_name: None,
        output_path: None,
        target_dir,
        referer: state(request.referer),
        auto_open: match request.auto_open {
            Some(b) => b,
            None => false,
        },
        auto_reveal: match request.auto_reveal {
            Some(b) => b,
            None => false,
        },
        created_at: now.clone(),
        updated_at: now,
    };
    Ok(job)
}

/// The identities that jobs are given: the first twelve characters of a UUID.
pub open spec fn is_job_id(id: Seq<char>) -> bool {
    exists|uuid: Seq<char>| #[trigger] is_uuid_text(uuid) && id == uuid.take(12)
}

/// The identity that a UUID gives a job: its first twelve characters.
pub fn id_from_uuid(uuid: &str) -> (r: String)
    requires
        uuid@.len() >= 12,
    ensures
        r@ == uuid@.take(12),
{
    let c = to_chars(uuid);
    let r = from_chars(&c, 0, 12);
    assert(r@ =~= uuid@.take(12));
    r
}

/// Whether an identity is the beginning of a UUID that was just made.
pub closed spec fn is_fresh_id(id: Seq<char>) -> bool {
    exists|uuid: String|
        call_ensures(foreign::new_uuid, (), uuid) && id == #[trigger] uuid@.take(12)
}

/// A new identity for a job.
pub fn new_job_id() -> (r: String)
    ensures
        is_job_id(r@),
        is_fresh_id(r@),
{
    let uuid = foreign::new_uuid();
    id_from_uuid(uuid.as_str())
}

/// Puts the job that a request becomes in front of the list, and returns it; or says why the
/// request is refused, and changes nothing.
pub fn start_download(
    store: &mut JobStore,
    request: DownloadRequest,
    target_dir: String,
    now: String,
) -> (r: Result<Job, String>)
    requires
        old(store)@.wf(),
    ensures
        final(store)@.wf(),
        match r {
            Ok(job) => {
                &&& is_job_id(job@.id)
                &&& is_fresh_id(job@.id)
                &&& is_job_for(request@, target_dir@, now@, job@.id, job@)
                &&& final(store)@ == old(store)@.with(job@)
            },
            Err(e) => {
                &&& request_checked(request@.url, request@.preset) == Err::<
                    Seq<char>,
                    Seq<char>,
                >(e@)
                &&& final(store)@ == old(store)@
            },
        },
{
    let id = new_job_id();
    match make_job(request, target_dir, now, id) {
        Ok(job) => {
            store.insert(job.clone());
            Ok(job)
        },
        Err(e) => Err(e),
    }
}

/// A job is accepted exactly for a link to a medium in one of the known formats.
pub proof fn accepted_requests_are_known(value: Seq<char>, preset: Seq<char>)
    ensures
        request_checked(value, preset) is Ok <==> {
            &&& trimmed(value).len() > 0
            &&& url_of(trimmed(value)) matches Some(url)
            &&& unsupported_url(url_of(url.href)) is None
            &&& is_preset(preset)
        },
{
}

/// Whether a text that may be missing is what is left of another without the white space around
/// it, and missing exactly where nothing is left.
pub open spec fn is_rest_of(rest: Option<Seq<char>>, whole: Option<Seq<char>>) -> bool {
    match whole {
        Some(w) => if is_blank(w) {
            rest is None
        } else {
            rest == Some(trimmed(w))
        },
        None => rest is None,
    }
}

proof fn lemma_stated(value: Option<Seq<char>>)
    ensures
        is_rest_of(stated(value), value),
{
    if let Some(v) = value {
        trimmed_is_between_blanks(v);
        let (a, b) = choose|a: Seq<char>, b: Seq<char>|
            #[trigger] is_blank(a) && #[trigger] is_blank(b) && v == a + trimmed(v) + b;
        if trimmed(v).len() == 0 {
            assert forall|i: int| 0 <= i < v.len() implies is_space(#[trigger] v[i]) by {
                if i < a.len() {
                    assert(v[i] == a[i]);
                } else {
                    assert(v[i] == b[i - a.len()]);
                }
            }
        } else {
            assert(v[a.len() as int] == trimmed(v)[0]);
        }
    }
}

/// A link is accepted exactly where it is one, leads to a medium as far as can be seen, and is
/// wanted in a known format; then its normal form is what is downloaded. Else the first of these
/// that fails is told.
pub proof fn accepted_links_are_normal(
    value: &str,
    preset: &str,
    link: Result<String, String>,
    r: Result<String, String>,
)
    requires
        call_ensures(check_link, (value,), link),
        call_ensures(check_request, (value, preset), r),
    ensures
        ({
            let text = trimmed(value@);
            &&& text.len() == 0 ==> (link matches Err(e) && e@ == "Paste a media URL first."@)
            &&& text.len() > 0 && url_of(text) is None ==> (link matches Err(e) && e@
                == "That URL is not valid."@)
            &&& text.len() > 0 ==> (url_of(text) matches Some(u) ==> match unsupported_url(
                url_of(u.href),
            ) {
                Some(message) => link matches Err(e) && e@ == message,
                None => link matches Ok(l) && l@ == u.href,
            })
        }),
        link matches Err(e) ==> (r matches Err(f) && f@ == e@),
        link matches Ok(l) ==> if preset@ == "mp4"@ || preset@ == "mp3"@ || preset@ == "wav"@ {
            r matches Ok(l2) && l2@ == l@
        } else {
            r matches Err(e) && e@ == "Choose MP4, MP3, or WAV."@
        },
{
}

/// An accepted request becomes a job that waits, with nothing reported of it yet, and that keeps
/// what was asked for: the link in its normal form, the format, the folder, the picture, the page
/// that it was found on and the wishes; a title that was given is its title.
pub proof fn job_keeps_what_was_asked(
    request: DownloadRequest,
    target_dir: String,
    now: String,
    id: String,
    r: Result<Job, String>,
)
    requires
        call_ensures(make_job, (request, target_dir, now, id), r),
    ensures
        r matches Ok(job) ==> {
            &&& job.id@ == id@
            &&& url_of(trimmed(request.url@)) matches Some(u) && job.url@ == u.href
            &&& job.preset@ == request.preset@
            &&& job.preset@ == "mp4"@ || job.preset@ == "mp3"@ || job.preset@ == "wav"@
            &&& job.target_dir@ == target_dir@
            &&& job.created_at@ == now@ && job.updated_at@ == now@
            &&& job.status@ == "queued"@
            &&& opt(job.thumbnail) == opt(request.thumbnail)
            &&& is_rest_of(opt(job.referer), opt(request.referer))
            &&& job.auto_open <==> request.auto_open == Some(true)
            &&& job.auto_reveal <==> request.auto_reveal == Some(true)
            &&& opt(request.title) matches Some(t) ==> !is_blank(t) ==> job.title@ == trimmed(t)
            &&& job.phase is None && job.percent is None && job.total_size is None
            &&& job.speed is None && job.eta is None && job.error is None
            &&& job.output_name is None && job.output_path is None
        },
        r is Err <==> request_checked(request.url@, request.preset@) is Err,
{
    lemma_stated(opt(request.referer));
    lemma_stated(opt(request.title));
    if let Ok(job) = r {
        assert(job@.referer == stated(opt(request.referer)));
    }
}

/// A job that was given no title is named after its link where that leads to a media file, and
/// else is a download like any other.
pub proof fn nameless_job_is_named_after_its_file(url: &str, asked: Option<String>, title: String)
    requires
        call_ensures(job_title, (url, asked), title),
    ensures
        opt(asked) matches Some(t) ==> !is_blank(t) ==> title@ == trimmed(t),
        (opt(asked) matches Some(t) ==> is_blank(t)) ==> exists|direct: bool| #[trigger]
            tells_direct(url@, direct) && (direct ==> is_segment_title(
                segment_of(url_of(url@)),
                title@,
            )) && (!direct ==> title@ == "Download"@),
{
    lemma_stated(opt(asked));
}

/// A started download is a new job of its own, in front of all others, which stay as they are; a
/// refused one changes nothing.
pub proof fn started_job_is_the_newest(
    store: &mut JobStore,
    request: DownloadRequest,
    target_dir: String,
    now: String,
    r: Result<Job, String>,
)
    requires
        old(store)@.wf(),
        call_ensures(start_download, (store, request, target_dir, now), r),
    ensures
        r is Err ==> final(store)@ == old(store)@,
        r matches Ok(job) ==> {
            &&& is_fresh_id(job.id@)
            &&& job.id@.len() == 12
            &&& job.preset@ == request.preset@
            &&& job.target_dir@ == target_dir@
            &&& job.status@ == "queued"@
            &&& url_of(trimmed(request.url@)) matches Some(u) && job.url@ == u.href
            &&& job.created_at@ == now@
            &&& final(store)@.order == seq![job.id@] + old(store)@.order
            &&& final(store)@.jobs.dom().contains(job.id@) && final(store)@.jobs[job.id@] == job@
            &&& forall|other: Seq<char>|
                other != job.id@ ==> (#[trigger] final(store)@.jobs.dom().contains(other) <==> old(
                    store,
                )@.jobs.dom().contains(other)) && (old(store)@.jobs.dom().contains(other)
                    ==> final(store)@.jobs[other] == old(store)@.jobs[other])
        },
        r is Err <==> request_checked(request.url@, request.preset@) is Err,
{
}

/// A text that was given is taken without the blanks around it, or not at all where nothing is left;
/// and the identity of a job is the beginning of a UUID.
pub proof fn given_texts_are_taken_bare(value: Option<String>, r: Option<String>, id: String)
    requires
        call_ensures(state, (value,), r),
        call_ensures(new_job_id, (), id),
    ensures
        is_rest_of(opt(r), opt(value)),
        is_fresh_id(id@),
        id@.len() == 12,
        id@[8] == '-',
        forall|i: int|
            0 <= i < 12 && i != 8 ==> ('0' <= #[trigger] id@[i] <= '9' || 'a' <= id@[i] <= 'f'),
{
    lemma_stated(opt(value));
    let uuid = choose|uuid: Seq<char>| #[trigger] is_uuid_text(uuid) && id@ == uuid.take(12);
    assert forall|i: int| 0 <= i < 12 implies #[trigger] id@[i] == uuid[i] by {}
    assert(uuid[8] == '-');
}

} // verus!
