//! Watching a thread: asking for its page, reading the answers, planning the
//! media files that it links to, and knowing when to stop.

use vstd::prelude::*;

use crate::address::Url;
use crate::db_async::{finish_thread, new_media, DbRequest, DbRequestView};
use crate::local_path::LocalPath;
use crate::media_downloader;
use crate::media_link::{UrlFile, UrlFileView};
use crate::state;
use crate::state::{DlEntryStatus, MediaEntry, MediaEntryView, ThreadState};
use crate::thread_page;
use crate::thread_page::parse_thread_vec_cached;
use crate::thread_url;
use crate::thread_url::{DvachThreadUrl, ThreadUrlError, ThreadUrlView};

verus! {

/// Whether a byte of a header stands for a character: printable ASCII, or a
/// tab.
pub open spec fn is_visible(b: u8) -> bool {
    32 <= b < 127 || b == 9
}

/// The text of a header's value, where all of it is visible ASCII.
pub open spec fn header_text(value: Seq<u8>) -> Option<Seq<char>> {
    if forall|i: int| 0 <= i < value.len() ==> is_visible(#[trigger] value[i]) {
        Some(value.map_values(|b: u8| b as char))
    } else {
        None
    }
}

/// `http::HeaderValue::from_bytes` followed by `HeaderValue::to_str`.
///
/// Taken on trust: they give the value back as text where every byte of it is
/// visible ASCII, and refuse every other value.
#[verifier::external_body]
fn outside_header_text(value: &[u8]) -> (r: Option<String>)
    ensures
        r.deep_view() == header_text(value@),
{
    let header = http::HeaderValue::from_bytes(value).ok();
    header.and_then(|h| h.to_str().ok().map(str::to_owned))
}

/// What a watcher remembers between two requests: when the page that it has was
/// last changed, in the words of the server.
#[derive(Debug)]
pub struct ClientWrap {
    pub last_modifed: Option<String>,
}

impl ClientWrap {
    /// A watcher that has no page yet.
    pub fn new() -> (r: ClientWrap)
        ensures
            r.last_modifed is None,
    {
        ClientWrap { last_modifed: None }
    }
}

/// A request for a page.
#[derive(Debug)]
pub struct PageRequest {
    pub url: String,
    /// Ask for the page only if it has changed since.
    pub if_modified_since: Option<String>,
}

/// The request for a page: for the page as such the first time, and only for
/// a changed page where the server said how old the last one was.
pub fn page_request(client_wrap: &ClientWrap, url: &str) -> (r: PageRequest)
    ensures
        r.url@ == url@,
        r.if_modified_since.deep_view() == client_wrap.last_modifed.deep_view(),
{
    PageRequest { url: url.to_owned(), if_modified_since: copy_text(&client_wrap.last_modifed) }
}

fn copy_text(t: &Option<String>) -> (r: Option<String>)
    ensures
        r.deep_view() == t.deep_view(),
{
    match t {
        Some(t) => Some(t.clone()),
        None => None,
    }
}

/// What an answer says before its body: the status, the value of the
/// `Last-Modified` header, and the address that answered in the end.
#[derive(Debug)]
pub struct PageHead {
    pub status: u16,
    pub last_modified: Option<Vec<u8>>,
    pub final_url: Url,
}

/// A page, and the media files that it links to.
#[derive(Debug)]
pub struct RespOk {
    pub page_body: String,
    pub media_urls: Vec<UrlFile>,
}

/// How a request for a page was answered.
#[derive(Debug)]
pub enum RespType {
    Page(RespOk),
    NotFound,
    NotModified,
    BadGateway,
}

/// What a request for a page brought: the answer, whether it came from the
/// archive, and how old the page is that the watcher now has.
#[derive(Debug)]
pub struct ThreadResult {
    pub resp: RespType,
    pub is_archived: bool,
    pub last_modified: Option<String>,
}

/// What to do with an answer once its head is read.
#[derive(Debug)]
pub enum HeadStep {
    /// The answer is complete without a body.
    Done(ThreadResult),
    /// The body is a page to read.
    ReadBody { is_archived: bool, last_modified: Option<String> },
}

/// The answers that are complete without a body.
pub open spec fn without_body(status: u16) -> Option<RespType> {
    if status == 304 {
        Some(RespType::NotModified)
    } else if status == 404 {
        Some(RespType::NotFound)
    } else if status == 502 {
        Some(RespType::BadGateway)
    } else {
        None
    }
}

/// Whether an answer is of a kind that the watcher knows.
pub open spec fn is_answer(head: PageHead) -> bool {
    without_body(head.status) is Some || (200 <= head.status < 300 && thread_url::known_section(
        head.final_url@,
    ))
}

/// Whether a status says that what was asked for is there.
pub fn is_success(status: u16) -> (r: bool)
    ensures
        r == (200 <= status < 300),
{
    200 <= status && status < 300
}

/// Whether an answer is of a kind that the watcher knows.
pub fn is_known_answer(head: &PageHead) -> (r: bool)
    ensures
        r == is_answer(*head),
        r == (head.status == 304 || head.status == 404 || head.status == 502 || (200 <= head.status
            < 300 && thread_url::known_section(head.final_url@))),
{
    head.status == 304 || head.status == 404 || head.status == 502 || (is_success(head.status)
        && thread_url::has_known_section(&head.final_url))
}

/// The text of the `Last-Modified` header, where it came and is text.
pub open spec fn modified_text(last_modified: Option<Vec<u8>>) -> Option<Seq<char>> {
    match last_modified {
        Some(value) => header_text(value@),
        None => None,
    }
}

/// How old the page is that a watcher has, after one more answer: only an answer
/// with a body brings another page.
pub open spec fn date_after(date: Option<Seq<char>>, head: PageHead) -> Option<Seq<char>> {
    if without_body(head.status) is Some {
        date
    } else {
        modified_text(head.last_modified)
    }
}

/// Reads the head of an answer. Without a body, the page that the watcher has
/// stays as old as it was. With one, the final address says whether the thread
/// is in the archive; an address that names no thread is an error.
pub fn read_head(client_wrap: &ClientWrap, head: &PageHead) -> (r: Result<
    HeadStep,
    ThreadUrlError<String>,
>)
    requires
        is_answer(*head),
    ensures
        match r {
            Ok(HeadStep::Done(result)) => {
                &&& without_body(head.status) == Some(result.resp)
                &&& !result.is_archived
                &&& result.last_modified.deep_view() == date_after(
                    client_wrap.last_modifed.deep_view(),
                    *head,
                )
            },
            Ok(HeadStep::ReadBody { is_archived, last_modified }) => {
                &&& without_body(head.status) is None
                &&& thread_url::thread_of(head.final_url@) is Ok
                &&& is_archived == thread_url::thread_of(head.final_url@)->Ok_0.is_archive
                &&& last_modified.deep_view() == date_after(
                    client_wrap.last_modifed.deep_view(),
                    *head,
                )
            },
            Err(e) => {
                &&& without_body(head.status) is None
                &&& thread_url::thread_of(head.final_url@) == Err::<
                    ThreadUrlView,
                    ThreadUrlError<Seq<char>>,
                >(thread_url::thread_url_error(e))
            },
        },
        (r matches Ok(HeadStep::Done(_))) <==> head.status == 304 || head.status == 404
            || head.status == 502,
        r matches Ok(HeadStep::Done(result)) ==> {
            &&& result.resp is NotModified <==> head.status == 304
            &&& result.resp is NotFound <==> head.status == 404
            &&& result.resp is BadGateway <==> head.status == 502
            &&& result.last_modified.deep_view() == client_wrap.last_modifed.deep_view()
        },
        r matches Ok(HeadStep::ReadBody { is_archived, last_modified }) ==> {
            &&& head.final_url@.segments matches Some(s)
            &&& is_archived == (s[1] == "arch"@)
            &&& last_modified.deep_view() == (match head.last_modified {
                Some(value) => header_text(value@),
                None => None,
            })
        },
{
    let resp = if head.status == 304 {
        RespType::NotModified
    } else if head.status == 404 {
        RespType::NotFound
    } else if head.status == 502 {
        RespType::BadGateway
    } else {
        let last_modified = match &head.last_modified {
            Some(value) => outside_header_text(value.as_slice()),
            None => None,
        };
        return match DvachThreadUrl::parse(&head.final_url) {
            Ok(thread) => Ok(
                HeadStep::ReadBody { is_archived: thread.is_archive, last_modified },
            ),
            Err(e) => Err(e),
        };
    };
    Ok(
        HeadStep::Done(
            ThreadResult {
                resp,
                is_archived: false,
                last_modified: copy_text(&client_wrap.last_modifed),
            },
        ),
    )
}

/// Reads the body of an answer, given what its head said. Where a link of the
/// page is no address, its refusal comes back.
pub fn read_body(page_text: String, is_archived: bool, last_modified: Option<String>) -> (r: Result<
    ThreadResult,
    String,
>)
    requires
        thread_page::page_fits(page_text@),
    ensures
        ({
            let files = thread_page::files_of_links(
                thread_page::fresh_links(
                    thread_page::element_attributes(page_text@, "a"@, "href"@),
                ),
            );
            match r {
                Ok(result) => {
                    &&& result.is_archived == is_archived
                    &&& result.last_modified == last_modified
                    &&& result.resp matches RespType::Page(page)
                    &&& page.page_body == page_text
                    &&& files == Ok::<Seq<UrlFileView>, Seq<char>>(page.media_urls.deep_view())
                    &&& thread_page::plain_files(page.media_urls.deep_view())
                },
                Err(e) => files == Err::<Seq<UrlFileView>, Seq<char>>(e@),
            }
        }),
        thread_page::plain_links(thread_page::element_attributes(page_text@, "a"@, "href"@))
            ==> r is Ok,
{
    match parse_thread_vec_cached(page_text.as_str()) {
        Ok(media_urls) => Ok(
            ThreadResult {
                resp: RespType::Page(RespOk { page_body: page_text, media_urls }),
                is_archived,
                last_modified,
            },
        ),
        Err(e) => Err(e),
    }
}

/// The entry of a media file that a thread's page links to.
pub open spec fn entry_of(file: UrlFileView, thread: ThreadUrlView) -> MediaEntryView {
    MediaEntryView {
        url: file.url.href,
        state: DlEntryStatus::JustAdded,
        thread,
        url_filename: file.url_filename,
    }
}

/// The entries once all files of a page are planned.
pub open spec fn with_files(
    medias: Seq<MediaEntryView>,
    files: Seq<UrlFileView>,
    thread: ThreadUrlView,
) -> Seq<MediaEntryView>
    decreases files.len(),
{
    if files.len() == 0 {
        medias
    } else {
        with_files(
            state::with_media(medias, entry_of(files[0], thread)),
            files.drop_first(),
            thread,
        )
    }
}

/// What comes of planning some files of a page.
#[derive(Debug)]
pub enum PlanStep {
    /// A file was new: send this request to the store, then go on from the
    /// `next`th file.
    Tell { next: usize, request: DbRequest },
    /// The page is done: wake the worker that downloads.
    Notify,
}

/// What a `PlanStep` stands for.
pub enum PlanStepView {
    Tell { next: int, request: DbRequestView },
    Notify,
}

impl View for PlanStep {
    type V = PlanStepView;

    open spec fn view(&self) -> PlanStepView {
        match *self {
            PlanStep::Tell { next, request } => PlanStepView::Tell {
                next: next as int,
                request: request@,
            },
            PlanStep::Notify => PlanStepView::Notify,
        }
    }
}

/// The files of a page from one place up to another have entries.
pub open spec fn all_known(
    medias: Seq<MediaEntryView>,
    files: Seq<UrlFileView>,
    from: int,
    to: int,
) -> bool {
    forall|k: int| from <= k < to ==> state::has_url(medias, (#[trigger] files[k]).url.href)
}

/// Whether planning the files of a page from the `from`th on came to a step:
/// to the first file that is new, which then has an entry at the end, or past
/// the last file.
pub open spec fn is_plan_step(
    before: Seq<MediaEntryView>,
    files: Seq<UrlFileView>,
    thread: ThreadUrlView,
    from: int,
    step: PlanStepView,
    after: Seq<MediaEntryView>,
) -> bool {
    match step {
        PlanStepView::Tell { next, request } => {
            let media = entry_of(files[next - 1], thread);
            &&& from < next <= files.len()
            &&& all_known(before, files, from, next - 1)
            &&& !state::has_url(before, media.url)
            &&& after == before.push(media)
            &&& request == DbRequestView::NewMedia(media)
        },
        PlanStepView::Notify => {
            &&& all_known(before, files, from, files.len() as int)
            &&& after == before
        },
    }
}

/// Plans the files of a page from the `from`th on, up to the first that is new.
/// The store is told of that one, and planning goes on behind it; where the
/// rest of the files are known, the worker is to be woken.
pub fn plan_media(
    state: &mut ThreadState,
    urls: &Vec<UrlFile>,
    from: usize,
    thread_url: &DvachThreadUrl,
) -> (r: PlanStep)
    requires
        old(state).wf(),
        from <= urls@.len(),
    ensures
        final(state).wf(),
        final(state).same_but_medias(*old(state)),
        is_plan_step(
            old(state).medias.deep_view(),
            urls.deep_view(),
            thread_url@,
            from as int,
            r@,
            final(state).medias.deep_view(),
        ),
        match r {
            PlanStep::Tell { next, request } => {
                &&& from < next <= urls@.len()
                &&& request matches DbRequest::NewMedia(media)
                &&& media.url@ == urls@[next - 1].url.href@
                &&& media.url_filename@ == urls@[next - 1].url_filename@
                &&& media.state == DlEntryStatus::JustAdded
                &&& media.thread.board@ == thread_url.board@
                &&& media.thread.thread_number@ == thread_url.thread_number@
                &&& media.thread.is_archive == thread_url.is_archive
                &&& final(state).medias.deep_view() == old(state).medias.deep_view().push(media@)
            },
            PlanStep::Notify => final(state).medias.deep_view() == old(state).medias.deep_view(),
        },
{
    let ghost before = state.medias.deep_view();
    let ghost files = urls.deep_view();
    let mut i: usize = from;
    while i < urls.len()
        invariant
            from <= i <= urls@.len(),
            files == urls.deep_view(),
            before == old(state).medias.deep_view(),
            state.wf(),
            state.same_but_medias(*old(state)),
            state.medias.deep_view() == before,
            all_known(before, files, from as int, i as int),
        decreases urls@.len() - i,
    {
        let file = &urls[i];
        let media = MediaEntry {
            url: file.url.href.clone(),
            state: DlEntryStatus::JustAdded,
            thread: thread_url.clone(),
            url_filename: file.url_filename.clone(),
        };
        assert(media@ == entry_of(files[i as int], thread_url@));
        if state.plan_media(&media) {
            return PlanStep::Tell { next: i + 1, request: new_media(&media) };
        }
        i = i + 1;
    }
    PlanStep::Notify
}

/// What is to be done with an answer: plan the media files of the page, keep
/// the page, and keep its posts as JSON.
#[derive(Debug, Clone, Copy, PartialEq, Eq, Structural)]
pub struct Keep {
    pub media: bool,
    pub index: bool,
    pub json: bool,
}

/// What is to be done with an answer. The archive has no posts as JSON.
pub fn what_to_keep(result: &ThreadResult) -> (r: Keep)
    ensures
        r.media == (result.resp is Page),
        r.index == (result.resp is Page),
        r.json == (result.resp is Page && !result.is_archived),
{
    match &result.resp {
        RespType::Page(_) => Keep { media: true, index: true, json: !result.is_archived },
        _ => Keep { media: false, index: false, json: false },
    }
}

/// Where the page of a thread is kept.
pub fn index_path(thread_path: &LocalPath) -> (r: LocalPath)
    ensures
        r@ == thread_path@.join("index.html"@),
        r.root@ == thread_path.root@,
        r.parts.deep_view() == thread_path.parts.deep_view() + seq!["index.html"@],
{
    thread_path.join("index.html")
}

/// Where the posts of a thread are kept as JSON.
pub fn json_path(thread_path: &LocalPath) -> (r: LocalPath)
    ensures
        r@ == thread_path@.join("index.json"@),
        r.root@ == thread_path.root@,
        r.parts.deep_view() == thread_path.parts.deep_view() + seq!["index.json"@],
{
    thread_path.join("index.json")
}

/// How many failures in a row a thread is forgiven.
pub const MAX_ATTEMPTS: u32 = 5;

/// How long a watcher pauses between two requests, in seconds.
pub const PAUSE_SECONDS: u64 = 50;

/// What a watcher does after an answer.
#[derive(Debug)]
pub enum LoopStep {
    /// The thread is over: send this last request to the store.
    Finish { request: DbRequest },
    /// Ask again after a pause.
    Pause { seconds: u64 },
}

/// Whether an answer counts as a failure.
pub open spec fn is_failure(resp: RespType) -> bool {
    resp is NotFound || resp is BadGateway
}

/// The failures in a row, after one more answer.
pub open spec fn failures_after(failures: int, resp: RespType) -> int {
    if is_failure(resp) {
        failures + 1
    } else {
        0
    }
}

/// Whether a thread is over after an answer that followed some failures in a
/// row: it is in the archive, or it has failed more than `MAX_ATTEMPTS` times
/// in a row.
pub open spec fn is_over(failures: int, resp: RespType, is_archived: bool) -> bool {
    is_archived || failures_after(failures, resp) > MAX_ATTEMPTS
}

/// The watcher of a thread.
#[derive(Debug)]
pub struct ThreadWatch {
    pub client: ClientWrap,
    /// The failures in a row.
    pub not_found_attempts: u32,
}

impl ThreadWatch {
    /// A thread that is being watched has not failed too often.
    pub open spec fn wf(self) -> bool {
        self.not_found_attempts <= MAX_ATTEMPTS
    }

    /// The watcher of a thread that nothing is known of.
    pub fn new() -> (r: ThreadWatch)
        ensures
            r.wf(),
            r.not_found_attempts == 0,
            r.client.last_modifed is None,
    {
        ThreadWatch { client: ClientWrap::new(), not_found_attempts: 0 }
    }

    /// Takes note of an answer and says how to go on. A thread is over once it
    /// is in the archive, or once it has failed more than `MAX_ATTEMPTS` times
    /// in a row; the store is then told that it is finished.
    pub fn thread_downloader(
        &mut self,
        thread_url: &DvachThreadUrl,
        result: &ThreadResult,
    ) -> (r: LoopStep)
        requires
            old(self).wf(),
        ensures
            final(self).client.last_modifed.deep_view() == result.last_modified.deep_view(),
            final(self).not_found_attempts == failures_after(
                old(self).not_found_attempts as int,
                result.resp,
            ),
            match r {
                LoopStep::Finish { request } => {
                    &&& is_over(
                        old(self).not_found_attempts as int,
                        result.resp,
                        result.is_archived,
                    )
                    &&& request@ == DbRequestView::ThreadFinished(thread_url@)
                },
                LoopStep::Pause { seconds } => {
                    &&& !is_over(
                        old(self).not_found_attempts as int,
                        result.resp,
                        result.is_archived,
                    )
                    &&& seconds == PAUSE_SECONDS
                    &&& final(self).wf()
                },
            },
            result.resp is Page || result.resp is NotModified ==> final(self).not_found_attempts
                == 0,
            result.resp is NotFound || result.resp is BadGateway ==> final(self).not_found_attempts
                == old(self).not_found_attempts + 1,
            r is Finish <==> result.is_archived || (old(self).not_found_attempts >= 5 && (
            result.resp is NotFound || result.resp is BadGateway)),
            r matches LoopStep::Pause { seconds } ==> seconds == 50,
            r matches LoopStep::Finish { request } ==> {
                &&& request matches DbRequest::ThreadFinished(t)
                &&& t.board@ == thread_url.board@
                &&& t.thread_number@ == thread_url.thread_number@
                &&& t.is_archive == thread_url.is_archive
            },
    {
        self.client.last_modifed = copy_text(&result.last_modified);
        match &result.resp {
            RespType::Page(_) => {
                self.not_found_attempts = 0;
            },
            RespType::NotFound => {
                self.not_found_attempts = self.not_found_attempts + 1;
            },
            RespType::BadGateway => {
                self.not_found_attempts = self.not_found_attempts + 1;
            },
            RespType::NotModified => {
                self.not_found_attempts = 0;
            },
        }
        if result.is_archived || self.not_found_attempts > MAX_ATTEMPTS {
            return LoopStep::Finish { request: finish_thread(thread_url) };
        }
        LoopStep::Pause { seconds: PAUSE_SECONDS }
    }
}

/// The failures in a row at the end of a sequence of answers.
pub open spec fn failures_at_end(answers: Seq<RespType>) -> int
    decreases answers.len(),
{
    if answers.len() == 0 {
        0
    } else {
        failures_after(failures_at_end(answers.drop_last()), answers.last())
    }
}

/// The last `n` answers are failures.
pub open spec fn ends_in_failures(answers: Seq<RespType>, n: int) -> bool {
    &&& n <= answers.len()
    &&& forall|i: int| answers.len() - n <= i < answers.len() ==> is_failure(#[trigger] answers[i])
}

proof fn failures_are_counted(answers: Seq<RespType>, n: int)
    requires
        n >= 0,
    ensures
        failures_at_end(answers) >= n <==> ends_in_failures(answers, n),
        failures_at_end(answers) >= 0,
    decreases answers.len(),
{
    if answers.len() > 0 {
        let rest = answers.drop_last();
        if n > 0 {
            failures_are_counted(rest, n - 1);
            if ends_in_failures(answers, n) {
                assert(is_failure(answers[answers.len() - 1]));
                assert forall|i: int| rest.len() - (n - 1) <= i < rest.len() implies is_failure(
                    #[trigger] rest[i],
                ) by {
                    assert(is_failure(answers[i]));
                }
            }
            if failures_at_end(answers) >= n {
                assert forall|i: int| answers.len() - n <= i < answers.len() implies is_failure(
                    #[trigger] answers[i],
                ) by {
                    if i < rest.len() {
                        assert(is_failure(rest[i]));
                    }
                }
            }
        } else {
            failures_are_counted(rest, 0);
        }
    }
}

/// A watcher counts the failures at the end of its answers, and gives a thread
/// that is not archived up exactly when six answers in a row were failures. Any
/// other answer in between, a page or the word that nothing has changed, starts
/// the count anew.
pub proof fn given_up_after_six_failures(answers: Seq<RespType>)
    ensures
        forall|resp: RespType| #[trigger]
            failures_at_end(answers.push(resp)) == failures_after(failures_at_end(answers), resp),
        failures_at_end(answers) > MAX_ATTEMPTS <==> ends_in_failures(answers, 6),
        forall|resp: RespType|
            !is_failure(resp) ==> #[trigger] failures_at_end(answers.push(resp)) == 0,
{
    failures_are_counted(answers, 6);
    assert forall|resp: RespType| #[trigger]
        failures_at_end(answers.push(resp)) == failures_after(failures_at_end(answers), resp) by {
        assert(answers.push(resp).drop_last() =~= answers);
    }
}

/// The date of the latest page among some answers, where it came and is text.
pub open spec fn latest_page_date(heads: Seq<PageHead>) -> Option<Seq<char>>
    decreases heads.len(),
{
    if heads.len() == 0 {
        None
    } else if 200 <= heads.last().status < 300 {
        modified_text(heads.last().last_modified)
    } else {
        latest_page_date(heads.drop_last())
    }
}

/// Whether some requests are those of one watcher: it starts without a page,
/// asks each time by what it remembers, and then remembers what reading the
/// answer gave. `clients[k]` is the watcher before its `k`th request, and
/// `heads[k]` the head of the answer.
pub open spec fn is_exchange(
    clients: Seq<ClientWrap>,
    requests: Seq<PageRequest>,
    heads: Seq<PageHead>,
) -> bool {
    &&& clients.len() == requests.len() == heads.len() + 1
    &&& clients[0].last_modifed is None
    &&& forall|k: int|
        0 <= k < requests.len() ==> (#[trigger] requests[k]).if_modified_since.deep_view()
            == clients[k].last_modifed.deep_view()
    &&& forall|k: int|
        0 <= k < heads.len() ==> is_answer(#[trigger] heads[k]) && clients[k
            + 1].last_modifed.deep_view() == date_after(
            clients[k].last_modifed.deep_view(),
            heads[k],
        )
}

proof fn clients_hold_the_latest_date(
    clients: Seq<ClientWrap>,
    requests: Seq<PageRequest>,
    heads: Seq<PageHead>,
    k: int,
)
    requires
        is_exchange(clients, requests, heads),
        0 <= k < clients.len(),
    ensures
        clients[k].last_modifed.deep_view() == latest_page_date(heads.take(k)),
    decreases k,
{
    if k > 0 {
        clients_hold_the_latest_date(clients, requests, heads, k - 1);
        assert(heads.take(k).drop_last() =~= heads.take(k - 1));
        assert(heads.take(k).last() == heads[k - 1]);
        assert(is_answer(heads[k - 1]));
        assert(clients[(k - 1) + 1] == clients[k]);
    }
}

/// Every request asks for a page that has changed since the date of the latest
/// page that came before it, and for the page as such where none came or where
/// its date is no text: the first request does so. The answers that bring no
/// page, in between, change nothing.
pub proof fn requests_carry_the_latest_date(
    clients: Seq<ClientWrap>,
    requests: Seq<PageRequest>,
    heads: Seq<PageHead>,
)
    requires
        is_exchange(clients, requests, heads),
    ensures
        requests[0].if_modified_since is None,
        forall|k: int|
            0 <= k < requests.len() ==> (#[trigger] requests[k]).if_modified_since.deep_view()
                == latest_page_date(heads.take(k)),
{
    assert forall|k: int| 0 <= k < requests.len() implies (#[trigger] requests[
        k
    ]).if_modified_since.deep_view() == latest_page_date(heads.take(k)) by {
        clients_hold_the_latest_date(clients, requests, heads, k);
    }
    assert(requests[0].if_modified_since.deep_view() is None);
}

/// A round of a watch: the answer, whether it came from the archive, and the
/// entries that planning its files brought.
pub struct WatchRound {
    pub resp: RespType,
    pub is_archived: bool,
    pub planned: Seq<MediaEntryView>,
}

/// The requests that tell the store of some new entries.
pub open spec fn media_requests(planned: Seq<MediaEntryView>) -> Seq<DbRequestView> {
    planned.map_values(|media: MediaEntryView| DbRequestView::NewMedia(media))
}

/// The answers of some rounds.
pub open spec fn answers_of(rounds: Seq<WatchRound>) -> Seq<RespType> {
    rounds.map_values(|round: WatchRound| round.resp)
}

/// Whether the thread is over after the last of some rounds.
pub open spec fn over_after(rounds: Seq<WatchRound>) -> bool {
    rounds.len() > 0 && is_over(
        failures_at_end(answers_of(rounds.drop_last())),
        rounds.last().resp,
        rounds.last().is_archived,
    )
}

/// Whether some rounds make a watch: the thread is not over before the last of
/// them.
pub open spec fn is_watch(rounds: Seq<WatchRound>) -> bool {
    forall|n: int| 0 <= n < rounds.len() ==> !over_after(#[trigger] rounds.take(n))
}

/// The requests that a watch of a thread sends to the store: in every round
/// those that planning hands out, and behind them the one that comes with the
/// end of the thread.
pub open spec fn watch_requests(rounds: Seq<WatchRound>, thread: ThreadUrlView) -> Seq<
    DbRequestView,
>
    decreases rounds.len(),
{
    if rounds.len() == 0 {
        seq![]
    } else {
        let sent = watch_requests(rounds.drop_last(), thread) + media_requests(
            rounds.last().planned,
        );
        if over_after(rounds) {
            sent.push(DbRequestView::ThreadFinished(thread))
        } else {
            sent
        }
    }
}

/// All of some requests tell the store of new media.
pub open spec fn only_new_media(requests: Seq<DbRequestView>) -> bool {
    forall|i: int| 0 <= i < requests.len() ==> (#[trigger] requests[i]) is NewMedia
}

proof fn running_watch_sends_new_media(rounds: Seq<WatchRound>, thread: ThreadUrlView)
    requires
        is_watch(rounds),
        !over_after(rounds),
    ensures
        only_new_media(watch_requests(rounds, thread)),
    decreases rounds.len(),
{
    if rounds.len() > 0 {
        earlier_rounds_run(rounds);
        running_watch_sends_new_media(rounds.drop_last(), thread);
    }
}

proof fn earlier_rounds_run(rounds: Seq<WatchRound>)
    requires
        is_watch(rounds),
        rounds.len() > 0,
    ensures
        is_watch(rounds.drop_last()),
        !over_after(rounds.drop_last()),
{
    let rest = rounds.drop_last();
    assert(rounds.take(rounds.len() - 1) =~= rest);
    assert forall|n: int| 0 <= n < rest.len() implies !over_after(#[trigger] rest.take(n)) by {
        assert(rest.take(n) =~= rounds.take(n));
    }
}

/// A watch that comes to its end sends exactly one request that marks its
/// thread as finished, and sends it last; all that it sends before tells of new
/// media. A watch that stops anywhere on the way, between two rounds or once
/// some files of a page are planned, has told of new media only.
pub proof fn finished_is_the_last_word(
    rounds: Seq<WatchRound>,
    thread: ThreadUrlView,
    planned: Seq<MediaEntryView>,
)
    requires
        is_watch(rounds),
    ensures
        over_after(rounds) ==> {
            let sent = watch_requests(rounds, thread);
            &&& sent.len() >= 1
            &&& sent.last() == DbRequestView::ThreadFinished(thread)
            &&& only_new_media(sent.drop_last())
        },
        !over_after(rounds) ==> only_new_media(
            watch_requests(rounds, thread) + media_requests(planned),
        ),
{
    if over_after(rounds) {
        earlier_rounds_run(rounds);
        running_watch_sends_new_media(rounds.drop_last(), thread);
        let sent = watch_requests(rounds.drop_last(), thread) + media_requests(
            rounds.last().planned,
        );
        assert(watch_requests(rounds, thread).drop_last() =~= sent);
    } else {
        running_watch_sends_new_media(rounds, thread);
    }
}

/// Planning the files of a page keeps the entries that are there, in place and
/// untouched, gives no address two entries, and leaves every file of the page
/// with an entry.
pub proof fn planning_keeps_what_is_there(
    medias: Seq<MediaEntryView>,
    files: Seq<UrlFileView>,
    thread: ThreadUrlView,
)
    requires
        state::distinct_urls(medias),
    ensures
        state::distinct_urls(with_files(medias, files, thread)),
        medias.is_prefix_of(with_files(medias, files, thread)),
        forall|k: int|
            0 <= k < files.len() ==> state::has_url(
                with_files(medias, files, thread),
                (#[trigger] files[k]).url.href,
            ),
        state::plain_names(medias) && thread_page::plain_files(files) ==> state::plain_names(
            with_files(medias, files, thread),
        ),
    decreases files.len(),
{
    if files.len() > 0 {
        let entry = entry_of(files[0], thread);
        let first = state::with_media(medias, entry);
        let rest = files.drop_first();
        let all = with_files(medias, files, thread);
        planning_keeps_what_is_there(first, rest, thread);
        assert(state::has_url(first, entry.url)) by {
            if !state::has_url(medias, entry.url) {
                assert(first[medias.len() as int].url == entry.url);
            }
        }
        let i = choose|i: int| 0 <= i < first.len() && (#[trigger] first[i]).url == entry.url;
        assert(first[i] == all.subrange(0, first.len() as int)[i]);
        assert(all[i].url == entry.url);
        assert(medias =~= first.subrange(0, medias.len() as int));
        assert forall|k: int| 0 <= k < medias.len() implies medias[k] == all[k] by {
            assert(first[k] == all.subrange(0, first.len() as int)[k]);
        }
        assert(medias =~= all.subrange(0, medias.len() as int));
        assert forall|k: int| 0 <= k < files.len() implies state::has_url(
            all,
            (#[trigger] files[k]).url.href,
        ) by {
            if k > 0 {
                assert(rest[k - 1] == files[k]);
            }
        }
        if state::plain_names(medias) && thread_page::plain_files(files) {
            assert(files[0].wf());
            assert forall|k: int| 0 <= k < rest.len() implies (#[trigger] rest[k]).wf() by {
                assert(files[k + 1].wf());
            }
            assert(state::plain_names(first));
        }
    }
}

proof fn known_files_change_nothing(
    medias: Seq<MediaEntryView>,
    files: Seq<UrlFileView>,
    thread: ThreadUrlView,
)
    requires
        forall|k: int|
            0 <= k < files.len() ==> state::has_url(medias, (#[trigger] files[k]).url.href),
    ensures
        with_files(medias, files, thread) == medias,
    decreases files.len(),
{
    if files.len() > 0 {
        assert(state::has_url(medias, files[0].url.href));
        assert forall|k: int| 0 <= k < files.drop_first().len() implies state::has_url(
            medias,
            (#[trigger] files.drop_first()[k]).url.href,
        ) by {
            assert(state::has_url(medias, files[k + 1].url.href));
        }
        known_files_change_nothing(medias, files.drop_first(), thread);
    }
}

/// Reading the same page again plans nothing new, whichever thread it is read
/// for.
pub proof fn planning_again_changes_nothing(
    medias: Seq<MediaEntryView>,
    files: Seq<UrlFileView>,
    thread: ThreadUrlView,
    other: ThreadUrlView,
)
    requires
        state::distinct_urls(medias),
    ensures
        with_files(with_files(medias, files, thread), files, other) == with_files(
            medias,
            files,
            thread,
        ),
{
    planning_keeps_what_is_there(medias, files, thread);
    known_files_change_nothing(with_files(medias, files, thread), files, other);
}

/// A call of `plan_media`: the entries before it, its step, and the entries
/// after it.
pub struct PlanCall {
    pub before: Seq<MediaEntryView>,
    pub step: PlanStepView,
    pub after: Seq<MediaEntryView>,
}

/// Whether some calls plan a page from the `from`th file on: each goes on where
/// the one before it stopped, and the last one finds nothing new.
pub open spec fn is_planning(
    calls: Seq<PlanCall>,
    files: Seq<UrlFileView>,
    thread: ThreadUrlView,
    from: int,
) -> bool
    decreases calls.len(),
{
    &&& calls.len() > 0
    &&& is_plan_step(calls[0].before, files, thread, from, calls[0].step, calls[0].after)
    &&& match calls[0].step {
        PlanStepView::Tell { next, .. } => is_planning(calls.drop_first(), files, thread, next),
        PlanStepView::Notify => calls.len() == 1,
    }
}

/// Nobody else changes the entries between the calls.
pub open spec fn undisturbed(calls: Seq<PlanCall>) -> bool {
    forall|i: int, j: int|
        0 <= i && j == i + 1 && j < calls.len() ==> (#[trigger] calls[j]).before == (
        #[trigger] calls[i]).after
}

/// Others may add and change entries between the calls, but nobody takes an
/// address away.
pub open spec fn nothing_forgotten(calls: Seq<PlanCall>) -> bool {
    forall|i: int, j: int, url: Seq<char>|
        0 <= i && j == i + 1 && j < calls.len() && #[trigger] state::has_url(calls[i].after, url)
            ==> #[trigger] state::has_url(calls[j].before, url)
}

/// What planning a page sends.
pub enum PlanMessage {
    ToStore(DbRequestView),
    ToWorker,
}

/// What is sent after some calls, one message for each.
pub open spec fn plan_messages(calls: Seq<PlanCall>) -> Seq<PlanMessage> {
    calls.map_values(
        |call: PlanCall|
            match call.step {
                PlanStepView::Tell { request, .. } => PlanMessage::ToStore(request),
                PlanStepView::Notify => PlanMessage::ToWorker,
            },
    )
}

/// What is sent for a page that brings some new entries: the store is told of
/// each, and then the worker is woken.
pub open spec fn page_messages(planned: Seq<MediaEntryView>) -> Seq<PlanMessage> {
    media_requests(planned).map_values(
        |request: DbRequestView| PlanMessage::ToStore(request),
    ).push(PlanMessage::ToWorker)
}

/// The entries that planning a page adds.
pub open spec fn new_entries(
    medias: Seq<MediaEntryView>,
    files: Seq<UrlFileView>,
    thread: ThreadUrlView,
) -> Seq<MediaEntryView> {
    with_files(medias, files, thread).skip(medias.len() as int)
}

proof fn known_files_are_passed(
    medias: Seq<MediaEntryView>,
    files: Seq<UrlFileView>,
    thread: ThreadUrlView,
    from: int,
    to: int,
)
    requires
        0 <= from <= to <= files.len(),
        all_known(medias, files, from, to),
    ensures
        with_files(medias, files.skip(from), thread) == with_files(medias, files.skip(to), thread),
    decreases to - from,
{
    if from < to {
        assert(files.skip(from).drop_first() =~= files.skip(from + 1));
        assert(state::has_url(medias, files[from].url.href));
        known_files_are_passed(medias, files, thread, from + 1, to);
    }
}

proof fn planning_sends_the_rest(
    calls: Seq<PlanCall>,
    files: Seq<UrlFileView>,
    thread: ThreadUrlView,
    from: int,
)
    requires
        is_planning(calls, files, thread, from),
        undisturbed(calls),
        state::distinct_urls(calls[0].before),
        0 <= from <= files.len(),
    ensures
        calls.last().after == with_files(calls[0].before, files.skip(from), thread),
        plan_messages(calls) == page_messages(
            new_entries(calls[0].before, files.skip(from), thread),
        ),
    decreases calls.len(),
{
    let before = calls[0].before;
    let all = with_files(before, files.skip(from), thread);
    match calls[0].step {
        PlanStepView::Tell { next, request } => {
            let media = entry_of(files[next - 1], thread);
            let after = before.push(media);
            let rest = calls.drop_first();
            reveal_with_fuel(is_planning, 2);
            known_files_are_passed(before, files, thread, from, next - 1);
            assert(files.skip(next - 1).drop_first() =~= files.skip(next));
            assert(all == with_files(after, files.skip(next), thread));
            assert(state::distinct_urls(after)) by {
                assert forall|i: int, j: int| 0 <= i < j < after.len() implies (
                #[trigger] after[i]).url != (#[trigger] after[j]).url by {
                    if j == before.len() {
                        assert(before[i].url != media.url);
                    }
                }
            }
            assert(calls[1].before == calls[0].after);
            assert forall|i: int, j: int| 0 <= i && j == i + 1 && j < rest.len() implies (
            #[trigger] rest[j]).before == (#[trigger] rest[i]).after by {
                assert(calls[j + 1].before == calls[i + 1].after);
            }
            planning_sends_the_rest(rest, files, thread, next);
            planning_keeps_what_is_there(after, files.skip(next), thread);
            assert(after[before.len() as int] == all.subrange(0, after.len() as int)[
                before.len() as int
            ]);
            assert(all.skip(before.len() as int) =~= seq![media] + all.skip(after.len() as int));
            assert(plan_messages(calls) =~= seq![PlanMessage::ToStore(request)] + plan_messages(
                rest,
            ));
            assert(page_messages(all.skip(before.len() as int)) =~= seq![
                PlanMessage::ToStore(request),
            ] + page_messages(all.skip(after.len() as int)));
        },
        PlanStepView::Notify => {
            known_files_are_passed(before, files, thread, from, files.len() as int);
            assert(all == before);
            assert(all.skip(before.len() as int) =~= seq![]);
            assert(plan_messages(calls) =~= page_messages(seq![]));
        },
    }
}

/// Planning a whole page tells the store once of each entry that is added, in
/// the order in which they are added, and then wakes the worker once, also
/// where nothing was new.
pub proof fn a_page_is_told_in_full(
    calls: Seq<PlanCall>,
    files: Seq<UrlFileView>,
    thread: ThreadUrlView,
)
    requires
        is_planning(calls, files, thread, 0),
        undisturbed(calls),
        state::distinct_urls(calls[0].before),
    ensures
        calls.last().after == with_files(calls[0].before, files, thread),
        plan_messages(calls) == page_messages(new_entries(calls[0].before, files, thread)),
{
    assert(files.skip(0) =~= files);
    planning_sends_the_rest(calls, files, thread, 0);
}

/// Planning a page again sends nothing to the store, whichever thread it is
/// read for: it only wakes the worker.
pub proof fn a_known_page_only_wakes_the_worker(
    medias: Seq<MediaEntryView>,
    files: Seq<UrlFileView>,
    thread: ThreadUrlView,
    other: ThreadUrlView,
    calls: Seq<PlanCall>,
)
    requires
        state::distinct_urls(medias),
        is_planning(calls, files, other, 0),
        calls[0].before == with_files(medias, files, thread),
    ensures
        plan_messages(calls) == seq![PlanMessage::ToWorker],
        calls.last().after == with_files(medias, files, thread),
{
    planning_keeps_what_is_there(medias, files, thread);
    if let PlanStepView::Tell { next, .. } = calls[0].step {
        assert(state::has_url(calls[0].before, files[next - 1].url.href));
    }
    assert(plan_messages(calls) =~= seq![PlanMessage::ToWorker]);
}

/// Where a call goes on, where it tells the store of a file.
pub open spec fn next_of(call: PlanCall) -> int {
    call.step->next
}

/// The file that a call tells the store of.
pub open spec fn told_file(call: PlanCall, files: Seq<UrlFileView>) -> UrlFileView {
    files[next_of(call) - 1]
}

/// Whether some calls tell the store of files of a page from the `from`th on, in
/// their order, of each by its entry, of no address that was known at the start
/// and of none twice, and then leave no file of the page unknown.
pub open spec fn tells_what_is_new(
    calls: Seq<PlanCall>,
    files: Seq<UrlFileView>,
    thread: ThreadUrlView,
    from: int,
) -> bool {
    &&& forall|i: int|
        0 <= i < calls.len() - 1 ==> {
            &&& (#[trigger] calls[i]).step is Tell
            &&& from < next_of(calls[i]) <= files.len()
            &&& calls[i].step->request == DbRequestView::NewMedia(
                entry_of(told_file(calls[i], files), thread),
            )
            &&& !state::has_url(calls[0].before, told_file(calls[i], files).url.href)
        }
    &&& forall|i: int, j: int|
        0 <= i < j < calls.len() - 1 ==> {
            &&& next_of(#[trigger] calls[i]) < next_of(#[trigger] calls[j])
            &&& told_file(calls[i], files).url.href != told_file(calls[j], files).url.href
        }
    &&& calls.last().step is Notify
    &&& all_known(calls.last().after, files, from, files.len() as int)
}

proof fn the_rest_is_told_once(
    calls: Seq<PlanCall>,
    files: Seq<UrlFileView>,
    thread: ThreadUrlView,
    from: int,
)
    requires
        is_planning(calls, files, thread, from),
        nothing_forgotten(calls),
        0 <= from <= files.len(),
    ensures
        tells_what_is_new(calls, files, thread, from),
        forall|url: Seq<char>| #[trigger]
            state::has_url(calls[0].before, url) ==> state::has_url(calls.last().after, url),
    decreases calls.len(),
{
    match calls[0].step {
        PlanStepView::Tell { next, .. } => {
            let before = calls[0].before;
            let media = entry_of(files[next - 1], thread);
            let after = calls[0].after;
            let rest = calls.drop_first();
            reveal_with_fuel(is_planning, 2);
            assert forall|i: int, j: int, url: Seq<char>|
                0 <= i && j == i + 1 && j < rest.len() && #[trigger] state::has_url(
                    rest[i].after,
                    url,
                ) implies #[trigger] state::has_url(rest[j].before, url) by {
                assert(rest[i] == calls[i + 1] && rest[j] == calls[j + 1]);
                assert(state::has_url(calls[i + 1].after, url));
            }
            the_rest_is_told_once(rest, files, thread, next);
            assert forall|url: Seq<char>|
                #[trigger] state::has_url(before, url) || url == media.url implies state::has_url(
                rest[0].before,
                url,
            ) by {
                if url == media.url {
                    assert(after[before.len() as int].url == url);
                } else {
                    let i = choose|i: int|
                        0 <= i < before.len() && (#[trigger] before[i]).url == url;
                    assert(after[i].url == url);
                }
                assert(state::has_url(calls[0].after, url));
                assert(state::has_url(calls[1].before, url));
            }
            assert(calls.last() == rest.last());
            assert(forall|i: int| 1 <= i < calls.len() ==> #[trigger] calls[i] == rest[i - 1]);
            assert(state::has_url(rest[0].before, media.url));
            assert(all_known(calls.last().after, files, from, files.len() as int)) by {
                assert forall|k: int| from <= k < files.len() implies state::has_url(
                    calls.last().after,
                    (#[trigger] files[k]).url.href,
                ) by {
                    if k < next {
                        assert(state::has_url(rest[0].before, files[k].url.href));
                    }
                }
            }
        },
        PlanStepView::Notify => {},
    }
}

/// Whatever others add to the entries while a page is planned, the store is told
/// of the files of the page in their order, of no address twice, and of none
/// that was known when planning began; then the worker is woken once, and every
/// file of the page has an entry.
pub proof fn new_files_are_told_once(
    calls: Seq<PlanCall>,
    files: Seq<UrlFileView>,
    thread: ThreadUrlView,
)
    requires
        is_planning(calls, files, thread, 0),
        nothing_forgotten(calls),
    ensures
        tells_what_is_new(calls, files, thread, 0),
{
    the_rest_is_told_once(calls, files, thread, 0);
}

/// The text of a header is its value, character for byte, and there is one
/// exactly where no byte is a control character other than the tab, nor outside
/// of ASCII.
pub proof fn headers_are_read_byte_by_byte(value: Seq<u8>)
    ensures
        header_text(value) is Some <==> !exists|i: int|
            0 <= i < value.len() && ((#[trigger] value[i]) < 32 && value[i] != 9 || value[i] >= 127),
        header_text(value) matches Some(t) ==> t.len() == value.len() && forall|i: int|
            0 <= i < value.len() ==> #[trigger] t[i] == value[i] as char,
{
    if forall|i: int| 0 <= i < value.len() ==> is_visible(#[trigger] value[i]) {
        assert forall|i: int| 0 <= i < value.len() implies !((#[trigger] value[i]) < 32 && value[i]
            != 9 || value[i] >= 127) by {
            assert(is_visible(value[i]));
        }
    } else {
        let i = choose|i: int| 0 <= i < value.len() && !is_visible(#[trigger] value[i]);
        assert(value[i] < 32 && value[i] != 9 || value[i] >= 127);
    }
}

/// What a status says: 304 that nothing has changed, 404 that the page is not
/// there, 502 that the site is not; every other answer that is known has a page,
/// and its final address leads to threads. Only a page brings another date.
pub proof fn answers_go_by_their_status(head: PageHead, date: Option<Seq<char>>)
    ensures
        without_body(head.status) matches Some(RespType::NotModified) <==> head.status == 304,
        without_body(head.status) matches Some(RespType::NotFound) <==> head.status == 404,
        without_body(head.status) matches Some(RespType::BadGateway) <==> head.status == 502,
        without_body(head.status) is None <==> head.status != 304 && head.status != 404
            && head.status != 502,
        is_answer(head) <==> head.status == 304 || head.status == 404 || head.status == 502 || (200
            <= head.status < 300 && thread_url::known_section(head.final_url@)),
        head.status == 304 || head.status == 404 || head.status == 502 ==> date_after(date, head)
            == date,
        200 <= head.status < 300 ==> date_after(date, head) == (match head.last_modified {
            Some(value) => header_text(value@),
            None => None,
        }),
{
}

/// An answer that brings a page never counts as a failure, whatever the page
/// holds, nor does the word that nothing has changed: either starts the count
/// anew. The failures are the answers that the page or the site is not there,
/// which is what 404 and 502 say; each counts once.
pub proof fn only_missing_pages_are_failures(failures: int, resp: RespType, status: u16)
    ensures
        resp is Page || resp is NotModified ==> failures_after(failures, resp) == 0,
        resp is NotFound || resp is BadGateway ==> failures_after(failures, resp) == failures + 1,
        without_body(status) matches Some(answer) ==> (is_failure(answer) <==> status == 404
            || status == 502),
        is_failure(resp) <==> resp is NotFound || resp is BadGateway,
{
}

/// A thread is over exactly where its answer came from the archive, or where a
/// page or the site is missing for the sixth time in a row.
pub proof fn threads_end_in_the_archive_or_by_failing(
    failures: int,
    resp: RespType,
    is_archived: bool,
)
    requires
        failures >= 0,
    ensures
        is_over(failures, resp, is_archived) <==> is_archived || (failures >= 5 && (resp is NotFound
            || resp is BadGateway)),
{
}

/// A watch comes to its end exactly where its last answer came from the archive,
/// or where its last six answers all said that the page or the site is not
/// there.
pub proof fn a_watch_ends_after_six_failures(rounds: Seq<WatchRound>)
    requires
        rounds.len() > 0,
    ensures
        over_after(rounds) <==> rounds.last().is_archived || (rounds.len() >= 6 && forall|i: int|
            rounds.len() - 6 <= i < rounds.len() ==> (#[trigger] rounds[i]).resp is NotFound
                || rounds[i].resp is BadGateway),
{
    let answers = answers_of(rounds);
    assert(answers.drop_last() =~= answers_of(rounds.drop_last()));
    assert(answers.last() == rounds.last().resp);
    failures_are_counted(answers, 6);
    assert(failures_at_end(answers) > MAX_ATTEMPTS <==> failures_at_end(answers) >= 6);
    if ends_in_failures(answers, 6) {
        assert forall|i: int| rounds.len() - 6 <= i < rounds.len() implies (
        #[trigger] rounds[i]).resp is NotFound || rounds[i].resp is BadGateway by {
            assert(is_failure(answers[i]));
        }
    }
    if rounds.len() >= 6 && forall|i: int|
        rounds.len() - 6 <= i < rounds.len() ==> (#[trigger] rounds[i]).resp is NotFound
            || rounds[i].resp is BadGateway {
        assert forall|i: int| answers.len() - 6 <= i < answers.len() implies is_failure(
            #[trigger] answers[i],
        ) by {
            assert(rounds[i].resp is NotFound || rounds[i].resp is BadGateway);
        }
    }
}

/// A thread whose pages keep coming, with media or without, is watched on and
/// on, and so is one that does not change, as long as it is not archived.
pub proof fn pages_keep_a_watch_going(rounds: Seq<WatchRound>)
    requires
        forall|i: int|
            0 <= i < rounds.len() ==> !(#[trigger] rounds[i]).is_archived && (rounds[i].resp is Page
                || rounds[i].resp is NotModified),
    ensures
        !over_after(rounds),
        is_watch(rounds),
        failures_at_end(answers_of(rounds)) == 0,
{
    assert forall|n: int| 0 <= n < rounds.len() implies !over_after(#[trigger] rounds.take(n)) by {
        if n > 0 {
            let some = rounds.take(n);
            a_watch_ends_after_six_failures(some);
            assert(some[n - 1] == rounds[n - 1]);
            assert(some.last() == rounds[n - 1]);
        }
    }
    if rounds.len() > 0 {
        a_watch_ends_after_six_failures(rounds);
        let last = rounds[rounds.len() - 1];
        assert(last == rounds.last());
        assert(answers_of(rounds).last() == last.resp);
    }
}

/// Whether a watcher goes on is decided by six failures in a row, and nothing
/// else: it has not given up exactly as long as it counts five at most.
pub proof fn watchers_forgive_five_failures(watch: ThreadWatch)
    ensures
        watch.wf() <==> watch.not_found_attempts <= 5,
        PAUSE_SECONDS == 50,
{
}

/// The entry of a file has the file's address and name, belongs to the thread
/// that it is planned for, and is to be downloaded, whatever the thread.
pub proof fn planned_entries_are_ready(file: UrlFileView, thread: ThreadUrlView)
    ensures
        entry_of(file, thread).url == file.url.href,
        entry_of(file, thread).url_filename == file.url_filename,
        entry_of(file, thread).thread == thread,
        entry_of(file, thread).state == DlEntryStatus::JustAdded,
        entry_of(file, thread).ready(),
{
}

/// Planning goes file by file: no file adds nothing; one file adds its entry at
/// the end where its address is new, and nothing where it is known; and the
/// files of a page are planned one after the other.
pub proof fn planning_goes_file_by_file(
    medias: Seq<MediaEntryView>,
    files: Seq<UrlFileView>,
    more: Seq<UrlFileView>,
    file: UrlFileView,
    thread: ThreadUrlView,
)
    ensures
        with_files(medias, Seq::<UrlFileView>::empty(), thread) == medias,
        state::has_url(medias, file.url.href) ==> with_files(medias, seq![file], thread) == medias,
        !state::has_url(medias, file.url.href) ==> with_files(medias, seq![file], thread) == medias
            + seq![
            MediaEntryView {
                url: file.url.href,
                state: DlEntryStatus::JustAdded,
                thread,
                url_filename: file.url_filename,
            },
        ],
        with_files(medias, files + more, thread) == with_files(
            with_files(medias, files, thread),
            more,
            thread,
        ),
    decreases files.len(),
{
    let one = seq![file];
    reveal_with_fuel(with_files, 2);
    assert(one.drop_first() =~= Seq::<UrlFileView>::empty());
    assert(medias.push(entry_of(file, thread)) =~= medias + seq![entry_of(file, thread)]);
    if files.len() == 0 {
        assert(files + more =~= more);
    } else {
        let first = state::with_media(medias, entry_of(files[0], thread));
        assert((files + more).drop_first() =~= files.drop_first() + more);
        assert((files + more)[0] == files[0]);
        planning_goes_file_by_file(first, files.drop_first(), more, file, thread);
    }
}

/// Whether an entry is that of one of some files, planned for a thread.
spec fn is_planned_for(
    entry: MediaEntryView,
    files: Seq<UrlFileView>,
    thread: ThreadUrlView,
) -> bool {
    exists|k: int| 0 <= k < files.len() && entry == entry_of(#[trigger] files[k], thread)
}

proof fn new_entries_come_from_files(
    medias: Seq<MediaEntryView>,
    files: Seq<UrlFileView>,
    thread: ThreadUrlView,
)
    ensures
        with_files(medias, files, thread).len() >= medias.len(),
        forall|i: int|
            0 <= i < medias.len() ==> #[trigger] with_files(medias, files, thread)[i] == medias[i],
        forall|i: int|
            medias.len() <= i < with_files(medias, files, thread).len() ==> {
                &&& is_planned_for(#[trigger] with_files(medias, files, thread)[i], files, thread)
                &&& !state::has_url(medias, with_files(medias, files, thread)[i].url)
            },
    decreases files.len(),
{
    if files.len() > 0 {
        let entry = entry_of(files[0], thread);
        let first = state::with_media(medias, entry);
        let rest = files.drop_first();
        let all = with_files(medias, files, thread);
        new_entries_come_from_files(first, rest, thread);
        assert forall|i: int| 0 <= i < medias.len() implies #[trigger] all[i] == medias[i] by {
            assert(first[i] == medias[i]);
        }
        assert forall|i: int| medias.len() <= i < all.len() implies is_planned_for(
            #[trigger] all[i],
            files,
            thread,
        ) && !state::has_url(medias, all[i].url) by {
            if i < first.len() {
                assert(all[i] == first[i]);
                assert(all[i] == entry_of(files[0], thread));
            } else {
                let k = choose|k: int|
                    0 <= k < rest.len() && all[i] == entry_of(#[trigger] rest[k], thread);
                assert(files[k + 1] == rest[k]);
                if state::has_url(medias, all[i].url) {
                    state::addresses_stay(medias, entry, all[i].url);
                }
            }
        }
    }
}

/// Every entry that planning a page adds is that of a file of the page whose
/// address was not known: it has the file's address and name, belongs to the
/// thread and is to be downloaded. Every such file gets one, and the worker then
/// has something to do.
pub proof fn new_files_are_planned_for_download(
    medias: Seq<MediaEntryView>,
    files: Seq<UrlFileView>,
    thread: ThreadUrlView,
)
    requires
        state::distinct_urls(medias),
    ensures
        with_files(medias, files, thread) == medias + new_entries(medias, files, thread),
        forall|i: int|
            0 <= i < new_entries(medias, files, thread).len() ==> {
                let entry = #[trigger] new_entries(medias, files, thread)[i];
                &&& entry.state == DlEntryStatus::JustAdded
                &&& entry.thread == thread
                &&& !state::has_url(medias, entry.url)
                &&& exists|k: int|
                    0 <= k < files.len() && (#[trigger] files[k]).url.href == entry.url
                        && files[k].url_filename == entry.url_filename
            },
        forall|k: int|
            0 <= k < files.len() && !state::has_url(medias, (#[trigger] files[k]).url.href)
                ==> state::has_url(new_entries(medias, files, thread), files[k].url.href),
        new_entries(medias, files, thread).len() > 0 ==> exists|next: MediaEntryView| #[trigger]
            media_downloader::is_next_media(with_files(medias, files, thread), next),
{
    let all = with_files(medias, files, thread);
    let new = new_entries(medias, files, thread);
    let n = medias.len() as int;
    new_entries_come_from_files(medias, files, thread);
    planning_keeps_what_is_there(medias, files, thread);
    assert(all =~= medias + new);
    assert forall|i: int| 0 <= i < new.len() implies {
        let entry = #[trigger] new[i];
        &&& entry.state == DlEntryStatus::JustAdded
        &&& entry.thread == thread
        &&& !state::has_url(medias, entry.url)
        &&& exists|k: int|
            0 <= k < files.len() && (#[trigger] files[k]).url.href == entry.url
                && files[k].url_filename == entry.url_filename
    } by {
        assert(new[i] == all[n + i]);
        assert(is_planned_for(all[n + i], files, thread));
        let k = choose|k: int|
            0 <= k < files.len() && all[n + i] == entry_of(#[trigger] files[k], thread);
        assert(files[k].url.href == new[i].url);
    }
    assert forall|k: int|
        0 <= k < files.len() && !state::has_url(
            medias,
            (#[trigger] files[k]).url.href,
        ) implies state::has_url(new, files[k].url.href) by {
        let url = files[k].url.href;
        assert(state::has_url(all, url));
        let i = choose|i: int| 0 <= i < all.len() && (#[trigger] all[i]).url == url;
        if i < n {
            assert(medias[i].url == url);
        } else {
            assert(new[i - n].url == url);
        }
    }
    if new.len() > 0 {
        assert(new[0].state == DlEntryStatus::JustAdded);
        assert(all[n] == new[0]);
        media_downloader::the_first_added_comes_first(all, n);
    }
}

/// What is planned is downloaded: left alone, the worker comes to every file of
/// a page that was new, and marks it as done.
pub proof fn new_files_are_downloaded(
    medias: Seq<MediaEntryView>,
    files: Seq<UrlFileView>,
    thread: ThreadUrlView,
    k: int,
)
    requires
        state::distinct_urls(medias),
        0 <= k < files.len(),
        !state::has_url(medias, files[k].url.href),
    ensures
        ({
            let planned = with_files(medias, files, thread);
            let done = media_downloader::after_rounds(
                planned,
                media_downloader::ready_count(planned),
            );
            exists|i: int|
                {
                    &&& 0 <= i < done.len()
                    &&& (#[trigger] done[i]).url == files[k].url.href
                    &&& done[i].state == DlEntryStatus::Finished
                    &&& done[i].thread == thread
                    &&& planned[i].state == DlEntryStatus::JustAdded
                }
        }),
{
    let planned = with_files(medias, files, thread);
    let new = new_entries(medias, files, thread);
    let done = media_downloader::after_rounds(planned, media_downloader::ready_count(planned));
    let url = files[k].url.href;
    new_files_are_planned_for_download(medias, files, thread);
    planning_keeps_what_is_there(medias, files, thread);
    media_downloader::everything_is_downloaded(planned);
    let i = choose|i: int| 0 <= i < new.len() && (#[trigger] new[i]).url == url;
    let place = medias.len() + i;
    assert(planned[place] == new[i]);
    assert(planned[place].ready());
    assert(done[place] == media_downloader::finished(planned[place]));
    assert(done[place].url == url);
}

/// A step of planning says what it adds, and adds nothing else: the entry of the
/// first file from the given place on whose address is new, at the end, and it is
/// what the store is told of.
pub proof fn steps_add_the_first_new_file(
    before: Seq<MediaEntryView>,
    files: Seq<UrlFileView>,
    thread: ThreadUrlView,
    from: int,
    step: PlanStepView,
    after: Seq<MediaEntryView>,
)
    requires
        0 <= from <= files.len(),
        is_plan_step(before, files, thread, from, step, after),
    ensures
        step is Notify <==> forall|k: int|
            from <= k < files.len() ==> state::has_url(before, (#[trigger] files[k]).url.href),
        step is Notify ==> after == before,
        step matches PlanStepView::Tell { next, request } ==> {
            &&& from < next <= files.len()
            &&& !state::has_url(before, files[next - 1].url.href)
            &&& forall|k: int|
                from <= k < next - 1 ==> state::has_url(before, (#[trigger] files[k]).url.href)
            &&& request matches DbRequestView::NewMedia(media)
            &&& media.url == files[next - 1].url.href
            &&& media.url_filename == files[next - 1].url_filename
            &&& media.thread == thread
            &&& media.state == DlEntryStatus::JustAdded
            &&& after == before + seq![media]
        },
{
    if let PlanStepView::Tell { next, request } = step {
        let media = entry_of(files[next - 1], thread);
        assert(before.push(media) =~= before + seq![media]);
        assert(!state::has_url(before, files[next - 1].url.href));
    }
}

} // verus!
