use turnik::address::Url;
use turnik::db_async::{finish_thread, new_media, new_thread, DbRequest};
use turnik::local_path::LocalPath;
use turnik::media_downloader::{
    media_file, notification, notify_new_media, process_media, update_media, MediaThreadInt,
    MediaTick, SendOutcome, WakeEvent,
};
use turnik::media_link::UrlFile;
use turnik::state::{DlEntryStatus, MediaEntry, ThreadState};
use turnik::thread_downloader::{
    index_path, is_known_answer, is_success, json_path, page_request, plan_media, read_body,
    read_head, what_to_keep, ClientWrap, HeadStep, LoopStep, PageHead, PlanStep, RespType,
    ThreadResult, ThreadWatch,
};
use turnik::thread_url::DvachThreadUrl;

fn thread() -> DvachThreadUrl {
    DvachThreadUrl { board: "b".to_owned(), thread_number: "7".to_owned(), is_archive: false }
}

fn state() -> ThreadState {
    ThreadState::new(&LocalPath::from_root("/media".to_owned()))
}

fn file(text: &str) -> UrlFile {
    UrlFile::from_url_or_none(Url::parse(text).unwrap()).unwrap()
}

fn plan_all(state: &mut ThreadState, urls: &Vec<UrlFile>) -> Vec<String> {
    let mut new = Vec::new();
    let mut from = 0;
    while let PlanStep::Tell { next, request } = plan_media(state, urls, from, &thread()) {
        match request {
            DbRequest::NewMedia(media) => new.push(media.url),
            _ => panic!("a new medium"),
        }
        from = next;
    }
    new
}

fn urls_of(state: &ThreadState) -> Vec<&str> {
    state.medias.iter().map(|m| m.url.as_str()).collect()
}

#[test]
fn a_state_starts_empty() {
    let mut s = state();
    assert!(s.threads.is_empty() && s.medias.is_empty() && !s.is_running);
    assert_eq!(s.download_directory.root, "/media");
    s.plan_thread("https://2ch.hk/b/res/1.html".to_owned()).is_running = true;
    assert!(s.is_running && s.threads.is_empty());
}

#[test]
fn files_are_planned_once() {
    let mut s = state();
    let urls = vec![
        file("https://2ch.hk/b/src/7/1.jpg"),
        file("https://2ch.hk/b/src/7/2.jpg"),
        file("https://2ch.hk/b/src/7/1.jpg"),
        file("https://2ch.hk/b/src/7/3.jpg"),
    ];
    let three = vec![
        "https://2ch.hk/b/src/7/1.jpg",
        "https://2ch.hk/b/src/7/2.jpg",
        "https://2ch.hk/b/src/7/3.jpg",
    ];
    assert_eq!(plan_all(&mut s, &urls), three);
    assert_eq!(urls_of(&s), three);
    assert!(plan_all(&mut s, &urls).is_empty());
    assert_eq!(urls_of(&s), three);
    assert_eq!(s.medias[1].url_filename, "2.jpg");
    assert_eq!(s.medias[1].state, DlEntryStatus::JustAdded);
    assert!(s.medias[1].thread == thread());
    assert!(matches!(plan_media(&mut s, &Vec::new(), 0, &thread()), PlanStep::Notify));
    assert!(matches!(plan_media(&mut s, &urls, 4, &thread()), PlanStep::Notify));
    let media = s.medias[0].clone();
    assert!(!s.plan_media(&media));
    assert!(media == s.medias[0] && media != s.medias[1]);
}

#[test]
fn files_of_two_pages_at_once() {
    let one = vec![file("https://2ch.hk/b/src/7/1.jpg"), file("https://2ch.hk/b/src/7/2.jpg")];
    let other = vec![file("https://2ch.hk/b/src/7/2.jpg"), file("https://2ch.hk/b/src/7/3.jpg")];
    let mut s = state();
    match plan_media(&mut s, &one, 0, &thread()) {
        PlanStep::Tell { next, request: DbRequest::NewMedia(media) } => {
            assert_eq!((next, media.url.as_str()), (1, "https://2ch.hk/b/src/7/1.jpg"));
            assert_eq!(media.url_filename, "1.jpg");
            assert!(media.thread == thread());
        }
        _ => panic!("a new medium"),
    }
    assert_eq!(plan_all(&mut s, &other).len(), 2);
    assert!(matches!(plan_media(&mut s, &one, 1, &thread()), PlanStep::Notify));
    assert_eq!(s.medias.len(), 3);
}

#[test]
fn media_are_downloaded_once() {
    let mut s = state();
    let urls = vec![file("https://2ch.hk/b/src/7/1.jpg"), file("https://2ch.hk/b/src/7/2.jpg")];
    plan_all(&mut s, &urls);

    let first = MediaThreadInt::get_next_media(&s).unwrap();
    assert_eq!(first.url, "https://2ch.hk/b/src/7/1.jpg");
    assert!(first.is_ready_for_download());
    assert_eq!(media_file(&s, &first).parts, vec!["b", "7", "1.jpg"]);
    let download = process_media(&mut s, &first, false).unwrap();
    assert_eq!(download.url, "https://2ch.hk/b/src/7/1.jpg");
    assert_eq!(download.target.root, "/media");
    assert_eq!(download.target.parts, vec!["b", "7", "1.jpg"]);
    assert_eq!(download.temporary.parts, vec!["b", "7", "1.jpg.tmp"]);
    assert_eq!(s.medias[0].state, DlEntryStatus::JustAdded);
    update_media(&mut s, &first);
    assert_eq!(s.medias[0].state, DlEntryStatus::Finished);
    assert_eq!(s.medias[1].state, DlEntryStatus::JustAdded);

    let second = MediaThreadInt::get_next_media(&s).unwrap();
    assert_eq!(second.url, "https://2ch.hk/b/src/7/2.jpg");
    assert!(process_media(&mut s, &second, true).is_none());
    assert_eq!(s.medias[1].state, DlEntryStatus::Finished);
    assert!(MediaThreadInt::get_next_media(&s).is_none());

    // Planned again, a finished file stays finished.
    assert!(plan_all(&mut s, &urls).is_empty());
    assert!(MediaThreadInt::get_next_media(&s).is_none());
    assert_eq!(s.medias.len(), 2);
}

#[test]
fn an_unknown_medium_is_added_when_done() {
    let mut s = state();
    let media = MediaEntry {
        url: "https://2ch.hk/x.png".to_owned(),
        state: DlEntryStatus::Downloading,
        thread: thread(),
        url_filename: "x.png".to_owned(),
    };
    assert!(!media.is_ready_for_download());
    update_media(&mut s, &media);
    assert_eq!(s.medias.len(), 1);
    assert_eq!(s.medias[0].state, DlEntryStatus::Finished);
}

#[test]
fn rounds_of_the_worker() {
    let mut s = state();
    assert!(matches!(MediaThreadInt::start(true, &s), MediaTick::Stop));
    assert!(matches!(MediaThreadInt::start(false, &s), MediaTick::Wait));
    plan_all(&mut s, &vec![file("https://2ch.hk/b/src/7/1.jpg")]);
    assert!(matches!(MediaThreadInt::start(true, &s), MediaTick::Stop));
    match MediaThreadInt::start(false, &s) {
        MediaTick::Process(media) => assert_eq!(media.url_filename, "1.jpg"),
        _ => panic!("there is work"),
    }
    assert!(MediaThreadInt::wait_notify_or_shoutwown(WakeEvent::Shutdown));
    assert!(!MediaThreadInt::wait_notify_or_shoutwown(WakeEvent::Notified));
}

#[test]
fn notifications() {
    let n = notification();
    assert_eq!((n.url.as_str(), n.url_filename.as_str()), ("()", "()"));
    assert!(n.thread == DvachThreadUrl::default());
    assert_eq!(n.state, DlEntryStatus::JustAdded);
    assert!(notify_new_media(SendOutcome::Sent).is_ok());
    assert!(notify_new_media(SendOutcome::Full).is_ok());
    assert_eq!(notify_new_media(SendOutcome::Closed).unwrap_err().message(), "channel closed");
}

fn head(status: u16, last_modified: Option<&[u8]>, url: &str) -> PageHead {
    PageHead {
        status,
        last_modified: last_modified.map(|v| v.to_vec()),
        final_url: Url::parse(url).unwrap(),
    }
}

#[test]
fn answers_without_a_body() {
    let client = ClientWrap { last_modifed: Some("yesterday".to_owned()) };
    for status in [304, 404, 502] {
        let h = head(status, Some(b"today"), "https://2ch.hk/anything/else");
        assert!(is_known_answer(&h));
        match read_head(&client, &h).unwrap() {
            HeadStep::Done(result) => {
                assert_eq!(result.last_modified.as_deref(), Some("yesterday"));
                assert!(!result.is_archived);
                let keep = what_to_keep(&result);
                assert!(!keep.media && !keep.index && !keep.json);
                assert!(match result.resp {
                    RespType::NotModified => status == 304,
                    RespType::NotFound => status == 404,
                    RespType::BadGateway => status == 502,
                    RespType::Page(_) => false,
                });
            }
            HeadStep::ReadBody { .. } => panic!("no body"),
        }
    }
    for status in [100, 199, 300, 301, 403, 500, 503] {
        assert!(!is_known_answer(&head(status, None, "https://2ch.hk/b/res/1.html")));
        assert!(!is_success(status));
    }
    assert!(!is_known_answer(&head(200, None, "https://2ch.hk/b/catalog.html")));
    assert!(is_success(200) && is_success(299));
}

#[test]
fn answers_with_a_body() {
    let client = ClientWrap::new();
    let request = page_request(&client, "https://2ch.hk/b/res/1.html");
    assert_eq!(request.url, "https://2ch.hk/b/res/1.html");
    assert_eq!(request.if_modified_since, None);

    let read = |h: &PageHead| match read_head(&client, h).unwrap() {
        HeadStep::ReadBody { is_archived, last_modified } => (is_archived, last_modified),
        HeadStep::Done(_) => panic!("a body"),
    };
    let live = "https://2ch.hk/b/res/1.html";
    let archived = "https://2ch.hk/b/arch/2020-06-01/res/1.html";
    assert_eq!(
        read(&head(200, Some(b"Mon, 01 Jun\t2020~"), live)),
        (false, Some("Mon, 01 Jun\t2020~".to_owned()))
    );
    assert_eq!(read(&head(204, None, archived)), (true, None));
    assert_eq!(read(&head(200, Some(b"\xd0\xbf"), live)), (false, None));
    assert_eq!(read(&head(200, Some(b"a\x7f"), live)), (false, None));
    assert_eq!(read(&head(200, Some(b"a\n"), live)), (false, None));
    assert_eq!(read(&head(200, Some(b""), live)), (false, Some(String::new())));
    assert!(read_head(&client, &head(200, None, "https://2ch.hk/b/res")).is_err());

    let page = "<a href=/b/src/1/2.jpg>x</a>".to_owned();
    let result = read_body(page.clone(), true, Some("today".to_owned())).unwrap();
    assert!(result.is_archived);
    assert_eq!(result.last_modified.as_deref(), Some("today"));
    let keep = what_to_keep(&result);
    assert!(keep.media && keep.index && !keep.json);
    match result.resp {
        RespType::Page(p) => {
            assert_eq!(p.page_body, page);
            assert_eq!(p.media_urls.len(), 1);
            assert_eq!(p.media_urls[0].url_filename, "2.jpg");
        }
        _ => panic!("a page"),
    }
    let live = read_body(page, false, None).unwrap();
    assert!(what_to_keep(&live).json);
    assert_eq!(
        read_body("<a href='https://'>".to_owned(), false, None).unwrap_err(),
        "empty host"
    );
    let folder = LocalPath::from_root("/m".to_owned());
    assert_eq!(index_path(&folder).parts, vec!["index.html"]);
    assert_eq!(json_path(&folder).parts, vec!["index.json"]);
}

fn answer(resp: RespType, is_archived: bool) -> ThreadResult {
    ThreadResult { resp, is_archived, last_modified: Some("then".to_owned()) }
}

#[test]
fn requests_carry_the_date_of_the_latest_page() {
    let live = "https://2ch.hk/b/res/7.html";
    let answers: [(u16, Option<&[u8]>, Option<&str>); 8] = [
        (404, Some(b"never"), None),
        (200, Some(b"Monday"), Some("Monday")),
        (304, Some(b"later"), Some("Monday")),
        (502, None, Some("Monday")),
        (404, None, Some("Monday")),
        (200, Some(b"\xd0\xbf"), None),
        (206, Some(b"Tuesday"), Some("Tuesday")),
        (200, None, None),
    ];
    let mut watch = ThreadWatch::new();
    assert_eq!(page_request(&watch.client, live).if_modified_since, None);
    for (status, last_modified, expected) in answers {
        let result = match read_head(&watch.client, &head(status, last_modified, live)).unwrap() {
            HeadStep::Done(result) => result,
            HeadStep::ReadBody { is_archived, last_modified } => {
                read_body(String::new(), is_archived, last_modified).unwrap()
            }
        };
        assert!(pauses(watch.thread_downloader(&thread(), &result)));
        let next = page_request(&watch.client, live);
        assert_eq!(next.if_modified_since.as_deref(), expected);
        assert_eq!(next.url, live);
    }
}

fn pauses(step: LoopStep) -> bool {
    match step {
        LoopStep::Pause { seconds } => seconds == 50,
        LoopStep::Finish { .. } => false,
    }
}

fn finishes(step: LoopStep) -> bool {
    match step {
        LoopStep::Finish { request: DbRequest::ThreadFinished(t) } => t == thread(),
        _ => false,
    }
}

#[test]
fn requests_for_the_store() {
    let other =
        DvachThreadUrl { board: "a".to_owned(), thread_number: "1".to_owned(), is_archive: true };
    assert!(matches!(new_thread(&thread()), DbRequest::NewThread(t) if t == thread()));
    assert!(matches!(finish_thread(&other), DbRequest::ThreadFinished(t)
        if t.board == "a" && t.thread_number == "1" && t.is_archive));
    let media = notification();
    assert!(matches!(new_media(&media), DbRequest::NewMedia(m) if m.url == "()"));
}

#[test]
fn a_watch_tells_of_its_media_and_then_of_its_end() {
    let mut s = state();
    let mut watch = ThreadWatch::new();
    let pages = [
        ("<a href=/b/src/7/1.jpg>x</a><a href=/b/src/7/2.jpg>y</a>", false),
        ("<a href=/b/src/7/1.jpg>x</a>", false),
        ("<a href=/b/src/7/2.jpg>x</a><a href=/b/src/7/3.jpg>y</a>", true),
    ];
    let mut sent = Vec::new();
    for (page, is_archived) in pages {
        let result = read_body(page.to_owned(), is_archived, None).unwrap();
        if let RespType::Page(p) = &result.resp {
            let mut from = 0;
            while let PlanStep::Tell { next, request } =
                plan_media(&mut s, &p.media_urls, from, &thread())
            {
                sent.push(request);
                from = next;
            }
        }
        match watch.thread_downloader(&thread(), &result) {
            LoopStep::Finish { request } => sent.push(request),
            LoopStep::Pause { seconds } => assert_eq!(seconds, 50),
        }
    }
    assert_eq!(sent.len(), 4);
    for (i, request) in sent.iter().enumerate() {
        match request {
            DbRequest::NewMedia(m) => {
                assert_eq!(m.url, format!("https://2ch.hk/b/src/7/{}.jpg", i + 1))
            }
            DbRequest::ThreadFinished(t) => assert!(i == 3 && *t == thread()),
            _ => panic!("a request of a watch"),
        }
    }
}

#[test]
fn threads_are_given_up_after_six_failures() {
    let mut watch = ThreadWatch::new();
    assert_eq!(watch.not_found_attempts, 0);
    assert_eq!(watch.client.last_modifed, None);
    for _ in 0..5 {
        assert!(pauses(watch.thread_downloader(&thread(), &answer(RespType::NotFound, false))));
    }
    assert_eq!(watch.not_found_attempts, 5);
    assert!(pauses(watch.thread_downloader(&thread(), &answer(RespType::NotModified, false))));
    assert_eq!(watch.not_found_attempts, 0);
    assert_eq!(watch.client.last_modifed.as_deref(), Some("then"));
    for _ in 0..5 {
        assert!(pauses(watch.thread_downloader(&thread(), &answer(RespType::BadGateway, false))));
    }
    assert!(finishes(watch.thread_downloader(&thread(), &answer(RespType::NotFound, false))));
    assert_eq!(watch.not_found_attempts, 6);
}

#[test]
fn archived_threads_are_over() {
    let mut watch = ThreadWatch::new();
    let mut page = read_body(String::new(), false, None).unwrap();
    assert!(pauses(watch.thread_downloader(&thread(), &page)));
    page.is_archived = true;
    assert!(finishes(watch.thread_downloader(&thread(), &page)));
    assert_eq!(watch.client.last_modifed, None);
}
