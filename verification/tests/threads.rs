use turnik::address::Url;
use turnik::config::{config_path, get_config, threads_db};
use turnik::db_async::{DbRequest, ThreadFilter, ThreadsFromStart};
use turnik::local_path::LocalPath;
use turnik::shutdown::{check_shotdown, ShutdownSignal};
use turnik::sql::{sql_thread_runner, thread_from_row, DbAction, SELECT_ALL};
use turnik::state::{DlEntryStatus, MediaEntry, ThreadEntry};
use turnik::thread_planner::{PlannerStep, ThreadPlannerInt};
use turnik::thread_url::{has_known_section, DvachThreadUrl, ThreadUrlError};
use turnik::web::FromUi;

fn thread(board: &str, number: &str) -> DvachThreadUrl {
    DvachThreadUrl {
        board: board.to_owned(),
        thread_number: number.to_owned(),
        is_archive: false,
    }
}

fn parse(text: &str) -> Result<DvachThreadUrl, ThreadUrlError<String>> {
    let url = Url::parse(text).unwrap();
    assert!(has_known_section(&url));
    DvachThreadUrl::parse(&url)
}

#[test]
fn valid_arch_url() {
    let url = parse("https://2ch.hk/b/arch/2020-06-01/res/221558211.html#221558211").unwrap();
    assert_eq!(url.board, "b");
    assert_eq!(url.thread_number, "221558211");
    assert!(url.is_archive);
}

#[test]
fn pages_name_threads() {
    let t = parse("https://2ch.hk/soc/res/4219284.html#4219284").unwrap();
    assert_eq!(t.board, "soc");
    assert_eq!(t.thread_number, "4219284");
    assert!(!t.is_archive);
    assert_eq!(t.display(), "(soc, 4219284)");
    assert_eq!(parse("https://x.org/b/res/1.2.3/more").unwrap().thread_number, "1");
    assert_eq!(parse("https://2ch.hk/b/res/").unwrap().thread_number, "");
    assert_eq!(parse("https://2ch.hk//res/7").unwrap().board, "");
}

#[test]
fn other_pages_name_none() {
    for text in [
        "https://2ch.hk",
        "https://2ch.hk/b",
        "https://2ch.hk/b/res",
        "https://2ch.hk/b/arch",
        "https://2ch.hk/b/arch/2020-06-01",
        "https://2ch.hk/b/arch/2020-06-01/res",
        "mailto:b",
    ] {
        let e = parse(text).unwrap_err();
        assert!(matches!(e, ThreadUrlError::Missing), "{}", text);
        assert_eq!(e.message(), "no");
    }
    let e = parse("https://2ch.hk/b/arch/2020-06-01/index/1.html").unwrap_err();
    assert_eq!(e.message(), "no res https://2ch.hk/b/arch/2020-06-01/index/1.html: index");
    assert!(!has_known_section(&Url::parse("https://2ch.hk/b/catalog.html").unwrap()));
    assert!(!has_known_section(&Url::parse("https://2ch.hk/b/").unwrap()));
}

#[test]
fn addresses_of_a_thread() {
    let t = thread("b", "123");
    assert_eq!(t.to_url_string(), "https://2ch.hk/b/res/123.html");
    let json = t.json_form().unwrap();
    assert_eq!(json.href, "https://2ch.hk/b/res/123.json");
    assert!(DvachThreadUrl::parse(&json).unwrap() == t);
    let page = Url::parse(&t.to_url_string()).unwrap();
    assert!(DvachThreadUrl::parse(&page).unwrap() == t);
}

#[test]
fn archived_threads_are_the_same() {
    let live = parse("https://2ch.hk/b/res/1.html").unwrap();
    let archived = parse("https://2ch.hk/b/arch/2020-06-01/res/1.html").unwrap();
    assert!(live == archived);
    assert!(live != parse("https://2ch.hk/b/res/2.html").unwrap());
    assert!(live != parse("https://2ch.hk/a/res/1.html").unwrap());
    // Neither scheme nor host nor query matters.
    assert!(live == parse("http://example.org/b/res/1.html?x=y#z").unwrap());
    let none = DvachThreadUrl::default();
    assert!(none.board.is_empty() && none.thread_number.is_empty() && !none.is_archive);
}

#[test]
fn folders_of_threads() {
    let root = LocalPath::from_root("/media".to_owned());
    let folder = thread("b", "123").local_fs_folder(&root);
    assert_eq!(folder.root, "/media");
    assert_eq!(folder.parts, vec!["b", "123"]);
    assert!(root.parts.is_empty());
    let mut archived = thread("b", "123");
    archived.is_archive = true;
    assert_eq!(archived.local_fs_folder(&root).parts, folder.parts);
    assert_ne!(thread("b", "124").local_fs_folder(&root).parts, folder.parts);
    assert_ne!(thread("a", "123").local_fs_folder(&root).parts, folder.parts);
    assert_eq!(folder.join("x").parts, vec!["b", "123", "x"]);
}

#[test]
fn new_threads_were_seen_long_ago() {
    let entry = ThreadEntry::new("https://2ch.hk/b/res/1.html".to_owned());
    assert_eq!(entry.last_crawled, 1404810611);
    assert_eq!(entry.state, DlEntryStatus::JustAdded);
    let mut other = entry.clone();
    other.last_crawled = 0;
    assert!(entry == other);
    other.url = "x".to_owned();
    assert!(entry != other);
}

#[test]
fn threads_are_added_once() {
    let planner = ThreadPlannerInt::new();
    let known = ThreadsFromStart { threads: vec![thread("b", "1"), thread("a", "2")] };
    let url = |text: &str| Url::parse(text).unwrap();
    assert!(matches!(
        planner.add_thread(&url("https://2ch.hk/b/res/1.html"), &known),
        PlannerStep::Already
    ));
    assert!(matches!(
        planner.add_thread(&url("https://2ch.hk/a/arch/2020-06-01/res/2.html"), &known),
        PlannerStep::Already
    ));
    match planner.add_thread(&url("https://2ch.hk/b/arch/2020-06-01/res/2.html"), &known) {
        PlannerStep::Start(t) => {
            assert!(t == thread("b", "2"));
            assert!(t.is_archive);
        }
        PlannerStep::Already => panic!("not known yet"),
    }
    assert!(matches!(
        planner.first_request(),
        DbRequest::GetThreads(ThreadFilter::NotFinished)
    ));
    assert!(matches!(
        planner.start(&FromUi::AddThread(url("https://2ch.hk/b/res/1.html"))),
        DbRequest::GetThreads(ThreadFilter::All)
    ));
    let first = planner.add_new_threads_on_start(&known);
    assert_eq!(first.len(), 2);
    assert!(first[0] == thread("b", "1") && first[1] == thread("a", "2"));
}

#[test]
fn requests_become_statements() {
    match sql_thread_runner(&DbRequest::GetThreads(ThreadFilter::NotFinished)) {
        DbAction::Read { sql } => assert_eq!(
            sql,
            "SELECT id, board, thread_num, is_finished FROM thread where is_finished=false"
        ),
        _ => panic!("a read"),
    }
    match sql_thread_runner(&DbRequest::GetThreads(ThreadFilter::All)) {
        DbAction::Read { sql } => assert_eq!(sql, SELECT_ALL),
        _ => panic!("a read"),
    }
    match sql_thread_runner(&DbRequest::NewThread(thread("b", "1"))) {
        DbAction::Write { sql, board, thread_num } => {
            assert_eq!(sql, "INSERT INTO thread (board, thread_num) VALUES(?1, ?2);");
            assert_eq!((board.as_str(), thread_num.as_str()), ("b", "1"));
        }
        _ => panic!("a write"),
    }
    let mut archived = thread("b", "1");
    archived.is_archive = true;
    match sql_thread_runner(&DbRequest::ThreadFinished(archived)) {
        DbAction::Write { sql, board, thread_num } => {
            assert_eq!(sql, "UPDATE thread set is_finished=true where board=?1 and thread_num=?2");
            assert_eq!((board.as_str(), thread_num.as_str()), ("b", "1"));
        }
        _ => panic!("a write"),
    }
    let media = MediaEntry {
        url: "u".to_owned(),
        state: DlEntryStatus::JustAdded,
        thread: thread("b", "1"),
        url_filename: "f".to_owned(),
    };
    assert!(matches!(sql_thread_runner(&DbRequest::NewMedia(media)), DbAction::Nothing));
    let row = thread_from_row("b".to_owned(), "1".to_owned());
    assert!(row == thread("b", "1") && !row.is_archive);
}

#[test]
fn shutdown_signals() {
    assert!(check_shotdown(ShutdownSignal::Received));
    assert!(check_shotdown(ShutdownSignal::Closed));
    assert!(!check_shotdown(ShutdownSignal::Empty));
    assert!(!check_shotdown(ShutdownSignal::Lagged));
}

#[test]
fn places_of_the_program() {
    let dir = LocalPath::from_root("/home/u".to_owned());
    assert_eq!(config_path(&dir).parts, vec!["turnik.toml"]);
    let config = get_config(&dir, "/media".to_owned(), true);
    assert_eq!(config.download_path.root, "/media");
    assert!(config.download_path.parts.is_empty());
    assert_eq!(config.database_path.root, "/home/u");
    assert_eq!(config.database_path.parts, vec!["db"]);
    assert_eq!(threads_db(&config).root, "/media");
    assert_eq!(threads_db(&config).parts, vec!["threads.db"]);
}
