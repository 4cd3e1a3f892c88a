use turnik::json::Json;
use turnik::thread_json::{
    all_media, download_thread_json, get_data_json, is_numbered, non_media_link, read_document,
    try_download_thread_json, try_get_data_json, ThreadJsonError,
};
use turnik::web::{is_thread, web_request, AddThread, FromWeb, WebAction};

fn text(t: &str) -> Json {
    Json::Text(t.to_owned())
}

fn object(members: Vec<(&str, Json)>) -> Json {
    Json::Object(members.into_iter().map(|(k, v)| (k.to_owned(), v)).collect())
}

fn file(path: &str) -> Json {
    object(vec![("size", Json::Unsigned(1)), ("path", text(path))])
}

fn post(files: Vec<Json>) -> Json {
    object(vec![("files", Json::Array(files))])
}

fn document(posts: Vec<Json>) -> Json {
    object(vec![
        ("max_num", Json::Unsigned(9)),
        ("threads", Json::Array(vec![object(vec![("posts", Json::Array(posts))])])),
    ])
}

fn message(d: &Json) -> String {
    assert_eq!(non_media_link(d), None);
    assert!(try_get_data_json(d).unwrap().is_err());
    assert!(try_download_thread_json(d).is_none());
    get_data_json(d).unwrap_err().message()
}

#[test]
fn values_are_looked_into() {
    let d = object(vec![("a", Json::Null), ("b", Json::Bool(true)), ("a", text("late"))]);
    assert!(matches!(d.get("a"), Some(Json::Null)));
    assert!(matches!(d.get("b"), Some(Json::Bool(true))));
    assert!(d.get("c").is_none());
    assert!(text("a").get("a").is_none());
    assert_eq!(text("x").as_str(), Some("x"));
    assert_eq!(Json::Null.as_str(), None);
    assert_eq!(Json::Unsigned(7).as_u64(), Some(7));
    assert_eq!(Json::OtherNumber("-7".to_owned()).as_u64(), None);
    assert_eq!(Json::Array(vec![Json::Null]).as_array().map(|a| a.len()), Some(1));
    assert!(d.as_array().is_none());
}

#[test]
fn posts_have_media() {
    let d = document(vec![
        post(vec![file("/b/src/1/2.jpg"), file("/b/src/1/3.png")]),
        post(vec![]),
        post(vec![file("/b/src/1/2.jpg")]),
    ]);
    let files = get_data_json(&d).unwrap();
    let found: Vec<(&str, &str)> =
        files.iter().map(|f| (f.url.href.as_str(), f.url_filename.as_str())).collect();
    assert_eq!(
        found,
        vec![
            ("https://2ch.hk/b/src/1/2.jpg", "2.jpg"),
            ("https://2ch.hk/b/src/1/3.png", "3.png"),
            ("https://2ch.hk/b/src/1/2.jpg", "2.jpg"),
        ]
    );
    assert_eq!(read_document(&d).unwrap().len(), 3);
    assert_eq!(all_media(read_document(&d).unwrap()).len(), 3);
    assert!(is_numbered(&d));
    let (again, archived) = download_thread_json(&d);
    assert_eq!(again.len(), 3);
    assert!(!archived);
    assert_eq!(non_media_link(&d), None);
    assert_eq!(try_get_data_json(&d).unwrap().unwrap().len(), 3);
    let (tried, archived) = try_download_thread_json(&d).unwrap();
    assert_eq!(tried[1].url.href, "https://2ch.hk/b/src/1/3.png");
    assert!(!archived);
    assert!(get_data_json(&document(vec![])).unwrap().is_empty());
}

#[test]
fn documents_that_are_none() {
    assert_eq!(message(&Json::Null), "no threads");
    assert_eq!(message(&object(vec![("threads", text("x"))])), "not array");
    assert_eq!(message(&object(vec![("threads", Json::Array(vec![]))])), "threads more than one");
    let two = Json::Array(vec![Json::Null, Json::Null]);
    assert_eq!(message(&object(vec![("threads", two)])), "threads more than one");
    let one = |t: Json| object(vec![("threads", Json::Array(vec![t]))]);
    assert_eq!(message(&one(Json::Null)), "no");
    assert!(matches!(get_data_json(&one(Json::Null)), Err(ThreadJsonError::NoPosts)));
    assert_eq!(message(&one(object(vec![("posts", Json::Null)]))), "no");
    assert_eq!(message(&document(vec![Json::Null])), "no files");
    assert_eq!(message(&document(vec![object(vec![("files", Json::Null)])])), "not array");
    assert_eq!(message(&document(vec![post(vec![Json::Null])])), "path");
    assert_eq!(message(&document(vec![post(vec![object(vec![("path", Json::Null)])])])), "bot string");
    assert_eq!(message(&document(vec![post(vec![file("https://")])])), "empty host");
    // An earlier post is read before a later one, and all before the files are judged.
    assert_eq!(message(&document(vec![post(vec![file("https://")]), Json::Null])), "empty host");
    assert_eq!(message(&document(vec![post(vec![file("/b/")]), Json::Null])), "no files");
    assert!(!is_numbered(&Json::Null));
    assert!(!is_numbered(&object(vec![("max_num", text("9"))])));
}

#[test]
fn documents_with_other_files() {
    let d = document(vec![
        post(vec![file("/b/src/1/2.jpg"), file("/b/res/1.html")]),
        post(vec![file("/b/res/2.html")]),
    ]);
    assert_eq!(read_document(&d).unwrap().len(), 3);
    assert_eq!(non_media_link(&d).as_deref(), Some("https://2ch.hk/b/res/1.html"));
    assert!(try_get_data_json(&d).is_none());
    assert!(try_download_thread_json(&d).is_none());

    // The files of a document without a number are read all the same.
    let posts = Json::Array(vec![post(vec![file("/b/src/1/2.jpg")])]);
    let plain = object(vec![("threads", Json::Array(vec![object(vec![("posts", posts)])]))]);
    assert_eq!(try_get_data_json(&plain).unwrap().unwrap().len(), 1);
    assert!(try_download_thread_json(&plain).is_none());
}

fn command(name: &str, params: Json) -> Json {
    object(vec![("command", text(name)), ("params", params)])
}

#[test]
fn commands_are_read() {
    let add = command("add_thread", object(vec![("x", Json::Null), ("url", text("u"))]));
    assert!(FromWeb::accepts(&add));
    match FromWeb::parse_command(&add) {
        FromWeb::AddThread(a) => assert_eq!(a.url, "u"),
        _ => panic!("a thread to add"),
    }
    let listed = command("add_thread", Json::Array(vec![text("v")]));
    assert!(FromWeb::accepts(&listed));
    match FromWeb::parse_command(&listed) {
        FromWeb::AddThread(a) => assert_eq!(a.url, "v"),
        _ => panic!("a thread to add"),
    }
    let stop = command("stop", Json::Null);
    assert!(FromWeb::accepts(&stop));
    assert!(matches!(FromWeb::parse_command(&stop), FromWeb::Stop));
    assert!(matches!(FromWeb::parse_command(&stop).clone(), FromWeb::Stop));
    match FromWeb::parse_command(&add).clone() {
        FromWeb::AddThread(a) => assert_eq!(a.url, "u"),
        _ => panic!("a thread to add"),
    }

    for bad in [
        Json::Null,
        command("ping", Json::Null),
        object(vec![("command", text("stop"))]),
        object(vec![("params", Json::Null)]),
        object(vec![("command", Json::Null), ("params", Json::Null)]),
        command("add_thread", Json::Null),
        command("add_thread", object(vec![])),
        command("add_thread", object(vec![("url", Json::Null)])),
        command("add_thread", Json::Array(vec![])),
        command("add_thread", Json::Array(vec![text("a"), text("b")])),
        command("add_thread", Json::Array(vec![Json::Null])),
    ] {
        assert!(!FromWeb::accepts(&bad));
    }
}

fn add(url: &str) -> WebAction {
    web_request(FromWeb::AddThread(AddThread { url: url.to_owned() }))
}

#[test]
fn commands_are_answered() {
    match add("https://2ch.hk/b/res/1.html#2") {
        WebAction::Plan { url, confirmation } => {
            assert_eq!(url.href, "https://2ch.hk/b/res/1.html");
            assert!(is_thread(&url));
            assert_eq!(confirmation.as_deref(), Some("added"));
        }
        _ => panic!("a thread to plan"),
    }
    for none in ["https://2ch.hk/b/catalog.html", "https://2ch.hk/b/res", "mailto:x"] {
        match add(none) {
            WebAction::Plan { url, confirmation } => {
                assert_eq!(confirmation, None);
                assert!(!is_thread(&url));
            }
            _ => panic!("an address to plan"),
        }
    }
    match add("nowhere") {
        WebAction::Reply { reply } => {
            assert_eq!(reply, "not valid url: relative URL without a base")
        }
        _ => panic!("a refusal"),
    }
    match web_request(FromWeb::Ping) {
        WebAction::Reply { reply } => assert_eq!(reply, "pong"),
        _ => panic!("a reply"),
    }
    match web_request(FromWeb::Stop) {
        WebAction::Stop { reply } => assert_eq!(reply, "stopping"),
        _ => panic!("a stop"),
    }
}
