use turnik::address::Url;
use turnik::media_link::{filter_url, is_file, UrlFile};
use turnik::text::{contains_char, cut_before, ends_with, find_char, same};
use turnik::thread_page::{files_of_hrefs, fits, parse_thread_vec_cached};

fn texts(segments: &Option<Vec<String>>) -> Vec<&str> {
    segments.as_ref().unwrap().iter().map(|s| s.as_str()).collect()
}

#[test]
fn test_url_filter() {
    let u = Url::parse("https://vk.com/ixxx.xxx.xxx.xxxi").unwrap();

    let tt = UrlFile::from_url_or_none(u);

    assert!(tt.is_none())
}

#[test]
fn valid_origin() {
    let url =
        Url::parse("https://2ch.hk/b/arch/2020-06-01/res/221558211.html#221558211").unwrap();
    assert_eq!(url.scheme, "https");
    assert_eq!(url.host.as_deref(), Some("2ch.hk"));
}

#[test]
fn addresses_are_taken_apart() {
    let u = Url::parse("HTTPS://2CH.hk/a/../b/res//1.html?x=/y#z").unwrap();
    assert_eq!(u.href, "https://2ch.hk/b/res//1.html?x=/y#z");
    assert_eq!(u.scheme, "https");
    assert_eq!(u.host.as_deref(), Some("2ch.hk"));
    assert_eq!(texts(&u.segments), vec!["b", "res", "", "1.html"]);

    let root = Url::parse("https://2ch.hk").unwrap();
    assert_eq!(root.href, "https://2ch.hk/");
    assert_eq!(texts(&root.segments), vec![""]);

    let mail = Url::parse("mailto:someone@2ch.hk").unwrap();
    assert_eq!(mail.host, None);
    assert!(mail.segments.is_none());

    assert_eq!(Url::parse("b/res/1.html").unwrap_err(), "relative URL without a base");
    assert_eq!(Url::parse("https://").unwrap_err(), "empty host");
}

#[test]
fn plain_paths_are_read_as_they_stand() {
    let plain = ["b", "A_b-C.9", "x.", "-", "_a..b", "con.html"];
    for a in plain {
        for b in plain {
            let path = format!("/{}/{}", a, b);
            let text = format!("https://2ch.hk{}", path);
            let parsed = Url::parse(&text).unwrap();
            let joined = Url::from_site_link(&path).unwrap();
            for u in [parsed, joined] {
                assert_eq!(u.href, text);
                assert_eq!(u.scheme, "https");
                assert_eq!(u.host.as_deref(), Some("2ch.hk"));
                assert_eq!(texts(&u.segments), vec![a, b]);
            }
        }
    }
}

#[test]
fn links_are_relative_to_the_site() {
    assert_eq!(Url::from_site_link("b/src/1/2.jpg").unwrap().href, "https://2ch.hk/b/src/1/2.jpg");
    assert_eq!(Url::from_site_link("").unwrap().href, "https://2ch.hk/");
    assert_eq!(Url::from_site_link("#top").unwrap().href, "https://2ch.hk/#top");
    assert_eq!(Url::from_site_link("//2ch.pm/x.png").unwrap().href, "https://2ch.pm/x.png");
    assert_eq!(Url::from_site_link("http://a.b/c").unwrap().href, "http://a.b/c");
    assert_eq!(Url::from_site_link("https://").unwrap_err(), "empty host");
}

#[test]
fn fragments_are_dropped() {
    let u = Url::parse_without_fragment("https://2ch.hk/b/res/1.html?q=1#2#3").unwrap();
    assert_eq!(u.href, "https://2ch.hk/b/res/1.html?q=1");
    assert_eq!(texts(&u.segments), vec!["b", "res", "1.html"]);
    let same = Url::parse_without_fragment("https://2ch.hk/b/").unwrap();
    assert_eq!(same.href, "https://2ch.hk/b/");
    assert_eq!(Url::parse_without_fragment("b#1").unwrap_err(), "relative URL without a base");
    let opaque = Url::parse_without_fragment("data:x  #y").unwrap();
    assert!(opaque.segments.is_none());
    assert_eq!(opaque.scheme, "data");
    assert_eq!(opaque.href, "data:x");
    let spaces = Url::parse_without_fragment("data:  #y").unwrap();
    assert_eq!(spaces.href, "data:");
    let query = Url::parse_without_fragment("data:x  ?q#y").unwrap();
    assert_eq!(query.href, "data:x  ?q");
    let kept = Url::parse("data:x  #y").unwrap();
    assert_eq!(kept.href, "data:x  #y");
    let bare = Url::parse_without_fragment("irc://host#room").unwrap();
    assert!(bare.segments.is_none());
    assert_eq!(bare.href, "irc://host");
    assert_eq!(bare.host.as_deref(), Some("host"));
}

#[test]
fn names_of_files() {
    assert!(is_file("a.b"));
    assert!(is_file("15912345678900.jpg"));
    assert!(is_file("a.1234567890"));
    assert!(is_file("..b"));
    assert!(is_file("x\na.b"));
    assert!(is_file("имя.веб"));
    assert!(!is_file(""));
    assert!(!is_file("ab"));
    assert!(!is_file(".b"));
    assert!(!is_file("a."));
    assert!(!is_file("a.12345678901"));
    assert!(!is_file("a.b\n"));
    assert!(!is_file("\n.b"));
    assert!(!is_file("a.\n.b"));
    assert!(!is_file("1.html"));
    assert!(!is_file("1.fcgi"));
    assert!(!is_file("1.cgi"));
    assert!(!is_file("1.php"));
    assert!(is_file("1.php5"));
    assert!(!is_file("a.b.html"));
}

#[test]
fn media_files_are_those_of_the_site() {
    let name = |text: &str| filter_url(&Url::parse(text).unwrap());
    assert_eq!(name("https://2ch.hk/b/src/1/2.webm").as_deref(), Some("2.webm"));
    assert_eq!(name("https://2ch.pm/x.png#a").as_deref(), Some("x.png"));
    assert_eq!(name("http://2ch.hk/b/src/1/2.webm"), None);
    assert_eq!(name("https://2ch.life/b/src/1/2.webm"), None);
    assert_eq!(name("https://2ch.hk/b/src/1/2"), None);
    assert_eq!(name("https://2ch.hk/b/src/2.webm/"), None);
    assert_eq!(name("https://2ch.hk/b/res/1.html"), None);
    assert_eq!(name("https://2ch.hk"), None);
    assert_eq!(name("mailto:a@2ch.hk"), None);
    let no_host = Url {
        href: "https:x".to_owned(),
        scheme: "https".to_owned(),
        host: None,
        segments: Some(vec!["2.webm".to_owned()]),
    };
    assert_eq!(filter_url(&no_host), None);

    let file = UrlFile::from_url_or_none(Url::parse("https://2ch.hk/a/b.c").unwrap()).unwrap();
    assert_eq!(file.url.href, "https://2ch.hk/a/b.c");
    assert_eq!(file.url_filename, "b.c");
    let copy = file.clone();
    assert_eq!(copy.url.href, "https://2ch.hk/a/b.c");
}

#[test]
fn pages_link_to_media() {
    let page = "<html><body><a href='/b/src/1/2.jpg'>x</a><a name=top>y</a>\
        <a href=\"/b/src/1/2.jpg\">again</a><a href=/b/res/1.html>page</a>\
        <img src='/b/src/1/9.jpg'><p><a href='https://2ch.pm/b/3.png?a&amp;b'>z</a>\
        <a href='https://vk.com/4.png'>w</a></body></html>";
    let files = parse_thread_vec_cached(page).unwrap();
    let found: Vec<(&str, &str)> =
        files.iter().map(|f| (f.url.href.as_str(), f.url_filename.as_str())).collect();
    assert_eq!(
        found,
        vec![
            ("https://2ch.hk/b/src/1/2.jpg", "2.jpg"),
            ("https://2ch.pm/b/3.png?a&b", "3.png")
        ]
    );
    assert!(parse_thread_vec_cached("").unwrap().is_empty());
    assert_eq!(
        parse_thread_vec_cached("<a href='/x.png'><a href='https://'>").unwrap_err(),
        "empty host"
    );
    assert!(fits(page));
}

#[test]
fn links_are_followed_once() {
    let hrefs = |texts: &[&str]| -> Vec<Option<String>> {
        texts.iter().map(|t| Some(t.to_string())).collect()
    };
    let once = files_of_hrefs(&hrefs(&["/a.png", "/b.png"])).unwrap();
    let again = files_of_hrefs(&hrefs(&["/a.png", "/b.png", "/a.png", "/b.png"])).unwrap();
    let names = |files: &Vec<UrlFile>| -> Vec<String> {
        files.iter().map(|f| f.url_filename.clone()).collect()
    };
    assert_eq!(names(&once), vec!["a.png", "b.png"]);
    assert_eq!(names(&once), names(&again));
    // Two links to one address are two links.
    let twice = files_of_hrefs(&hrefs(&["/a.png", "a.png"])).unwrap();
    assert_eq!(names(&twice), vec!["a.png", "a.png"]);
    assert!(files_of_hrefs(&vec![None, None]).unwrap().is_empty());
}

#[test]
fn texts_are_compared_by_characters() {
    assert!(same("тред", "тред"));
    assert!(!same("a", "b"));
    assert_eq!(find_char("тр.ед", '.'), Some(2));
    assert_eq!(find_char("", '.'), None);
    assert!(contains_char("a/b", '/'));
    assert!(!contains_char("ab", '/'));
    assert_eq!(cut_before("123.html.x", '.'), "123");
    assert_eq!(cut_before("123", '.'), "123");
    assert_eq!(cut_before(".x", '.'), "");
    assert!(ends_with("тред.html", ".html"));
    assert!(ends_with("x", ""));
    assert!(!ends_with("ml", ".html"));
}
