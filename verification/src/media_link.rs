//! Links: which of them lead to media files of the site.

use vstd::prelude::*;

use crate::address;
use crate::address::{Url, UrlView};
use crate::text::{ends_with, same};

verus! {

/// The shape of a file's name: something, a dot, and a short ending.
pub const FILE_ENDS: &'static str = r".+?\..{1,10}$";

/// Whether a name ends in a dot and one to ten more characters, with at least
/// one character before the dot, and no line break from there on.
pub open spec fn has_file_ending(name: Seq<char>) -> bool {
    exists|dot: int|
        {
            &&& 1 <= dot < name.len()
            &&& #[trigger] name[dot] == '.'
            &&& 1 <= name.len() - dot - 1 <= 10
            &&& name[dot - 1] != '\n'
            &&& forall|j: int| dot < j < name.len() ==> name[j] != '\n'
        }
}

/// `regex::Regex::is_match` for the one pattern that the library uses.
///
/// Taken on trust: the pattern compiles. A dot in it stands for any character
/// but a line break, and its end for the end of the text, so that it is found
/// exactly in the names that `has_file_ending` describes.
#[verifier::external_body]
fn outside_is_match(pattern: &str, name: &str) -> (r: bool)
    requires
        pattern@ == FILE_ENDS@,
    ensures
        r == has_file_ending(name@),
{
    regex::Regex::new(pattern).unwrap().is_match(name)
}

/// Whether a name is that of a file to keep: one with a file's ending that is
/// not that of a page or of a script.
pub open spec fn is_media_name(name: Seq<char>) -> bool {
    &&& has_file_ending(name)
    &&& !".html"@.is_suffix_of(name)
    &&& !".fcgi"@.is_suffix_of(name)
    &&& !".cgi"@.is_suffix_of(name)
    &&& !".php"@.is_suffix_of(name)
}

/// Whether a host is one of the site's.
pub open spec fn is_site_host(host: Option<Seq<char>>) -> bool {
    host == Some("2ch.hk"@) || host == Some("2ch.pm"@)
}

/// The name of the media file that an address leads to.
pub open spec fn media_name(u: UrlView) -> Option<Seq<char>> {
    match u.segments {
        Some(s) => if u.scheme == "https"@ && is_site_host(u.host) && is_media_name(s.last()) {
            Some(s.last())
        } else {
            None
        },
        None => None,
    }
}

/// Whether a name is that of a file to keep.
pub fn is_file(name: &str) -> (r: bool)
    ensures
        r == is_media_name(name@),
        r ==> has_file_ending(name@),
        r || !has_file_ending(name@) || ".html"@.is_suffix_of(name@) || ".fcgi"@.is_suffix_of(name@)
            || ".cgi"@.is_suffix_of(name@) || ".php"@.is_suffix_of(name@),
{
    outside_is_match(FILE_ENDS, name) && !ends_with(name, ".html") && !ends_with(name, ".fcgi")
        && !ends_with(name, ".cgi") && !ends_with(name, ".php")
}

/// The name of the media file that an address leads to, if it leads to one.
pub fn filter_url(url: &Url) -> (r: Option<String>)
    requires
        url@.wf(),
    ensures
        r.deep_view() == media_name(url@),
        r matches Some(name) ==> url.segments matches Some(s) && s.len() > 0 && name@
            == s@.last()@,
{
    if !same(url.scheme.as_str(), "https") {
        return None;
    }
    match &url.host {
        Some(host) => {
            if !same(host.as_str(), "2ch.hk") && !same(host.as_str(), "2ch.pm") {
                return None;
            }
        },
        None => {
            return None;
        },
    }
    match &url.segments {
        Some(segments) => {
            let name = &segments[segments.len() - 1];
            if is_file(name.as_str()) {
                Some(name.clone())
            } else {
                None
            }
        },
        None => None,
    }
}

/// An address that leads to a media file, and the file's name.
#[derive(Debug)]
pub struct UrlFile {
    pub url: Url,
    pub url_filename: String,
}

/// What a `UrlFile` stands for.
pub struct UrlFileView {
    pub url: UrlView,
    pub url_filename: Seq<char>,
}

impl UrlFileView {
    /// The name is a single part of a path.
    pub open spec fn wf(self) -> bool {
        !self.url_filename.contains('/')
    }
}

impl View for UrlFile {
    type V = UrlFileView;

    open spec fn view(&self) -> UrlFileView {
        UrlFileView { url: self.url@, url_filename: self.url_filename@ }
    }
}

impl DeepView for UrlFile {
    type V = UrlFileView;

    open spec fn deep_view(&self) -> UrlFileView {
        self@
    }
}

impl Clone for UrlFile {
    fn clone(&self) -> (r: Self)
        ensures
            r@ == self@,
    {
        UrlFile { url: self.url.clone(), url_filename: self.url_filename.clone() }
    }
}

/// The media file that an address leads to.
pub open spec fn url_file(u: UrlView) -> Option<UrlFileView> {
    match media_name(u) {
        Some(name) => Some(UrlFileView { url: u, url_filename: name }),
        None => None,
    }
}

impl UrlFile {
    /// The media file that an address leads to, if it leads to one.
    pub fn from_url_or_none(url: Url) -> (r: Option<UrlFile>)
        requires
            url@.wf(),
        ensures
            r.deep_view() == url_file(url@),
            r matches Some(f) ==> {
                &&& f.url@ == url@
                &&& url@.segments matches Some(s)
                &&& f.url_filename@ == s.last()
            },
            r matches Some(f) ==> f@.wf(),
    {
        match filter_url(&url) {
            Some(url_filename) => Some(UrlFile { url, url_filename }),
            None => None,
        }
    }
}

/// What an address must have to lead to a media file, and that the file's name
/// is then the last segment of its path, in which no slash occurs.
pub proof fn media_files_are_on_the_site(u: UrlView)
    requires
        u.wf(),
        url_file(u) is Some,
    ensures
        u.scheme == "https"@,
        is_site_host(u.host),
        url_file(u)->0.url == u,
        u.segments is Some,
        url_file(u)->0.url_filename == u.segments->0.last(),
        url_file(u)->0.wf(),
        url_file(u)->0.url_filename.len() >= 3,
{
}

/// No page of a thread is a media file, whatever its board and its number.
pub proof fn thread_pages_are_no_media(u: UrlView, name: Seq<char>)
    requires
        u.segments matches Some(s) && s.len() >= 1 && s.last() == name + ".html"@,
    ensures
        url_file(u) is None,
{
    let file = name + ".html"@;
    assert(".html"@ =~= file.subrange(file.len() - ".html"@.len(), file.len() as int));
}

/// A plain path on the site leads to a media file exactly where its last
/// segment has the name of one.
pub proof fn site_paths_lead_to_media(segments: Seq<Seq<char>>)
    requires
        address::plain_path(segments),
    ensures
        url_file(address::site_url(segments)) == (if is_media_name(segments.last()) {
            Some(
                UrlFileView {
                    url: address::site_url(segments),
                    url_filename: segments.last(),
                },
            )
        } else {
            None::<UrlFileView>
        }),
{
}

/// An address leads to a media file exactly where it is a secure address on one
/// of the site's two hosts and the last segment of its path is a file's name but
/// not that of a page or of a script. The file is then that address, under that
/// name.
pub proof fn what_leads_to_media(u: UrlView)
    ensures
        url_file(u) is Some <==> {
            &&& u.scheme == "https"@
            &&& u.host == Some("2ch.hk"@) || u.host == Some("2ch.pm"@)
            &&& u.segments matches Some(s)
            &&& has_file_ending(s.last())
            &&& !".html"@.is_suffix_of(s.last())
            &&& !".fcgi"@.is_suffix_of(s.last())
            &&& !".cgi"@.is_suffix_of(s.last())
            &&& !".php"@.is_suffix_of(s.last())
        },
        url_file(u) matches Some(file) ==> {
            &&& file.url == u
            &&& u.segments matches Some(s)
            &&& file.url_filename == s.last()
        },
{
}

/// A name is that of a media file wherever it is a stem, a dot and an ending of
/// one to ten characters, without a dot or a line break, that is none of the
/// four of pages and scripts.
pub proof fn ordinary_names_are_media(stem: Seq<char>, ending: Seq<char>)
    requires
        stem.len() >= 1,
        stem.last() != '\n',
        1 <= ending.len() <= 10,
        forall|i: int| 0 <= i < ending.len() ==> (#[trigger] ending[i]) != '.' && ending[i] != '\n',
        ending != "html"@ && ending != "fcgi"@ && ending != "cgi"@ && ending != "php"@,
    ensures
        is_media_name(stem + "."@ + ending),
{
    reveal_strlit(".");
    reveal_strlit("html");
    reveal_strlit("fcgi");
    reveal_strlit("cgi");
    reveal_strlit("php");
    reveal_strlit(".html");
    reveal_strlit(".fcgi");
    reveal_strlit(".cgi");
    reveal_strlit(".php");
    let name = stem + "."@ + ending;
    let dot = stem.len() as int;
    assert(name[dot] == '.');
    assert forall|j: int| dot < j < name.len() implies name[j] != '\n' by {
        assert(name[j] == ending[j - dot - 1]);
    }
    assert(has_file_ending(name));
    assert(".html"@ =~= "."@ + "html"@);
    other_endings_differ(stem, ending, ".html"@, "html"@);
    assert(".fcgi"@ =~= "."@ + "fcgi"@);
    other_endings_differ(stem, ending, ".fcgi"@, "fcgi"@);
    assert(".cgi"@ =~= "."@ + "cgi"@);
    other_endings_differ(stem, ending, ".cgi"@, "cgi"@);
    assert(".php"@ =~= "."@ + "php"@);
    other_endings_differ(stem, ending, ".php"@, "php"@);
}

proof fn other_endings_differ(
    stem: Seq<char>,
    ending: Seq<char>,
    suffix: Seq<char>,
    rest: Seq<char>,
)
    requires
        forall|i: int| 0 <= i < ending.len() ==> (#[trigger] ending[i]) != '.',
        suffix == "."@ + rest,
        ending != rest,
        forall|i: int| 0 <= i < rest.len() ==> (#[trigger] rest[i]) != '.',
    ensures
        !suffix.is_suffix_of(stem + "."@ + ending),
{
    reveal_strlit(".");
    let name = stem + "."@ + ending;
    if suffix.is_suffix_of(name) {
        let tail = name.subrange(name.len() - suffix.len(), name.len() as int);
        assert(tail == suffix);
        assert(tail[0] == '.');
        if rest.len() < ending.len() {
            assert(ending[ending.len() - suffix.len()] == tail[0]);
        } else if rest.len() > ending.len() {
            assert(tail[rest.len() - ending.len()] == '.');
            assert(rest[rest.len() - ending.len() - 1] == '.');
        } else {
            assert forall|i: int| 0 <= i < rest.len() implies rest[i] == ending[i] by {
                assert(tail[i + 1] == name[stem.len() + 1 + i]);
            }
            assert(ending =~= rest);
        }
    }
}

/// A media file stands for its address and its name, and its name is plain
/// where no slash occurs in it.
pub proof fn files_stand_for_address_and_name(file: UrlFile)
    ensures
        file@.url == file.url@,
        file@.url_filename == file.url_filename@,
        file@.wf() <==> !file.url_filename@.contains('/'),
{
}

} // verus!
