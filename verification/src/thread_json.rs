//! The posts of a thread as JSON: the media files attached to them.

use vstd::prelude::*;

use crate::address;
use crate::address::{Url, UrlView, SITE};
use crate::json::Json;
use crate::media_link;
use crate::media_link::{UrlFile, UrlFileView};
use crate::thread_page;

verus! {

/// Why the JSON of a thread gives no list of media files.
#[derive(Debug)]
pub enum ThreadJsonError<T> {
    NoThreads,
    ThreadsNotArray,
    MoreThanOneThread,
    NoPosts,
    PostsNotArray,
    NoFiles,
    FilesNotArray,
    NoPath,
    PathNotText,
    /// A file's path is no address; the message says why.
    NotAnAddress(T),
}

/// What a `ThreadJsonError` stands for.
pub open spec fn thread_json_error(e: ThreadJsonError<String>) -> ThreadJsonError<Seq<char>> {
    match e {
        ThreadJsonError::NoThreads => ThreadJsonError::NoThreads,
        ThreadJsonError::ThreadsNotArray => ThreadJsonError::ThreadsNotArray,
        ThreadJsonError::MoreThanOneThread => ThreadJsonError::MoreThanOneThread,
        ThreadJsonError::NoPosts => ThreadJsonError::NoPosts,
        ThreadJsonError::PostsNotArray => ThreadJsonError::PostsNotArray,
        ThreadJsonError::NoFiles => ThreadJsonError::NoFiles,
        ThreadJsonError::FilesNotArray => ThreadJsonError::FilesNotArray,
        ThreadJsonError::NoPath => ThreadJsonError::NoPath,
        ThreadJsonError::PathNotText => ThreadJsonError::PathNotText,
        ThreadJsonError::NotAnAddress(message) => ThreadJsonError::NotAnAddress(message@),
    }
}

/// The error as a message.
pub open spec fn error_message(e: ThreadJsonError<Seq<char>>) -> Seq<char> {
    match e {
        ThreadJsonError::NoThreads => "no threads"@,
        ThreadJsonError::ThreadsNotArray => "not array"@,
        ThreadJsonError::MoreThanOneThread => "threads more than one"@,
        ThreadJsonError::NoPosts => "no"@,
        ThreadJsonError::PostsNotArray => "no"@,
        ThreadJsonError::NoFiles => "no files"@,
        ThreadJsonError::FilesNotArray => "not array"@,
        ThreadJsonError::NoPath => "path"@,
        ThreadJsonError::PathNotText => "bot string"@,
        ThreadJsonError::NotAnAddress(message) => message,
    }
}

impl ThreadJsonError<String> {
    /// The error as a message.
    pub fn message(&self) -> (r: String)
        ensures
            r@ == error_message(thread_json_error(*self)),
            r@ == (match *self {
                ThreadJsonError::NoThreads => "no threads"@,
                ThreadJsonError::ThreadsNotArray => "not array"@,
                ThreadJsonError::MoreThanOneThread => "threads more than one"@,
                ThreadJsonError::NoPosts => "no"@,
                ThreadJsonError::PostsNotArray => "no"@,
                ThreadJsonError::NoFiles => "no files"@,
                ThreadJsonError::FilesNotArray => "not array"@,
                ThreadJsonError::NoPath => "path"@,
                ThreadJsonError::PathNotText => "bot string"@,
                ThreadJsonError::NotAnAddress(message) => message@,
            }),
    {
        match self {
            ThreadJsonError::NoThreads => "no threads".to_owned(),
            ThreadJsonError::ThreadsNotArray => "not array".to_owned(),
            ThreadJsonError::MoreThanOneThread => "threads more than one".to_owned(),
            ThreadJsonError::NoPosts => "no".to_owned(),
            ThreadJsonError::PostsNotArray => "no".to_owned(),
            ThreadJsonError::NoFiles => "no files".to_owned(),
            ThreadJsonError::FilesNotArray => "not array".to_owned(),
            ThreadJsonError::NoPath => "path".to_owned(),
            ThreadJsonError::PathNotText => "bot string".to_owned(),
            ThreadJsonError::NotAnAddress(message) => message.clone(),
        }
    }
}

/// The elements of the array that a value has under a key.
pub open spec fn array_at(
    value: Json,
    key: Seq<char>,
    none: ThreadJsonError<Seq<char>>,
    no_array: ThreadJsonError<Seq<char>>,
) -> Result<Seq<Json>, ThreadJsonError<Seq<char>>> {
    match value.field(key) {
        None => Err(none),
        Some(v) => match v.elements() {
            None => Err(no_array),
            Some(elements) => Ok(elements),
        },
    }
}

/// The posts of the one thread that a document holds.
pub open spec fn posts_of(document: Json) -> Result<Seq<Json>, ThreadJsonError<Seq<char>>> {
    match array_at(
        document,
        "threads"@,
        ThreadJsonError::NoThreads,
        ThreadJsonError::ThreadsNotArray,
    ) {
        Err(e) => Err(e),
        Ok(threads) => if threads.len() != 1 {
            Err(ThreadJsonError::MoreThanOneThread)
        } else {
            array_at(
                threads[0],
                "posts"@,
                ThreadJsonError::NoPosts,
                ThreadJsonError::PostsNotArray,
            )
        },
    }
}

/// The address of a file.
pub open spec fn file_url(file: Json) -> Result<UrlView, ThreadJsonError<Seq<char>>> {
    match file.field("path"@) {
        None => Err(ThreadJsonError::NoPath),
        Some(path) => match path.text() {
            None => Err(ThreadJsonError::PathNotText),
            Some(text) => match address::url_joined(SITE@, text) {
                Err(e) => Err(ThreadJsonError::NotAnAddress(e)),
                Ok(u) => Ok(u),
            },
        },
    }
}

/// The addresses of some files, or what is wrong with the first bad one.
pub open spec fn file_urls(files: Seq<Json>) -> Result<Seq<UrlView>, ThreadJsonError<Seq<char>>>
    decreases files.len(),
{
    if files.len() == 0 {
        Ok(seq![])
    } else {
        match file_urls(files.drop_last()) {
            Err(e) => Err(e),
            Ok(urls) => match file_url(files.last()) {
                Err(e) => Err(e),
                Ok(u) => Ok(urls.push(u)),
            },
        }
    }
}

/// The addresses of a post's files.
pub open spec fn post_urls(post: Json) -> Result<Seq<UrlView>, ThreadJsonError<Seq<char>>> {
    match array_at(post, "files"@, ThreadJsonError::NoFiles, ThreadJsonError::FilesNotArray) {
        Err(e) => Err(e),
        Ok(files) => file_urls(files),
    }
}

/// The addresses of some posts' files, or what is wrong with the first bad
/// post.
pub open spec fn all_urls(posts: Seq<Json>) -> Result<Seq<UrlView>, ThreadJsonError<Seq<char>>>
    decreases posts.len(),
{
    if posts.len() == 0 {
        Ok(seq![])
    } else {
        match all_urls(posts.drop_last()) {
            Err(e) => Err(e),
            Ok(urls) => match post_urls(posts.last()) {
                Err(e) => Err(e),
                Ok(more) => Ok(urls + more),
            },
        }
    }
}

/// The addresses of all files of the one thread that a document holds.
pub open spec fn document_urls(document: Json) -> Result<
    Seq<UrlView>,
    ThreadJsonError<Seq<char>>,
> {
    match posts_of(document) {
        Err(e) => Err(e),
        Ok(posts) => all_urls(posts),
    }
}

/// Every address is that of a media file.
pub open spec fn all_are_media(urls: Seq<UrlView>) -> bool {
    forall|i: int| 0 <= i < urls.len() ==> media_link::url_file(#[trigger] urls[i]) is Some
}

/// The `i`th address is the first that is not one of a media file.
pub open spec fn is_first_non_media(urls: Seq<UrlView>, i: int) -> bool {
    &&& 0 <= i < urls.len()
    &&& media_link::url_file(urls[i]) is None
    &&& all_are_media(urls.take(i))
}

/// The media files at some addresses, all of which are those of media files.
pub open spec fn media_at(urls: Seq<UrlView>) -> Seq<UrlFileView> {
    urls.map_values(|u: UrlView| media_link::url_file(u)->0)
}

/// Whether a document that is well formed has no files but media files. One
/// that is not well formed is refused before its files are looked at.
pub open spec fn only_media(document: Json) -> bool {
    document_urls(document) matches Ok(urls) ==> all_are_media(urls)
}

/// The media files of the one thread that a document holds.
pub open spec fn document_media(document: Json) -> Result<
    Seq<UrlFileView>,
    ThreadJsonError<Seq<char>>,
> {
    match document_urls(document) {
        Err(e) => Err(e),
        Ok(urls) => Ok(media_at(urls)),
    }
}

proof fn file_refusals_stay(files: Seq<Json>, n: int)
    requires
        0 <= n <= files.len(),
        file_urls(files.take(n)) is Err,
    ensures
        file_urls(files) == file_urls(files.take(n)),
    decreases files.len(),
{
    if n == files.len() {
        assert(files.take(n) =~= files);
    } else {
        assert(files.drop_last().take(n) =~= files.take(n));
        file_refusals_stay(files.drop_last(), n);
    }
}

proof fn post_refusals_stay(posts: Seq<Json>, n: int)
    requires
        0 <= n <= posts.len(),
        all_urls(posts.take(n)) is Err,
    ensures
        all_urls(posts) == all_urls(posts.take(n)),
    decreases posts.len(),
{
    if n == posts.len() {
        assert(posts.take(n) =~= posts);
    } else {
        assert(posts.drop_last().take(n) =~= posts.take(n));
        post_refusals_stay(posts.drop_last(), n);
    }
}

/// The views of some addresses.
pub open spec fn url_views(urls: Seq<Url>) -> Seq<UrlView> {
    urls.map_values(|u: Url| u@)
}

/// Every address is well formed.
pub open spec fn all_wf(urls: Seq<UrlView>) -> bool {
    forall|i: int| 0 <= i < urls.len() ==> (#[trigger] urls[i]).wf()
}

/// Reads the address of a file.
fn read_file(file: &Json) -> (r: Result<Url, ThreadJsonError<String>>)
    ensures
        match r {
            Ok(u) => file_url(*file) == Ok::<UrlView, ThreadJsonError<Seq<char>>>(u@) && u@.wf(),
            Err(e) => file_url(*file) == Err::<UrlView, ThreadJsonError<Seq<char>>>(
                thread_json_error(e),
            ),
        },
{
    let path = match file.get("path") {
        Some(path) => path,
        None => {
            return Err(ThreadJsonError::NoPath);
        },
    };
    let text = match path.as_str() {
        Some(text) => text,
        None => {
            return Err(ThreadJsonError::PathNotText);
        },
    };
    match Url::from_site_link(text) {
        Ok(url) => Ok(url),
        Err(message) => Err(ThreadJsonError::NotAnAddress(message)),
    }
}

/// Reads the addresses of a post's files, and puts them behind those at hand.
fn read_post(post: &Json, urls: &mut Vec<Url>) -> (r: Result<(), ThreadJsonError<String>>)
    requires
        all_wf(url_views(old(urls)@)),
    ensures
        match r {
            Ok(_) => {
                &&& post_urls(*post) is Ok
                &&& url_views(final(urls)@) == url_views(old(urls)@) + post_urls(*post)->Ok_0
                &&& all_wf(url_views(final(urls)@))
            },
            Err(e) => post_urls(*post) == Err::<Seq<UrlView>, ThreadJsonError<Seq<char>>>(
                thread_json_error(e),
            ),
        },
{
    let files = match post.get("files") {
        Some(files) => files,
        None => {
            return Err(ThreadJsonError::NoFiles);
        },
    };
    let files = match files.as_array() {
        Some(files) => files,
        None => {
            return Err(ThreadJsonError::FilesNotArray);
        },
    };
    let ghost before = url_views(urls@);
    let ghost mut read: Seq<UrlView> = seq![];
    let mut i: usize = 0;
    assert(files@.take(0) =~= seq![]);
    assert(before =~= before + read);
    while i < files.len()
        invariant
            i <= files@.len(),
            post_urls(*post) == file_urls(files@),
            file_urls(files@.take(i as int)) == Ok::<Seq<UrlView>, ThreadJsonError<Seq<char>>>(
                read,
            ),
            url_views(urls@) == before + read,
            all_wf(url_views(urls@)),
        decreases files@.len() - i,
    {
        proof {
            assert(files@.take(i + 1).drop_last() =~= files@.take(i as int));
            assert(files@.take(i + 1).last() == files@[i as int]);
        }
        match read_file(&files[i]) {
            Ok(url) => {
                let ghost new = url@;
                let ghost had = urls@;
                urls.push(url);
                proof {
                    assert(url_views(urls@) =~= url_views(had).push(new));
                    assert(url_views(had).push(new) =~= before + read.push(new));
                    read = read.push(new);
                }
            },
            Err(e) => {
                proof {
                    file_refusals_stay(files@, i + 1);
                }
                return Err(e);
            },
        }
        i = i + 1;
    }
    assert(files@.take(i as int) =~= files@);
    Ok(())
}

/// Reads the posts of the one thread that a document holds.
fn read_posts(document: &Json) -> (r: Result<&Vec<Json>, ThreadJsonError<String>>)
    ensures
        match r {
            Ok(posts) => posts_of(*document) == Ok::<Seq<Json>, ThreadJsonError<Seq<char>>>(posts@),
            Err(e) => posts_of(*document) == Err::<Seq<Json>, ThreadJsonError<Seq<char>>>(
                thread_json_error(e),
            ),
        },
{
    let threads = match document.get("threads") {
        Some(threads) => threads,
        None => {
            return Err(ThreadJsonError::NoThreads);
        },
    };
    let threads = match threads.as_array() {
        Some(threads) => threads,
        None => {
            return Err(ThreadJsonError::ThreadsNotArray);
        },
    };
    if threads.len() != 1 {
        return Err(ThreadJsonError::MoreThanOneThread);
    }
    let posts = match threads[0].get("posts") {
        Some(posts) => posts,
        None => {
            return Err(ThreadJsonError::NoPosts);
        },
    };
    match posts.as_array() {
        Some(posts) => Ok(posts),
        None => Err(ThreadJsonError::PostsNotArray),
    }
}

/// The addresses of all files of the one thread that a document holds.
pub fn read_document(document: &Json) -> (r: Result<Vec<Url>, ThreadJsonError<String>>)
    ensures
        match r {
            Ok(urls) => {
                &&& document_urls(*document) == Ok::<Seq<UrlView>, ThreadJsonError<Seq<char>>>(
                    url_views(urls@),
                )
                &&& all_wf(url_views(urls@))
            },
            Err(e) => document_urls(*document) == Err::<Seq<UrlView>, ThreadJsonError<Seq<char>>>(
                thread_json_error(e),
            ),
        },
{
    let posts = match read_posts(document) {
        Ok(posts) => posts,
        Err(e) => {
            return Err(e);
        },
    };
    let mut urls: Vec<Url> = Vec::with_capacity(posts.len());
    let mut i: usize = 0;
    assert(posts@.take(0) =~= seq![]);
    assert(url_views(urls@) =~= seq![]);
    while i < posts.len()
        invariant
            i <= posts@.len(),
            document_urls(*document) == all_urls(posts@),
            all_urls(posts@.take(i as int)) == Ok::<Seq<UrlView>, ThreadJsonError<Seq<char>>>(
                url_views(urls@),
            ),
            all_wf(url_views(urls@)),
        decreases posts@.len() - i,
    {
        proof {
            assert(posts@.take(i + 1).drop_last() =~= posts@.take(i as int));
            assert(posts@.take(i + 1).last() == posts@[i as int]);
        }
        match read_post(&posts[i], &mut urls) {
            Ok(_) => {},
            Err(e) => {
                proof {
                    post_refusals_stay(posts@, i + 1);
                }
                return Err(e);
            },
        }
        i = i + 1;
    }
    assert(posts@.take(i as int) =~= posts@);
    Ok(urls)
}

/// The view of an attempt to find media files.
pub open spec fn media_outcome(r: Result<Vec<UrlFile>, ThreadJsonError<String>>) -> Result<
    Seq<UrlFileView>,
    ThreadJsonError<Seq<char>>,
> {
    match r {
        Ok(files) => Ok(files.deep_view()),
        Err(e) => Err(thread_json_error(e)),
    }
}

/// The media files at some addresses, all of which are those of media files.
pub fn all_media(urls: Vec<Url>) -> (r: Vec<UrlFile>)
    requires
        all_wf(url_views(urls@)),
        all_are_media(url_views(urls@)),
    ensures
        r.deep_view() == media_at(url_views(urls@)),
        thread_page::plain_files(r.deep_view()),
{
    let ghost all = url_views(urls@);
    let mut files: Vec<UrlFile> = Vec::new();
    let mut i: usize = 0;
    assert(files.deep_view() =~= media_at(all.take(0)));
    while i < urls.len()
        invariant
            i <= urls@.len(),
            all == url_views(urls@),
            all_wf(all),
            all_are_media(all),
            files.deep_view() == media_at(all.take(i as int)),
            thread_page::plain_files(files.deep_view()),
        decreases urls@.len() - i,
    {
        assert(all[i as int].wf());
        if let Some(file) = UrlFile::from_url_or_none(urls[i].clone()) {
            let ghost found = files.deep_view();
            let ghost new = file@;
            files.push(file);
            proof {
                assert(files.deep_view() =~= found.push(new));
                assert(found.push(new) =~= media_at(all.take(i + 1)));
            }
        }
        i = i + 1;
    }
    assert(all.take(i as int) =~= all);
    files
}

/// The first address in a well-formed document that is not one of a media
/// file. `None` says that the document has only media files, or is not well
/// formed.
pub fn non_media_link(obj: &Json) -> (r: Option<String>)
    ensures
        match r {
            None => only_media(*obj),
            Some(href) => {
                &&& document_urls(*obj) matches Ok(urls)
                &&& exists|i: int| #[trigger] is_first_non_media(urls, i) && href@ == urls[i].href
            },
        },
{
    let urls = match read_document(obj) {
        Ok(urls) => urls,
        Err(_) => {
            return None;
        },
    };
    let ghost all = url_views(urls@);
    let mut i: usize = 0;
    while i < urls.len()
        invariant
            i <= urls@.len(),
            all == url_views(urls@),
            document_urls(*obj) == Ok::<Seq<UrlView>, ThreadJsonError<Seq<char>>>(all),
            all_wf(all),
            all_are_media(all.take(i as int)),
        decreases urls@.len() - i,
    {
        assert(all[i as int].wf());
        if UrlFile::from_url_or_none(urls[i].clone()).is_none() {
            assert(is_first_non_media(document_urls(*obj)->Ok_0, i as int));
            return Some(urls[i].href.clone());
        }
        i = i + 1;
    }
    assert(all.take(i as int) =~= all);
    None
}

/// The media files of the one thread that a document holds, in the order of
/// its posts. A well-formed document has no other files.
pub fn get_data_json(obj: &Json) -> (r: Result<Vec<UrlFile>, ThreadJsonError<String>>)
    requires
        only_media(*obj),
    ensures
        media_outcome(r) == document_media(*obj),
        r matches Ok(files) ==> thread_page::plain_files(files.deep_view()),
{
    match read_document(obj) {
        Ok(urls) => Ok(all_media(urls)),
        Err(e) => Err(e),
    }
}

/// Reads any document: `None` for one that is well formed and has a file that
/// is no media file.
pub fn try_get_data_json(obj: &Json) -> (r: Option<Result<Vec<UrlFile>, ThreadJsonError<String>>>)
    ensures
        match r {
            Some(outcome) => {
                &&& only_media(*obj)
                &&& media_outcome(outcome) == document_media(*obj)
                &&& outcome matches Ok(files) ==> thread_page::plain_files(files.deep_view())
            },
            None => !only_media(*obj),
        },
{
    if non_media_link(obj).is_some() {
        return None;
    }
    Some(get_data_json(obj))
}

/// Whether a document says how far its posts are numbered.
pub open spec fn has_max_num(document: Json) -> bool {
    document.field("max_num"@) matches Some(v) && v is Unsigned
}

/// Whether a document says how far its posts are numbered.
pub fn is_numbered(obj: &Json) -> (r: bool)
    ensures
        r == has_max_num(*obj),
        r == (obj.field("max_num"@) matches Some(Json::Unsigned(_))),
{
    match obj.get("max_num") {
        Some(v) => v.as_u64().is_some(),
        None => false,
    }
}

/// Whether a document is the JSON answer for a thread: it is numbered and well
/// formed, and has only media files.
pub open spec fn is_thread_answer(document: Json) -> bool {
    has_max_num(document) && document_urls(document) is Ok && only_media(document)
}

/// What is read of the JSON answer for a thread: its media files, and that the
/// answer is not one of the archive.
pub fn download_thread_json(obj: &Json) -> (r: (Vec<UrlFile>, bool))
    requires
        is_thread_answer(*obj),
    ensures
        document_media(*obj) == Ok::<Seq<UrlFileView>, ThreadJsonError<Seq<char>>>(
            r.0.deep_view(),
        ),
        thread_page::plain_files(r.0.deep_view()),
        !r.1,
{
    match get_data_json(obj) {
        Ok(files) => (files, false),
        Err(_) => (Vec::new(), false),
    }
}

/// Reads any document: `None` for one that is not the JSON answer for a thread.
pub fn try_download_thread_json(obj: &Json) -> (r: Option<(Vec<UrlFile>, bool)>)
    ensures
        match r {
            Some((files, is_archived)) => {
                &&& is_thread_answer(*obj)
                &&& document_media(*obj) == Ok::<Seq<UrlFileView>, ThreadJsonError<Seq<char>>>(
                    files.deep_view(),
                )
                &&& thread_page::plain_files(files.deep_view())
                &&& !is_archived
            },
            None => !is_thread_answer(*obj),
        },
{
    if !is_numbered(obj) || read_document(obj).is_err() || non_media_link(obj).is_some() {
        return None;
    }
    Some(download_thread_json(obj))
}

/// A document with only media files gives one media file for every address in
/// it, in the same order and with the same address; one that is not well formed
/// gives none.
pub proof fn every_file_is_media(document: Json)
    requires
        only_media(document),
    ensures
        match document_urls(document) {
            Ok(urls) => {
                &&& document_media(document) matches Ok(files)
                &&& files.len() == urls.len()
                &&& forall|i: int| 0 <= i < urls.len() ==> (#[trigger] files[i]).url == urls[i]
                &&& forall|i: int|
                    0 <= i < urls.len() ==> media_link::url_file(urls[i]) == Some(
                        #[trigger] files[i],
                    )
            },
            Err(e) => document_media(document) == Err::<
                Seq<UrlFileView>,
                ThreadJsonError<Seq<char>>,
            >(e),
        },
{
    if let Ok(urls) = document_urls(document) {
        assert forall|i: int| 0 <= i < urls.len() implies (#[trigger] media_at(urls)[i]).url
            == urls[i] by {
            assert(media_link::url_file(urls[i]) is Some);
        }
        assert forall|i: int| 0 <= i < urls.len() implies media_link::url_file(urls[i]) == Some(
            #[trigger] media_at(urls)[i],
        ) by {
            assert(media_link::url_file(urls[i]) is Some);
        }
    }
}

/// A file's address is what its path, a text, leads to from the site. A file
/// without a path, with a path that is no text, or with one that leads nowhere
/// is refused for that.
pub proof fn paths_lead_to_files(file: Json)
    ensures
        match file.field("path"@) {
            Some(Json::Text(path)) => match address::url_joined("https://2ch.hk"@, path@) {
                Ok(u) => file_url(file) matches Ok(found) && found == u,
                Err(e) => file_url(file) matches Err(ThreadJsonError::NotAnAddress(found)) && found
                    == e,
            },
            Some(_) => file_url(file) matches Err(ThreadJsonError::PathNotText),
            None => file_url(file) matches Err(ThreadJsonError::NoPath),
        },
{
}

/// Every file of a list is read, one address for each and in their order; or
/// the first that has none says why.
pub proof fn every_file_is_read(files: Seq<Json>)
    ensures
        match file_urls(files) {
            Ok(urls) => {
                &&& urls.len() == files.len()
                &&& forall|i: int|
                    0 <= i < files.len() ==> {
                        &&& (#[trigger] files[i]).field("path"@) matches Some(Json::Text(path))
                        &&& address::url_joined("https://2ch.hk"@, path@) matches Ok(u)
                        &&& urls[i] == u
                    }
            },
            Err(e) => exists|i: int|
                {
                    &&& 0 <= i < files.len()
                    &&& file_url(#[trigger] files[i]) == Err::<UrlView, ThreadJsonError<Seq<char>>>(
                        e,
                    )
                    &&& forall|j: int| 0 <= j < i ==> file_url(#[trigger] files[j]) is Ok
                },
        },
    decreases files.len(),
{
    if files.len() > 0 {
        let rest = files.drop_last();
        every_file_is_read(rest);
        paths_lead_to_files(files.last());
        match file_urls(rest) {
            Ok(urls) => {
                assert forall|j: int| 0 <= j < rest.len() implies file_url(
                    #[trigger] files[j],
                ) is Ok by {
                    assert(files[j] == rest[j]);
                }
                if let Ok(all) = file_urls(files) {
                    assert forall|i: int| 0 <= i < files.len() implies {
                        &&& (#[trigger] files[i]).field("path"@) matches Some(Json::Text(path))
                        &&& address::url_joined("https://2ch.hk"@, path@) matches Ok(u)
                        &&& all[i] == u
                    } by {
                        if i < rest.len() {
                            assert(files[i] == rest[i]);
                            assert(all[i] == urls[i]);
                        } else {
                            assert(files[i] == files.last());
                        }
                    }
                } else {
                    assert(files[files.len() - 1] == files.last());
                }
            },
            Err(e) => {
                let i = choose|i: int|
                    {
                        &&& 0 <= i < rest.len()
                        &&& file_url(#[trigger] rest[i]) == Err::<
                            UrlView,
                            ThreadJsonError<Seq<char>>,
                        >(e)
                        &&& forall|j: int| 0 <= j < i ==> file_url(#[trigger] rest[j]) is Ok
                    };
                assert(files[i] == rest[i]);
                assert forall|j: int| 0 <= j < i implies file_url(#[trigger] files[j]) is Ok by {
                    assert(files[j] == rest[j]);
                }
            },
        }
    }
}

/// A post gives the addresses of the files in its list, and is refused where it
/// has no list of files.
pub proof fn posts_give_their_files(post: Json)
    ensures
        match post.field("files"@) {
            Some(Json::Array(files)) => post_urls(post) == file_urls(files@),
            Some(_) => post_urls(post) matches Err(ThreadJsonError::FilesNotArray),
            None => post_urls(post) matches Err(ThreadJsonError::NoFiles),
        },
{
}

/// The posts of a thread are read one after the other: what some posts give
/// comes before what the posts behind them give, all of both; and the first post
/// that is refused decides.
pub proof fn posts_are_read_in_their_order(posts: Seq<Json>, more: Seq<Json>, post: Json)
    ensures
        all_urls(Seq::<Json>::empty()) == Ok::<Seq<UrlView>, ThreadJsonError<Seq<char>>>(
            Seq::<UrlView>::empty(),
        ),
        all_urls(seq![post]) == post_urls(post),
        match (all_urls(posts), all_urls(more)) {
            (Ok(urls), Ok(behind)) => all_urls(posts + more) matches Ok(all) && all == urls
                + behind,
            (Ok(_), Err(e)) => all_urls(posts + more) matches Err(found) && found == e,
            (Err(e), _) => all_urls(posts + more) matches Err(found) && found == e,
        },
    decreases more.len(),
{
    let one = seq![post];
    assert(one.drop_last() =~= Seq::<Json>::empty());
    if let Ok(urls) = post_urls(post) {
        assert(Seq::<UrlView>::empty() + urls =~= urls);
    }
    if more.len() == 0 {
        assert(posts + more =~= posts);
        if let Ok(urls) = all_urls(posts) {
            assert(urls + Seq::<UrlView>::empty() =~= urls);
        }
    } else {
        posts_are_read_in_their_order(posts, more.drop_last(), post);
        assert((posts + more).drop_last() =~= posts + more.drop_last());
        assert((posts + more).last() == more.last());
        if let (Ok(urls), Ok(behind)) = (all_urls(posts), all_urls(more.drop_last())) {
            if let Ok(last) = post_urls(more.last()) {
                assert(urls + behind + last =~= urls + (behind + last));
            }
        }
    }
}

/// A document is read where it has exactly one thread, and that one a list of
/// posts; otherwise it is refused for the first thing that is missing.
pub proof fn documents_hold_one_thread(document: Json)
    ensures
        match document.field("threads"@) {
            Some(Json::Array(threads)) => if threads@.len() == 1 {
                match threads@[0].field("posts"@) {
                    Some(Json::Array(posts)) => document_urls(document) == all_urls(posts@),
                    Some(_) => document_urls(document) matches Err(ThreadJsonError::PostsNotArray),
                    None => document_urls(document) matches Err(ThreadJsonError::NoPosts),
                }
            } else {
                document_urls(document) matches Err(ThreadJsonError::MoreThanOneThread)
            },
            Some(_) => document_urls(document) matches Err(ThreadJsonError::ThreadsNotArray),
            None => document_urls(document) matches Err(ThreadJsonError::NoThreads),
        },
{
}

/// A document has only media files exactly where no address in it leads
/// elsewhere. One that is refused has no addresses.
pub proof fn other_files_are_noticed(document: Json)
    ensures
        match document_urls(document) {
            Ok(urls) => only_media(document) <==> !exists|i: int|
                0 <= i < urls.len() && media_link::url_file(#[trigger] urls[i]) is None,
            Err(_) => only_media(document),
        },
        is_thread_answer(document) <==> {
            &&& document.field("max_num"@) matches Some(Json::Unsigned(_))
            &&& document_urls(document) matches Ok(urls)
            &&& !exists|i: int|
                0 <= i < urls.len() && media_link::url_file(#[trigger] urls[i]) is None
        },
{
}

/// The media files of some addresses are those that the addresses lead to, one
/// for each and in their order.
pub proof fn addresses_become_files(urls: Seq<UrlView>)
    requires
        forall|i: int| 0 <= i < urls.len() ==> media_link::url_file(#[trigger] urls[i]) is Some,
    ensures
        media_at(urls).len() == urls.len(),
        forall|i: int|
            0 <= i < urls.len() ==> media_link::url_file(#[trigger] urls[i]) == Some(
                media_at(urls)[i],
            ),
{
}

/// A refusal stands for its own reason, and an attempt for the files that it
/// found, one by one, or for its refusal.
pub proof fn refusals_stand_for_their_reason(
    e: ThreadJsonError<String>,
    r: Result<Vec<UrlFile>, ThreadJsonError<String>>,
)
    ensures
        e is NoThreads <==> thread_json_error(e) is NoThreads,
        e is ThreadsNotArray <==> thread_json_error(e) is ThreadsNotArray,
        e is MoreThanOneThread <==> thread_json_error(e) is MoreThanOneThread,
        e is NoPosts <==> thread_json_error(e) is NoPosts,
        e is PostsNotArray <==> thread_json_error(e) is PostsNotArray,
        e is NoFiles <==> thread_json_error(e) is NoFiles,
        e is FilesNotArray <==> thread_json_error(e) is FilesNotArray,
        e is NoPath <==> thread_json_error(e) is NoPath,
        e is PathNotText <==> thread_json_error(e) is PathNotText,
        e matches ThreadJsonError::NotAnAddress(message) ==> (thread_json_error(
            e,
        ) matches ThreadJsonError::NotAnAddress(told) && told == message@),
        r matches Ok(files) ==> {
            &&& media_outcome(r) matches Ok(found)
            &&& found.len() == files@.len()
            &&& forall|i: int| 0 <= i < found.len() ==> #[trigger] found[i] == files@[i]@
        },
        r matches Err(why) ==> (media_outcome(r) matches Err(told) && told == thread_json_error(
            why,
        )),
{
}

/// Some addresses stand for each of them, in their order, and are well formed
/// where each is.
pub proof fn addresses_are_given_one_by_one(urls: Seq<Url>)
    ensures
        url_views(urls).len() == urls.len(),
        forall|i: int| 0 <= i < urls.len() ==> #[trigger] url_views(urls)[i] == urls[i]@,
        all_wf(url_views(urls)) <==> !exists|i: int|
            0 <= i < urls.len() && !(#[trigger] urls[i])@.wf(),
{
    if !all_wf(url_views(urls)) {
        let i = choose|i: int| 0 <= i < urls.len() && !(#[trigger] url_views(urls)[i]).wf();
        assert(!urls[i]@.wf());
    } else {
        assert forall|i: int| 0 <= i < urls.len() implies (#[trigger] urls[i])@.wf() by {
            assert(url_views(urls)[i].wf());
        }
    }
}

} // verus!
