//! Requests to the store of threads.

use vstd::prelude::*;

use crate::state::{MediaEntry, MediaEntryView};
use crate::thread_url::{DvachThreadUrl, ThreadUrlView};

verus! {

/// Threads that the store gave out.
#[derive(Debug)]
pub struct ThreadsFromStart {
    pub threads: Vec<DvachThreadUrl>,
}

impl Clone for ThreadsFromStart {
    fn clone(&self) -> (r: Self)
        ensures
            thread_views(r.threads@) == thread_views(self.threads@),
            r.threads@.len() == self.threads@.len(),
            forall|i: int|
                0 <= i < r.threads@.len() ==> {
                    &&& (#[trigger] r.threads@[i]).board@ == self.threads@[i].board@
                    &&& r.threads@[i].thread_number@ == self.threads@[i].thread_number@
                    &&& r.threads@[i].is_archive == self.threads@[i].is_archive
                },
    {
        let threads = self.threads.clone();
        assert(thread_views(threads@) =~= thread_views(self.threads@));
        assert forall|i: int| 0 <= i < threads@.len() implies (#[trigger] threads@[i])@
            == self.threads@[i]@ by {
            assert(thread_views(threads@)[i] == thread_views(self.threads@)[i]);
        }
        ThreadsFromStart { threads }
    }
}

/// The views of some threads.
pub open spec fn thread_views(threads: Seq<DvachThreadUrl>) -> Seq<ThreadUrlView> {
    threads.map_values(|t: DvachThreadUrl| t@)
}

/// Which threads to give out.
#[derive(Debug, Clone, Copy, PartialEq, Eq, Structural)]
pub enum ThreadFilter {
    NotFinished,
    All,
}

/// A request to the store.
#[derive(Debug)]
pub enum DbRequest {
    GetThreads(ThreadFilter),
    NewThread(DvachThreadUrl),
    ThreadFinished(DvachThreadUrl),
    NewMedia(MediaEntry),
    MediaFinished(MediaEntry),
}

/// What a `DbRequest` stands for.
pub enum DbRequestView {
    GetThreads(ThreadFilter),
    NewThread(ThreadUrlView),
    ThreadFinished(ThreadUrlView),
    NewMedia(MediaEntryView),
    MediaFinished(MediaEntryView),
}

impl View for DbRequest {
    type V = DbRequestView;

    open spec fn view(&self) -> DbRequestView {
        match *self {
            DbRequest::GetThreads(filter) => DbRequestView::GetThreads(filter),
            DbRequest::NewThread(url) => DbRequestView::NewThread(url@),
            DbRequest::ThreadFinished(url) => DbRequestView::ThreadFinished(url@),
            DbRequest::NewMedia(media) => DbRequestView::NewMedia(media@),
            DbRequest::MediaFinished(media) => DbRequestView::MediaFinished(media@),
        }
    }
}

/// The request that tells the store of a new media file.
pub fn new_media(media: &MediaEntry) -> (r: DbRequest)
    ensures
        r@ == DbRequestView::NewMedia(media@),
        r matches DbRequest::NewMedia(m) && m@ == media@,
{
    DbRequest::NewMedia(media.clone())
}

/// The request to store a thread.
pub fn new_thread(url: &DvachThreadUrl) -> (r: DbRequest)
    ensures
        r@ == DbRequestView::NewThread(url@),
        r matches DbRequest::NewThread(t) && t.board@ == url.board@ && t.thread_number@
            == url.thread_number@ && t.is_archive == url.is_archive,
{
    DbRequest::NewThread(url.clone())
}

/// The request to mark a thread as finished.
pub fn finish_thread(thread_url: &DvachThreadUrl) -> (r: DbRequest)
    ensures
        r@ == DbRequestView::ThreadFinished(thread_url@),
        r matches DbRequest::ThreadFinished(t) && t.board@ == thread_url.board@ && t.thread_number@
            == thread_url.thread_number@ && t.is_archive == thread_url.is_archive,
{
    DbRequest::ThreadFinished(thread_url.clone())
}

/// A request stands for what it asks for, and for whom.
pub proof fn requests_keep_what_they_are_about(request: DbRequest)
    ensures
        request matches DbRequest::GetThreads(filter) ==> request@ == DbRequestView::GetThreads(
            filter,
        ),
        request matches DbRequest::NewThread(t) ==> request@ == DbRequestView::NewThread(t@),
        request matches DbRequest::ThreadFinished(t) ==> request@ == DbRequestView::ThreadFinished(
            t@,
        ),
        request matches DbRequest::NewMedia(m) ==> request@ == DbRequestView::NewMedia(m@),
        request matches DbRequest::MediaFinished(m) ==> request@ == DbRequestView::MediaFinished(
            m@,
        ),
{
}

/// Some threads stand for each of them, in their order.
pub proof fn threads_are_given_one_by_one(threads: Seq<DvachThreadUrl>)
    ensures
        thread_views(threads).len() == threads.len(),
        forall|i: int|
            0 <= i < threads.len() ==> #[trigger] thread_views(threads)[i] == threads[i]@,
{
}

} // verus!
