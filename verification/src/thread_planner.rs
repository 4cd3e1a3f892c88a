//! The planner of threads: which threads to watch.

use vstd::prelude::*;

use crate::address::Url;
use crate::db_async;
use crate::db_async::{DbRequest, ThreadFilter, ThreadsFromStart};
use crate::thread_url;
use crate::thread_url::{DvachThreadUrl, ThreadUrlView};
use crate::web;
use crate::web::FromUi;

verus! {

/// What the planner does about a thread that it is asked to add.
#[derive(Debug)]
pub enum PlannerStep {
    /// The store has the thread.
    Already,
    /// Store the thread and start to watch it.
    Start(DvachThreadUrl),
}

/// Whether a thread is among some threads.
pub open spec fn knows(threads: Seq<ThreadUrlView>, thread: ThreadUrlView) -> bool {
    exists|i: int| 0 <= i < threads.len() && (#[trigger] threads[i]).same_thread(thread)
}

/// The planner.
#[derive(Debug, Clone, Copy)]
pub struct ThreadPlannerInt;

impl ThreadPlannerInt {
    pub fn new() -> (r: ThreadPlannerInt)
        ensures
            r == ThreadPlannerInt,
    {
        ThreadPlannerInt
    }

    /// What the planner asks the store before anything else: the threads that
    /// are not finished.
    pub fn first_request(&self) -> (r: DbRequest)
        ensures
            r == DbRequest::GetThreads(ThreadFilter::NotFinished),
    {
        DbRequest::GetThreads(ThreadFilter::NotFinished)
    }

    /// The threads to watch from the start: all that the store gave out.
    pub fn add_new_threads_on_start(&self, media: &ThreadsFromStart) -> (r: Vec<DvachThreadUrl>)
        ensures
            db_async::thread_views(r@) == db_async::thread_views(media.threads@),
            r@.len() == media.threads@.len(),
            forall|i: int|
                0 <= i < r@.len() ==> {
                    &&& (#[trigger] r@[i]).board@ == media.threads@[i].board@
                    &&& r@[i].thread_number@ == media.threads@[i].thread_number@
                    &&& r@[i].is_archive == media.threads@[i].is_archive
                },
    {
        let mut r: Vec<DvachThreadUrl> = Vec::new();
        let mut i: usize = 0;
        while i < media.threads.len()
            invariant
                i <= media.threads@.len(),
                db_async::thread_views(r@) == db_async::thread_views(media.threads@).take(i as int),
                r@.len() == i,
                forall|k: int| 0 <= k < i ==> (#[trigger] r@[k])@ == media.threads@[k]@,
            decreases media.threads@.len() - i,
        {
            let ghost before = r@;
            let thread = media.threads[i].clone();
            let ghost new = thread@;
            r.push(thread);
            proof {
                let all = db_async::thread_views(media.threads@);
                assert(db_async::thread_views(r@) =~= db_async::thread_views(before).push(new));
                assert(all.take(i + 1) =~= all.take(i as int).push(all[i as int]));
            }
            i = i + 1;
        }
        assert(db_async::thread_views(media.threads@).take(i as int) =~= db_async::thread_views(
            media.threads@,
        ));
        r
    }

    /// What the planner asks the store about a message: all threads.
    pub fn start(&self, message: &FromUi) -> (r: DbRequest)
        ensures
            r == DbRequest::GetThreads(ThreadFilter::All),
    {
        match message {
            FromUi::AddThread(_) => DbRequest::GetThreads(ThreadFilter::All),
        }
    }

    /// What to do about a thread, given all threads that the store has. An
    /// archived thread and a live one with the same board and number are one
    /// thread.
    pub fn add_thread(&self, url: &Url, media: &ThreadsFromStart) -> (r: PlannerStep)
        requires
            web::names_thread(url@),
        ensures
            match r {
                PlannerStep::Already => knows(
                    db_async::thread_views(media.threads@),
                    thread_url::thread_of(url@)->Ok_0,
                ),
                PlannerStep::Start(d_url) => {
                    &&& d_url@ == thread_url::thread_of(url@)->Ok_0
                    &&& !knows(db_async::thread_views(media.threads@), d_url@)
                },
            },
            r is Already <==> exists|i: int|
                {
                    &&& 0 <= i < media.threads@.len()
                    &&& (#[trigger] media.threads@[i]).board@ == thread_url::thread_of(
                        url@,
                    )->Ok_0.board
                    &&& media.threads@[i].thread_number@ == thread_url::thread_of(
                        url@,
                    )->Ok_0.thread_number
                },
            r matches PlannerStep::Start(d_url) ==> {
                &&& d_url.board@ == thread_url::thread_of(url@)->Ok_0.board
                &&& d_url.thread_number@ == thread_url::thread_of(url@)->Ok_0.thread_number
                &&& d_url.is_archive == thread_url::thread_of(url@)->Ok_0.is_archive
            },
    {
        let d_url = match DvachThreadUrl::parse(url) {
            Ok(d_url) => d_url,
            Err(_) => {
                assert(false);
                return PlannerStep::Already;
            },
        };
        let ghost threads = db_async::thread_views(media.threads@);
        let mut i: usize = 0;
        while i < media.threads.len()
            invariant
                i <= media.threads@.len(),
                threads == db_async::thread_views(media.threads@),
                d_url@ == thread_url::thread_of(url@)->Ok_0,
                forall|j: int| 0 <= j < i ==> !(#[trigger] threads[j]).same_thread(d_url@),
                forall|j: int|
                    0 <= j < i ==> !((#[trigger] media.threads@[j]).board@ == d_url.board@
                        && media.threads@[j].thread_number@ == d_url.thread_number@),
            decreases media.threads@.len() - i,
        {
            if media.threads[i] == d_url {
                assert(threads[i as int].same_thread(d_url@));
                return PlannerStep::Already;
            }
            i = i + 1;
        }
        PlannerStep::Start(d_url)
    }
}

/// A thread is watched once: once it is stored, the planner knows it, under
/// every address of the live page and of the archive that names it.
pub proof fn stored_threads_are_known(
    threads: Seq<ThreadUrlView>,
    thread: ThreadUrlView,
    again: ThreadUrlView,
)
    requires
        again.same_thread(thread),
    ensures
        knows(threads.push(thread), again),
        knows(threads, thread) <==> knows(threads, again),
        forall|other: ThreadUrlView|
            !other.same_thread(thread) ==> (#[trigger] knows(threads.push(thread), other) <==> knows(
                threads,
                other,
            )),
{
    assert(threads.push(thread)[threads.len() as int].same_thread(again));
    if knows(threads, thread) {
        let i = choose|i: int| 0 <= i < threads.len() && (#[trigger] threads[i]).same_thread(thread);
        assert(threads[i].same_thread(again));
    }
    if knows(threads, again) {
        let i = choose|i: int| 0 <= i < threads.len() && (#[trigger] threads[i]).same_thread(again);
        assert(threads[i].same_thread(thread));
    }
    assert forall|other: ThreadUrlView| !other.same_thread(thread) implies (#[trigger] knows(
        threads.push(thread),
        other,
    ) <==> knows(threads, other)) by {
        let more = threads.push(thread);
        if knows(more, other) {
            let i = choose|i: int| 0 <= i < more.len() && (#[trigger] more[i]).same_thread(other);
            assert(i < threads.len());
            assert(threads[i].same_thread(other));
        }
        if knows(threads, other) {
            let i = choose|i: int|
                0 <= i < threads.len() && (#[trigger] threads[i]).same_thread(other);
            assert(more[i].same_thread(other));
        }
    }
}

/// The planner knows a thread exactly where one with its board and its number
/// was stored, be it from the archive or not.
pub proof fn threads_are_known_by_board_and_number(
    threads: Seq<ThreadUrlView>,
    stored: ThreadUrlView,
    thread: ThreadUrlView,
)
    ensures
        !knows(Seq::<ThreadUrlView>::empty(), thread),
        knows(threads.push(stored), thread) <==> knows(threads, thread) || (stored.board
            == thread.board && stored.thread_number == thread.thread_number),
{
    thread_url::board_and_number_make_a_thread(stored, thread);
    let more = threads.push(stored);
    if knows(more, thread) {
        let i = choose|i: int| 0 <= i < more.len() && (#[trigger] more[i]).same_thread(thread);
        if i < threads.len() {
            assert(threads[i].same_thread(thread));
        }
    }
    if knows(threads, thread) {
        let i = choose|i: int|
            0 <= i < threads.len() && (#[trigger] threads[i]).same_thread(thread);
        assert(more[i].same_thread(thread));
    }
    if stored.same_thread(thread) {
        assert(more[threads.len() as int].same_thread(thread));
    }
}

} // verus!
