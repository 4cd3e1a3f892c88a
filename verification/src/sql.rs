//! The store of threads: the statements that answer the requests to it.

use vstd::prelude::*;

use crate::db_async::{DbRequest, ThreadFilter};
use crate::thread_url::{DvachThreadUrl, ThreadUrlView};

verus! {

/// Makes the table of threads where there is none. Board and number tell
/// threads apart.
pub const CREATE_TABLE: &'static str = "create table if not exists thread (
                     id integer primary key,
                     board text not null,
                     thread_num text not null,
                     is_finished boolean default false,
                     UNIQUE(board,thread_num)
                 )";

pub const SELECT_ALL: &'static str = "SELECT id, board, thread_num, is_finished FROM thread";

pub const SELECT_NOT_FINISHED: &'static str =
    "SELECT id, board, thread_num, is_finished FROM thread where is_finished=false";

pub const FINISH_THREAD: &'static str =
    "UPDATE thread set is_finished=true where board=?1 and thread_num=?2";

pub const INSERT_THREAD: &'static str = "INSERT INTO thread (board, thread_num) VALUES(?1, ?2);";

/// What to do with the store.
#[derive(Debug)]
pub enum DbAction {
    /// Read threads, and send them to whoever asked.
    Read { sql: String },
    /// Change what is stored of a thread.
    Write { sql: String, board: String, thread_num: String },
    /// Nothing is stored.
    Nothing,
}

/// The statement that reads threads.
pub open spec fn select(filter: ThreadFilter) -> Seq<char> {
    match filter {
        ThreadFilter::All => SELECT_ALL@,
        ThreadFilter::NotFinished => SELECT_NOT_FINISHED@,
    }
}

/// Whether an action is to run a statement for a thread.
pub open spec fn writes(action: DbAction, sql: Seq<char>, thread: ThreadUrlView) -> bool {
    action matches DbAction::Write { sql: s, board, thread_num } && s@ == sql && board@
        == thread.board && thread_num@ == thread.thread_number
}

/// The statement that reads threads.
pub fn read_threads(filter: ThreadFilter) -> (r: String)
    ensures
        r@ == select(filter),
        filter is All ==> r@ == "SELECT id, board, thread_num, is_finished FROM thread"@,
        filter is NotFinished ==> r@
            == "SELECT id, board, thread_num, is_finished FROM thread where is_finished=false"@,
{
    match filter {
        ThreadFilter::All => SELECT_ALL.to_owned(),
        ThreadFilter::NotFinished => SELECT_NOT_FINISHED.to_owned(),
    }
}

/// The thread in a row of the store. The store does not know of the archive.
pub fn thread_from_row(board: String, thread_num: String) -> (r: DvachThreadUrl)
    ensures
        r.board@ == board@,
        r.thread_number@ == thread_num@,
        !r.is_archive,
{
    DvachThreadUrl { board, thread_number: thread_num, is_archive: false }
}

/// Marks a thread as finished.
pub fn remove_thread(url: &DvachThreadUrl) -> (r: DbAction)
    ensures
        writes(r, FINISH_THREAD@, url@),
        r matches DbAction::Write { sql, board, thread_num } && board@ == url.board@ && thread_num@
            == url.thread_number@ && sql@
            == "UPDATE thread set is_finished=true where board=?1 and thread_num=?2"@,
{
    DbAction::Write {
        sql: FINISH_THREAD.to_owned(),
        board: url.board.clone(),
        thread_num: url.thread_number.clone(),
    }
}

/// Stores a thread.
pub fn add_thread(url: &DvachThreadUrl) -> (r: DbAction)
    ensures
        writes(r, INSERT_THREAD@, url@),
        r matches DbAction::Write { sql, board, thread_num } && board@ == url.board@ && thread_num@
            == url.thread_number@ && sql@
            == "INSERT INTO thread (board, thread_num) VALUES(?1, ?2);"@,
{
    DbAction::Write {
        sql: INSERT_THREAD.to_owned(),
        board: url.board.clone(),
        thread_num: url.thread_number.clone(),
    }
}

/// What a request asks of the store. Finished media are not stored, and no
/// request for it may come.
pub fn sql_thread_runner(command: &DbRequest) -> (r: DbAction)
    requires
        !(command is MediaFinished),
    ensures
        match *command {
            DbRequest::GetThreads(filter) => r matches DbAction::Read { sql } && sql@ == select(
                filter,
            ),
            DbRequest::ThreadFinished(url) => writes(r, FINISH_THREAD@, url@),
            DbRequest::NewThread(url) => writes(r, INSERT_THREAD@, url@),
            _ => r is Nothing,
        },
{
    match command {
        DbRequest::GetThreads(filter) => DbAction::Read { sql: read_threads(*filter) },
        DbRequest::ThreadFinished(url) => remove_thread(url),
        DbRequest::NewThread(url) => add_thread(url),
        _ => DbAction::Nothing,
    }
}

/// The store does not tell an archived thread from a live one: requests about
/// the same thread ask for the same.
pub proof fn requests_go_by_board_and_number(
    action: DbAction,
    sql: Seq<char>,
    thread: ThreadUrlView,
    other: ThreadUrlView,
)
    requires
        thread.same_thread(other),
    ensures
        writes(action, sql, thread) <==> writes(action, sql, other),
{
}

/// What a request asks of the store, word for word: all threads are read
/// without a condition and the others with one, a new thread is inserted and a
/// finished one updated, each by its board and its number.
pub proof fn statements_say_what_is_asked(action: DbAction, thread: ThreadUrlView)
    ensures
        select(ThreadFilter::All) == "SELECT id, board, thread_num, is_finished FROM thread"@,
        select(ThreadFilter::NotFinished)
            == "SELECT id, board, thread_num, is_finished FROM thread where is_finished=false"@,
        INSERT_THREAD@ == "INSERT INTO thread (board, thread_num) VALUES(?1, ?2);"@,
        FINISH_THREAD@ == "UPDATE thread set is_finished=true where board=?1 and thread_num=?2"@,
        forall|sql: Seq<char>| #[trigger]
            writes(action, sql, thread) <==> (action matches DbAction::Write {
                sql: s,
                board,
                thread_num,
            } && s@ == sql && board@ == thread.board && thread_num@ == thread.thread_number),
        CREATE_TABLE@
            == "create table if not exists thread (
                     id integer primary key,
                     board text not null,
                     thread_num text not null,
                     is_finished boolean default false,
                     UNIQUE(board,thread_num)
                 )"@,
{
}

/// The threads that are not finished are read by the statement that reads all
/// threads, with a condition behind it.
pub proof fn unfinished_threads_are_among_all()
    ensures
        select(ThreadFilter::NotFinished) == select(ThreadFilter::All)
            + " where is_finished=false"@,
{
    reveal_strlit("SELECT id, board, thread_num, is_finished FROM thread");
    reveal_strlit("SELECT id, board, thread_num, is_finished FROM thread where is_finished=false");
    reveal_strlit(" where is_finished=false");
    assert(select(ThreadFilter::NotFinished) =~= select(ThreadFilter::All)
        + " where is_finished=false"@);
}

} // verus!
