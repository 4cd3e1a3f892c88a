//! Threads: how an address names one, and the addresses and the folder of one.

use vstd::prelude::*;
use vstd::string::StringExecFns;

use crate::address;
use crate::address::{Url, UrlView, SITE};
use crate::local_path::{LocalPath, LocalPathView};
use crate::text;
use crate::text::{cut_before, same};

verus! {

/// A thread: its board, its number, and whether the address that named it was
/// one of the archive.
#[derive(Debug)]
pub struct DvachThreadUrl {
    pub board: String,
    pub thread_number: String,
    pub is_archive: bool,
}

/// What a `DvachThreadUrl` stands for.
pub struct ThreadUrlView {
    pub board: Seq<char>,
    pub thread_number: Seq<char>,
    pub is_archive: bool,
}

impl ThreadUrlView {
    /// Board and number make a thread; being archived does not.
    pub open spec fn same_thread(self, other: ThreadUrlView) -> bool {
        self.board == other.board && self.thread_number == other.thread_number
    }

    /// The path of the thread's page or of another rendering of it, which its
    /// extension tells apart.
    pub open spec fn path(self, extension: Seq<char>) -> Seq<Seq<char>> {
        seq![self.board, "res"@, self.thread_number + extension]
    }

    /// The address of a rendering of the thread, as text.
    pub open spec fn address(self, extension: Seq<char>) -> Seq<char> {
        SITE@ + address::path_text(self.path(extension))
    }

    /// The folder of the thread's files.
    pub open spec fn folder(self, root: LocalPathView) -> LocalPathView {
        root.join(self.board).join(self.thread_number)
    }
}

impl View for DvachThreadUrl {
    type V = ThreadUrlView;

    open spec fn view(&self) -> ThreadUrlView {
        ThreadUrlView {
            board: self.board@,
            thread_number: self.thread_number@,
            is_archive: self.is_archive,
        }
    }
}

impl Clone for DvachThreadUrl {
    fn clone(&self) -> (r: Self)
        ensures
            r@ == self@,
    {
        DvachThreadUrl {
            board: self.board.clone(),
            thread_number: self.thread_number.clone(),
            is_archive: self.is_archive,
        }
    }
}

impl Default for DvachThreadUrl {
    fn default() -> (r: Self)
        ensures
            r.board@ == Seq::<char>::empty(),
            r.thread_number@ == Seq::<char>::empty(),
            !r.is_archive,
    {
        DvachThreadUrl { board: String::new(), thread_number: String::new(), is_archive: false }
    }
}

impl PartialEq for DvachThreadUrl {
    fn eq(&self, other: &Self) -> (r: bool) {
        self.board == other.board && self.thread_number == other.thread_number
    }
}

impl vstd::std_specs::cmp::PartialEqSpecImpl for DvachThreadUrl {
    open spec fn obeys_eq_spec() -> bool {
        true
    }

    open spec fn eq_spec(&self, other: &Self) -> bool {
        self@.same_thread(other@)
    }
}

/// Why an address names no thread.
#[derive(Debug)]
pub enum ThreadUrlError<T> {
    /// The path ends too early, or there is none.
    Missing,
    /// The address is one of the archive, and another segment stands where
    /// `res` belongs.
    NoRes { url: T, found: T },
}

/// What a `ThreadUrlError` stands for.
pub open spec fn thread_url_error(e: ThreadUrlError<String>) -> ThreadUrlError<Seq<char>> {
    match e {
        ThreadUrlError::Missing => ThreadUrlError::Missing,
        ThreadUrlError::NoRes { url, found } => ThreadUrlError::NoRes {
            url: url@,
            found: found@,
        },
    }
}

/// Whether the second segment of the path, where there is one, is one of the
/// two that lead to threads.
pub open spec fn known_section(u: UrlView) -> bool {
    u.segments matches Some(s) ==> s.len() >= 2 ==> s[1] == "res"@ || s[1] == "arch"@
}

/// The thread that a file of a board's section belongs to.
pub open spec fn thread_of_file(board: Seq<char>, file: Seq<char>, is_archive: bool) -> ThreadUrlView {
    ThreadUrlView { board, thread_number: text::before_first(file, '.'), is_archive }
}

/// The thread that an address names: `/board/res/number.html`, or
/// `/board/arch/date/res/number.html` in the archive. The address is taken to
/// be one of a known section.
pub open spec fn thread_of(u: UrlView) -> Result<ThreadUrlView, ThreadUrlError<Seq<char>>> {
    match u.segments {
        None => Err(ThreadUrlError::Missing),
        Some(s) => if s.len() < 2 {
            Err(ThreadUrlError::Missing)
        } else if s[1] == "res"@ {
            if s.len() < 3 {
                Err(ThreadUrlError::Missing)
            } else {
                Ok(thread_of_file(s[0], s[2], false))
            }
        } else if s.len() < 4 {
            Err(ThreadUrlError::Missing)
        } else if s[3] != "res"@ {
            Err(ThreadUrlError::NoRes { url: u.href, found: s[3] })
        } else if s.len() < 5 {
            Err(ThreadUrlError::Missing)
        } else {
            Ok(thread_of_file(s[0], s[4], true))
        },
    }
}

/// The view of an attempt to read a thread from an address.
pub open spec fn thread_outcome(r: Result<DvachThreadUrl, ThreadUrlError<String>>) -> Result<
    ThreadUrlView,
    ThreadUrlError<Seq<char>>,
> {
    match r {
        Ok(t) => Ok(t@),
        Err(e) => Err(thread_url_error(e)),
    }
}

impl ThreadUrlError<String> {
    /// The error as a message.
    pub fn message(&self) -> (r: String)
        ensures
            match thread_url_error(*self) {
                ThreadUrlError::Missing => r@ == "no"@,
                ThreadUrlError::NoRes { url, found } => r@ == "no res "@ + url + ": "@ + found,
            },
    {
        match self {
            ThreadUrlError::Missing => "no".to_owned(),
            ThreadUrlError::NoRes { url, found } => {
                let mut r = "no res ".to_owned();
                r.append(url.as_str());
                r.append(": ");
                r.append(found.as_str());
                r
            },
        }
    }
}

/// Whether `DvachThreadUrl::parse` can be asked about an address.
pub fn has_known_section(url: &Url) -> (r: bool)
    ensures
        r == known_section(url@),
{
    match &url.segments {
        Some(s) => s.len() < 2 || same(s[1].as_str(), "res") || same(s[1].as_str(), "arch"),
        None => true,
    }
}

impl DvachThreadUrl {
    /// Reads the thread that an address names.
    pub fn parse(url: &Url) -> (r: Result<DvachThreadUrl, ThreadUrlError<String>>)
        requires
            known_section(url@),
        ensures
            thread_outcome(r) == thread_of(url@),
            r matches Ok(t) ==> {
                &&& url@.segments matches Some(s)
                &&& t.board@ == s[0]
                &&& t.is_archive == (s[1] == "arch"@)
                &&& t.thread_number@ == text::before_first(
                    if s[1] == "arch"@ {
                        s[4]
                    } else {
                        s[2]
                    },
                    '.',
                )
            },
    {
        proof {
            reveal_strlit("res");
            reveal_strlit("arch");
            assert("res"@.len() != "arch"@.len());
        }
        let segments = match &url.segments {
            Some(s) => s,
            None => {
                return Err(ThreadUrlError::Missing);
            },
        };
        if segments.len() < 2 {
            return Err(ThreadUrlError::Missing);
        }
        let is_archive = !same(segments[1].as_str(), "res");
        if is_archive && segments.len() >= 4 && !same(segments[3].as_str(), "res") {
            return Err(ThreadUrlError::NoRes { url: url.href.clone(), found: segments[3].clone() });
        }
        let place: usize = if is_archive {
            4
        } else {
            2
        };
        if segments.len() <= place {
            return Err(ThreadUrlError::Missing);
        }
        Ok(
            DvachThreadUrl {
                board: segments[0].clone(),
                thread_number: cut_before(segments[place].as_str(), '.'),
                is_archive,
            },
        )
    }

    /// The folder of the thread's files under `root_path`.
    pub fn local_fs_folder(&self, root_path: &LocalPath) -> (r: LocalPath)
        ensures
            r@ == self@.folder(root_path@),
            r.root@ == root_path.root@,
            r.parts.deep_view() == root_path.parts.deep_view() + seq![
                self.board@,
                self.thread_number@,
            ],
    {
        root_path.join(self.board.as_str()).join(self.thread_number.as_str())
    }

    fn address(&self, extension: &str) -> (r: String)
        ensures
            r@ == self@.address(extension@),
    {
        let mut r = SITE.to_owned();
        r.append("/");
        r.append(self.board.as_str());
        r.append("/res/");
        r.append(self.thread_number.as_str());
        r.append(extension);
        proof {
            reveal_strlit("/");
            reveal_strlit("/res/");
            reveal_strlit("res");
            let path = self@.path(extension@);
            reveal_with_fuel(address::path_text, 4);
            assert(path.drop_last().drop_last().drop_last() =~= Seq::<Seq<char>>::empty());
            assert(r@ =~= self@.address(extension@));
        }
        r
    }

    /// The address of the thread's page.
    pub fn to_url_string(&self) -> (r: String)
        ensures
            r@ == self@.address(".html"@),
            r@ == "https://2ch.hk/"@ + self.board@ + "/res/"@ + self.thread_number@ + ".html"@,
    {
        proof {
            addresses_are_spelled_out(self@, ".html"@);
        }
        self.address(".html")
    }

    /// The address of the thread's posts as JSON, or why it is none.
    pub fn json_form(&self) -> (r: Result<Url, String>)
        ensures
            address::is_reading(self@.address(".json"@), r),
            address::outcome(r) == address::url_parsed(
                "https://2ch.hk/"@ + self.board@ + "/res/"@ + self.thread_number@ + ".json"@,
            ),
            plain_word(self@.board) && plain_word(self@.thread_number) ==> {
                &&& r matches Ok(u) ==> reads_back(u@, self@)
                &&& self@.address(".json"@).len() <= u32::MAX ==> r is Ok
            },
    {
        let text = self.address(".json");
        let r = Url::parse(text.as_str());
        proof {
            addresses_are_spelled_out(self@, ".json"@);
            if plain_word(self@.board) && plain_word(self@.thread_number) {
                own_addresses_name_the_thread(self@, ".json"@, r);
            }
        }
        r
    }

    /// The thread as a pair of board and number.
    pub fn display(&self) -> (r: String)
        ensures
            r@ == "("@ + self@.board + ", "@ + self@.thread_number + ")"@,
            r@ == "("@ + self.board@ + ", "@ + self.thread_number@ + ")"@,
    {
        let mut r = "(".to_owned();
        r.append(self.board.as_str());
        r.append(", ");
        r.append(self.thread_number.as_str());
        r.append(")");
        r
    }
}

/// Plain characters, at least one of them.
pub open spec fn plain_word(s: Seq<char>) -> bool {
    s.len() >= 1 && forall|i: int| 0 <= i < s.len() ==> address::plain_char(#[trigger] s[i])
}

proof fn plain_words_have_no_dot(s: Seq<char>, extension: Seq<char>)
    requires
        plain_word(s),
        extension.len() >= 1,
        extension[0] == '.',
    ensures
        text::before_first(s + extension, '.') == s,
{
    let file = s + extension;
    assert(file[s.len() as int] == '.');
    file.index_of_first_ensures('.');
    assert(file.contains('.'));
    let i = file.index_of_first('.')->0;
    if i < s.len() {
        assert(address::plain_char(s[i]));
        assert(file[i] == s[i]);
    }
    assert(file.take(i) =~= s);
}

proof fn plain_files_are_plain_segments(s: Seq<char>, extension: Seq<char>)
    requires
        plain_word(s),
        extension == ".html"@ || extension == ".json"@,
    ensures
        address::plain_segment(s + extension),
        extension.len() >= 1,
        extension[0] == '.',
{
    reveal_strlit(".html");
    reveal_strlit(".json");
    let file = s + extension;
    assert forall|i: int| 0 <= i < file.len() implies address::plain_char(#[trigger] file[i])
        || file[i] == '.' by {
        if i < s.len() {
            assert(address::plain_char(s[i]));
        }
    }
    assert(address::plain_char(s[0]));
}

/// The addresses of a thread name that thread: read as addresses of the site,
/// its page and its JSON lead back to its board and its number. They are plain
/// paths, and their texts are the ones that are asked for.
pub proof fn addresses_name_their_thread(thread: ThreadUrlView, extension: Seq<char>)
    requires
        plain_word(thread.board),
        plain_word(thread.thread_number),
        extension == ".html"@ || extension == ".json"@,
    ensures
        address::plain_path(thread.path(extension)),
        address::site_url(thread.path(extension)).href == thread.address(extension),
        known_section(address::site_url(thread.path(extension))),
        thread_of(address::site_url(thread.path(extension))) == Ok::<
            ThreadUrlView,
            ThreadUrlError<Seq<char>>,
        >(ThreadUrlView { is_archive: false, ..thread }),
{
    reveal_strlit("res");
    let path = thread.path(extension);
    plain_files_are_plain_segments(thread.thread_number, extension);
    plain_words_have_no_dot(thread.thread_number, extension);
    assert(address::plain_segment("res"@));
    assert(address::plain_segment(thread.board)) by {
        assert(address::plain_char(thread.board[0]));
    }
    assert forall|i: int| 0 <= i < path.len() implies address::plain_segment(
        #[trigger] path[i],
    ) by {}
}

/// Whether an address names a thread, as one that is not in the archive.
pub open spec fn reads_back(u: UrlView, thread: ThreadUrlView) -> bool {
    &&& known_section(u)
    &&& thread_of(u) matches Ok(read)
    &&& read == ThreadUrlView { is_archive: false, ..thread }
}

/// A thread's own addresses lead back to it: whatever reading the text of its
/// page's address, or of its JSON's, as an address gives, that address names the
/// thread by board and number, and as a live one, also where it is known from
/// the archive. Reading it succeeds up to the four gigabytes that addresses may
/// have.
pub proof fn own_addresses_name_the_thread(
    thread: ThreadUrlView,
    extension: Seq<char>,
    r: Result<Url, String>,
)
    requires
        plain_word(thread.board),
        plain_word(thread.thread_number),
        extension == ".html"@ || extension == ".json"@,
        address::is_reading(thread.address(extension), r),
    ensures
        r matches Ok(u) ==> reads_back(u@, thread),
        thread.address(extension).len() <= u32::MAX ==> r is Ok,
{
    addresses_name_their_thread(thread, extension);
}

/// A page of a thread and its page in the archive, of whatever date, name the
/// same thread.
pub proof fn archived_page_names_the_same_thread(page: UrlView, archived: UrlView)
    requires
        page.segments matches Some(s) && s.len() >= 3 && s[1] == "res"@,
        archived.segments matches Some(a) && a.len() >= 5 && a[1] == "arch"@ && a[3] == "res"@,
        page.segments->0[0] == archived.segments->0[0],
        page.segments->0[2] == archived.segments->0[4],
    ensures
        thread_of(page) is Ok,
        thread_of(archived) is Ok,
        thread_of(page)->Ok_0.same_thread(thread_of(archived)->Ok_0),
        !thread_of(page)->Ok_0.is_archive,
        thread_of(archived)->Ok_0.is_archive,
{
    reveal_strlit("res");
    reveal_strlit("arch");
    assert("res"@.len() != "arch"@.len());
}

/// Only the path of an address says which thread it names: not its scheme, its
/// host, its query or its fragment.
pub proof fn only_the_path_names_a_thread(u: UrlView, v: UrlView)
    requires
        u.segments == v.segments,
    ensures
        known_section(u) == known_section(v),
        thread_of(u) is Ok <==> thread_of(v) is Ok,
        thread_of(u) is Ok ==> thread_of(u) == thread_of(v),
{
}

/// The folders of two threads are made of the same parts exactly where they are
/// the same thread, archived or not; and one thread has one address of each
/// kind.
pub proof fn folders_tell_threads_apart(
    thread: ThreadUrlView,
    other: ThreadUrlView,
    root: LocalPathView,
    extension: Seq<char>,
)
    ensures
        thread.folder(root) == other.folder(root) <==> thread.same_thread(other),
        thread.same_thread(other) ==> thread.address(extension) == other.address(extension),
{
    let n = root.parts.len() as int;
    assert(thread.folder(root).parts[n] == thread.board);
    assert(thread.folder(root).parts[n + 1] == thread.thread_number);
    assert(other.folder(root).parts[n] == other.board);
    assert(other.folder(root).parts[n + 1] == other.thread_number);
}

/// The address of a thread's page, or of its posts in another form, has the
/// board and the number in it, between words that never change.
pub proof fn addresses_are_spelled_out(thread: ThreadUrlView, extension: Seq<char>)
    ensures
        thread.address(extension) == "https://2ch.hk/"@ + thread.board + "/res/"@
            + thread.thread_number + extension,
{
    reveal_strlit("https://2ch.hk");
    reveal_strlit("https://2ch.hk/");
    reveal_strlit("/res/");
    reveal_strlit("res");
    let path = thread.path(extension);
    reveal_with_fuel(address::path_text, 4);
    assert(path.drop_last().drop_last().drop_last() =~= Seq::<Seq<char>>::empty());
    assert(thread.address(extension) =~= "https://2ch.hk/"@ + thread.board + "/res/"@
        + thread.thread_number + extension);
}

/// The live page of a thread names it: `/board/res/number.html`, whatever the
/// board, the number, what follows the number's dot and what follows in the
/// path.
pub proof fn live_pages_name_their_thread(u: UrlView, number: Seq<char>, ending: Seq<char>)
    requires
        u.segments matches Some(s) && s.len() >= 3 && s[1] == "res"@ && s[2] == number + ending,
        !number.contains('.'),
        ending.len() == 0 || ending[0] == '.',
    ensures
        known_section(u),
        thread_of(u) matches Ok(t) && t.board == u.segments->0[0] && t.thread_number == number
            && !t.is_archive,
{
    text::cut_drops_what_follows(number, '.', ending);
}

/// A page of the archive names its thread: `/board/arch/date/res/number.html`,
/// whatever the board, the date, the number, what follows the number's dot and
/// what follows in the path.
pub proof fn archived_pages_name_their_thread(u: UrlView, number: Seq<char>, ending: Seq<char>)
    requires
        u.segments matches Some(s) && s.len() >= 5 && s[1] == "arch"@ && s[3] == "res"@ && s[4]
            == number + ending,
        !number.contains('.'),
        ending.len() == 0 || ending[0] == '.',
    ensures
        known_section(u),
        thread_of(u) matches Ok(t) && t.board == u.segments->0[0] && t.thread_number == number
            && t.is_archive,
{
    reveal_strlit("res");
    reveal_strlit("arch");
    assert("res"@.len() != "arch"@.len());
    text::cut_drops_what_follows(number, '.', ending);
}

/// No other address names a thread. One of the archive with another word in the
/// place of `res` is refused with that word, and everything else as incomplete;
/// only an address whose second segment leads to no threads is not asked about.
pub proof fn other_addresses_name_no_thread(u: UrlView)
    ensures
        !known_section(u) <==> (u.segments matches Some(s) && s.len() >= 2 && s[1] != "res"@ && s[1]
            != "arch"@),
        known_section(u) ==> match thread_of(u) {
            Ok(_) => u.segments matches Some(s) && (s.len() >= 3 && s[1] == "res"@ || s.len() >= 5
                && s[1] == "arch"@ && s[3] == "res"@),
            Err(ThreadUrlError::NoRes { url, found }) => u.segments matches Some(s) && s.len() >= 4
                && s[1] == "arch"@ && s[3] != "res"@ && url == u.href && found == s[3],
            Err(ThreadUrlError::Missing) => u.segments matches Some(s) ==> s.len() < 2 || s[1]
                == "res"@ && s.len() < 3 || s[1] == "arch"@ && (s.len() < 4 || s[3] == "res"@
                && s.len() < 5),
        },
{
    reveal_strlit("res");
    reveal_strlit("arch");
    assert("res"@.len() != "arch"@.len());
}

/// The folder of a thread's files lies under the root, by board and number.
pub proof fn folders_go_by_board_and_number(thread: ThreadUrlView, root: LocalPathView)
    ensures
        thread.folder(root).root == root.root,
        thread.folder(root).parts == root.parts + seq![thread.board, thread.thread_number],
{
    assert(thread.folder(root).parts =~= root.parts + seq![thread.board, thread.thread_number]);
}

/// Threads are the same exactly where board and number are, archived or not.
pub proof fn board_and_number_make_a_thread(thread: ThreadUrlView, other: ThreadUrlView)
    ensures
        thread.same_thread(other) <==> thread.board == other.board && thread.thread_number
            == other.thread_number,
{
}

/// A thread stands for its board, its number and where it was named; a refusal
/// for its own reason and what it tells; and an attempt for either.
pub proof fn threads_stand_for_their_parts(
    thread: DvachThreadUrl,
    e: ThreadUrlError<String>,
    r: Result<DvachThreadUrl, ThreadUrlError<String>>,
)
    ensures
        thread@.board == thread.board@,
        thread@.thread_number == thread.thread_number@,
        thread@.is_archive == thread.is_archive,
        e is Missing <==> thread_url_error(e) is Missing,
        e matches ThreadUrlError::NoRes { url, found } ==> (thread_url_error(
            e,
        ) matches ThreadUrlError::NoRes { url: u, found: f } && u == url@ && f == found@),
        r matches Ok(t) ==> (thread_outcome(r) matches Ok(read) && read == t@),
        r matches Err(why) ==> (thread_outcome(r) matches Err(told) && told == thread_url_error(
            why,
        )),
{
}

/// Any word of letters and digits is a plain one.
pub proof fn ordinary_words_are_plain(s: Seq<char>)
    requires
        s.len() >= 1,
        forall|i: int|
            0 <= i < s.len() ==> 'a' <= (#[trigger] s[i]) <= 'z' || 'A' <= s[i] <= 'Z' || '0' <= s[i]
                <= '9',
    ensures
        plain_word(s),
{
}

} // verus!
