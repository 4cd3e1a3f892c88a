//! The worker that downloads media files one after the other.

use vstd::prelude::*;

use crate::local_path::{LocalPath, LocalPathView};
use crate::state;
use crate::state::{DlEntryStatus, MediaEntry, MediaEntryView, ThreadState};
use crate::text::concat;
use crate::thread_url::DvachThreadUrl;

verus! {

/// The entry of a file whose download is done.
pub open spec fn finished(media: MediaEntryView) -> MediaEntryView {
    MediaEntryView { state: DlEntryStatus::Finished, ..media }
}

/// Marks a file's download as done.
pub fn update_media(state: &mut ThreadState, media: &MediaEntry)
    requires
        old(state).wf(),
    ensures
        final(state).wf(),
        final(state).same_but_medias(*old(state)),
        final(state).medias.deep_view() == state::with_replaced(
            old(state).medias.deep_view(),
            finished(media@),
        ),
        state::has_url(final(state).medias.deep_view(), media.url@),
        forall|i: int|
            0 <= i < final(state).medias@.len() && (#[trigger] final(state).medias@[i]).url@
                == media.url@ ==> final(state).medias@[i].state == DlEntryStatus::Finished,
{
    let ghost before = state.medias.deep_view();
    let mut new_media = media.clone();
    new_media.state = DlEntryStatus::Finished;
    proof {
        assert(new_media@ == finished(media@));
    }
    state.replace_media(new_media);
    proof {
        finished_media_stays_finished(before, media@, media@);
        assert forall|i: int|
            0 <= i < state.medias@.len() && (#[trigger] state.medias@[i]).url@
                == media.url@ implies state.medias@[i].state == DlEntryStatus::Finished by {
            assert(state.medias.deep_view()[i].state == DlEntryStatus::Finished);
        }
    }
}

/// Where a media file is kept.
pub open spec fn file_path(root: LocalPathView, media: MediaEntryView) -> LocalPathView {
    media.thread.folder(root).join(media.url_filename)
}

/// Where a media file is written to until it is complete.
pub open spec fn temporary_path(root: LocalPathView, media: MediaEntryView) -> LocalPathView {
    media.thread.folder(root).join(media.url_filename + ".tmp"@)
}

/// A download to make: what to fetch, where to write it, and the name that the
/// file takes once it is complete.
#[derive(Debug)]
pub struct Download {
    pub url: String,
    pub temporary: LocalPath,
    pub target: LocalPath,
}

/// Where a media file is kept.
pub fn media_file(state: &ThreadState, media: &MediaEntry) -> (r: LocalPath)
    requires
        media@.plain_name(),
    ensures
        r@ == file_path(state.download_directory@, media@),
        r.root@ == state.download_directory.root@,
        r.parts.deep_view() == state.download_directory.parts.deep_view() + seq![
            media.thread.board@,
            media.thread.thread_number@,
            media.url_filename@,
        ],
{
    proof {
        files_are_kept_under_their_names(state.download_directory@, media@);
    }
    media.thread.local_fs_folder(&state.download_directory).join(media.url_filename.as_str())
}

/// What to do for a media file, given whether it is on disk. A file that is
/// there is marked as done; for another, the download to make comes back, and
/// nothing changes until `update_media` marks it.
pub fn process_media(state: &mut ThreadState, media: &MediaEntry, file_exists: bool) -> (r: Option<
    Download,
>)
    requires
        old(state).wf(),
        media@.plain_name(),
    ensures
        final(state).wf(),
        match r {
            Some(download) => {
                &&& !file_exists
                &&& *final(state) == *old(state)
                &&& download.url@ == media@.url
                &&& download.target@ == file_path(old(state).download_directory@, media@)
                &&& download.temporary@ == temporary_path(old(state).download_directory@, media@)
                &&& download.url@ == media.url@
                &&& download.target.root@ == old(state).download_directory.root@
                &&& download.target.parts.deep_view()
                    == old(state).download_directory.parts.deep_view() + seq![
                    media.thread.board@,
                    media.thread.thread_number@,
                    media.url_filename@,
                ]
                &&& download.temporary.root@ == old(state).download_directory.root@
                &&& download.temporary.parts.deep_view()
                    == old(state).download_directory.parts.deep_view() + seq![
                    media.thread.board@,
                    media.thread.thread_number@,
                    media.url_filename@ + ".tmp"@,
                ]
            },
            None => {
                &&& file_exists
                &&& final(state).same_but_medias(*old(state))
                &&& final(state).medias.deep_view() == state::with_replaced(
                    old(state).medias.deep_view(),
                    finished(media@),
                )
                &&& state::has_url(final(state).medias.deep_view(), media.url@)
                &&& forall|i: int|
                    0 <= i < final(state).medias@.len() && (#[trigger] final(state).medias@[i]).url@
                        == media.url@ ==> final(state).medias@[i].state == DlEntryStatus::Finished
            },
        },
{
    proof {
        files_are_kept_under_their_names(state.download_directory@, media@);
    }
    if file_exists {
        update_media(state, media);
        return None;
    }
    let folder = media.thread.local_fs_folder(&state.download_directory);
    let temporary_name = concat(media.url_filename.as_str(), ".tmp");
    Some(
        Download {
            url: media.url.clone(),
            temporary: folder.join(temporary_name.as_str()),
            target: folder.join(media.url_filename.as_str()),
        },
    )
}

/// How a notification fared on its way to the worker.
#[derive(Debug, Clone, Copy, PartialEq, Eq, Structural)]
pub enum SendOutcome {
    Sent,
    /// One is waiting there already.
    Full,
    /// The worker is gone.
    Closed,
}

/// The worker is gone.
#[derive(Debug, Clone, Copy, PartialEq, Eq, Structural)]
pub struct ChannelClosed;

impl ChannelClosed {
    /// The error as a message.
    pub fn message(&self) -> (r: String)
        ensures
            r@ == "channel closed"@,
    {
        "channel closed".to_owned()
    }
}

/// The entry that wakes the worker. It stands for no file.
pub fn notification() -> (r: MediaEntry)
    ensures
        r.url@ == "()"@,
        r.state == DlEntryStatus::JustAdded,
        r.thread.board@ == Seq::<char>::empty(),
        r.thread.thread_number@ == Seq::<char>::empty(),
        !r.thread.is_archive,
        r.url_filename@ == "()"@,
{
    MediaEntry {
        url: "()".to_owned(),
        state: DlEntryStatus::JustAdded,
        thread: DvachThreadUrl::default(),
        url_filename: "()".to_owned(),
    }
}

/// Whether the worker knows of new media. One notification that waits is
/// enough.
pub fn notify_new_media(outcome: SendOutcome) -> (r: Result<(), ChannelClosed>)
    ensures
        r is Err <==> outcome == SendOutcome::Closed,
{
    match outcome {
        SendOutcome::Closed => Err(ChannelClosed),
        _ => Ok(()),
    }
}

/// What ended the worker's wait.
#[derive(Debug, Clone, Copy, PartialEq, Eq, Structural)]
pub enum WakeEvent {
    Notified,
    Shutdown,
}

/// What the worker does next.
#[derive(Debug)]
pub enum MediaTick {
    Stop,
    Process(MediaEntry),
    Wait,
}

/// Whether an entry is the first of those whose download has not been started.
pub open spec fn is_next_media(medias: Seq<MediaEntryView>, media: MediaEntryView) -> bool {
    exists|i: int|
        {
            &&& 0 <= i < medias.len()
            &&& #[trigger] medias[i] == media
            &&& media.ready()
            &&& forall|j: int| 0 <= j < i ==> !(#[trigger] medias[j]).ready()
        }
}

/// Whether no entry's download is still to be started.
pub open spec fn none_ready(medias: Seq<MediaEntryView>) -> bool {
    forall|i: int| 0 <= i < medias.len() ==> !(#[trigger] medias[i]).ready()
}

/// The worker.
#[derive(Debug, Clone, Copy)]
pub struct MediaThreadInt {}

impl MediaThreadInt {
    /// The first entry whose download has not been started.
    pub fn get_next_media(state: &ThreadState) -> (r: Option<MediaEntry>)
        ensures
            match r {
                Some(media) => is_next_media(state.medias.deep_view(), media@),
                None => none_ready(state.medias.deep_view()),
            },
            r matches Some(media) ==> media.state == DlEntryStatus::JustAdded,
            r is None <==> forall|i: int|
                0 <= i < state.medias@.len() ==> (#[trigger] state.medias@[i]).state
                    != DlEntryStatus::JustAdded,
    {
        let ghost medias = state.medias.deep_view();
        let mut i: usize = 0;
        while i < state.medias.len()
            invariant
                i <= state.medias@.len(),
                medias == state.medias.deep_view(),
                forall|j: int| 0 <= j < i ==> !(#[trigger] medias[j]).ready(),
                forall|j: int|
                    0 <= j < i ==> (#[trigger] state.medias@[j]).state != DlEntryStatus::JustAdded,
            decreases state.medias@.len() - i,
        {
            if state.medias[i].is_ready_for_download() {
                let media = state.medias[i].clone();
                assert(medias[i as int] == media@);
                return Some(media);
            }
            i = i + 1;
        }
        None
    }

    /// Whether a wait ended because the program shuts down.
    pub fn wait_notify_or_shoutwown(event: WakeEvent) -> (r: bool)
        ensures
            r == (event == WakeEvent::Shutdown),
    {
        match event {
            WakeEvent::Notified => false,
            WakeEvent::Shutdown => true,
        }
    }

    /// One round of the worker: stop where the program shuts down, else process
    /// the next entry, else wait for a notification.
    pub fn start(shutdown: bool, state: &ThreadState) -> (r: MediaTick)
        ensures
            match r {
                MediaTick::Stop => shutdown,
                MediaTick::Process(media) => !shutdown && is_next_media(
                    state.medias.deep_view(),
                    media@,
                ),
                MediaTick::Wait => !shutdown && none_ready(state.medias.deep_view()),
            },
            r is Stop <==> shutdown,
            r matches MediaTick::Process(media) ==> media.state == DlEntryStatus::JustAdded,
            r is Wait <==> !shutdown && forall|i: int|
                0 <= i < state.medias@.len() ==> (#[trigger] state.medias@[i]).state
                    != DlEntryStatus::JustAdded,
    {
        if shutdown {
            return MediaTick::Stop;
        }
        match Self::get_next_media(state) {
            Some(media) => MediaTick::Process(media),
            None => MediaTick::Wait,
        }
    }
}

/// How many entries' downloads are still to be started.
pub open spec fn ready_count(medias: Seq<MediaEntryView>) -> nat
    decreases medias.len(),
{
    if medias.len() == 0 {
        0
    } else {
        ready_count(medias.drop_last()) + (if medias.last().ready() {
            1nat
        } else {
            0nat
        })
    }
}

proof fn ready_count_of_update(medias: Seq<MediaEntryView>, i: int, media: MediaEntryView)
    requires
        0 <= i < medias.len(),
        medias[i].ready(),
        !media.ready(),
    ensures
        ready_count(medias.update(i, media)) + 1 == ready_count(medias),
    decreases medias.len(),
{
    let updated = medias.update(i, media);
    if i == medias.len() - 1 {
        assert(updated.drop_last() =~= medias.drop_last());
    } else {
        assert(updated.drop_last() =~= medias.drop_last().update(i, media));
        ready_count_of_update(medias.drop_last(), i, media);
    }
}

/// Marking the next entry as done changes that entry alone, and leaves one
/// entry fewer to download: a worker that nobody gives more work comes to wait
/// after as many rounds as there were entries to download.
pub proof fn each_round_finishes_one(medias: Seq<MediaEntryView>, media: MediaEntryView)
    requires
        state::distinct_urls(medias),
        is_next_media(medias, media),
    ensures
        ({
            let after = state::with_replaced(medias, finished(media));
            &&& after.len() == medias.len()
            &&& ready_count(after) + 1 == ready_count(medias)
            &&& forall|i: int|
                0 <= i < medias.len() ==> (#[trigger] after[i]) == (if medias[i].url == media.url {
                    finished(medias[i])
                } else {
                    medias[i]
                })
        }),
{
    let i = choose|i: int|
        {
            &&& 0 <= i < medias.len()
            &&& #[trigger] medias[i] == media
            &&& media.ready()
            &&& forall|j: int| 0 <= j < i ==> !(#[trigger] medias[j]).ready()
        };
    let after = state::with_replaced(medias, finished(media));
    assert(state::has_url(medias, media.url));
    assert forall|k: int| 0 <= k < medias.len() && k != i implies (#[trigger] medias[k]).url
        != media.url by {
        if k < i {
            assert(medias[k].url != medias[i].url);
        } else {
            assert(medias[i].url != medias[k].url);
        }
    }
    assert(after =~= medias.update(i, finished(media)));
    ready_count_of_update(medias, i, finished(media));
}

proof fn none_ready_without_count(medias: Seq<MediaEntryView>)
    ensures
        ready_count(medias) == 0 <==> none_ready(medias),
    decreases medias.len(),
{
    if medias.len() > 0 {
        none_ready_without_count(medias.drop_last());
        assert(forall|i: int|
            0 <= i < medias.len() - 1 ==> #[trigger] medias[i] == medias.drop_last()[i]);
        if none_ready(medias) {
            assert(!medias.last().ready());
        } else if ready_count(medias) == 0 {
            assert(!medias[medias.len() - 1].ready());
            assert forall|i: int| 0 <= i < medias.len() implies !(#[trigger] medias[i]).ready() by {
                if i < medias.len() - 1 {
                    assert(!medias.drop_last()[i].ready());
                }
            }
        }
    }
}

/// The worker waits exactly where there is nothing left to download.
pub proof fn waits_when_nothing_is_left(medias: Seq<MediaEntryView>)
    ensures
        ready_count(medias) == 0 <==> none_ready(medias),
        none_ready(medias) <==> !exists|media: MediaEntryView| is_next_media(medias, media),
{
    none_ready_without_count(medias);
    if !none_ready(medias) {
        let i = first_ready(medias, 0);
        assert(is_next_media(medias, medias[i]));
    }
}

proof fn first_ready(medias: Seq<MediaEntryView>, from: int) -> (r: int)
    requires
        0 <= from <= medias.len(),
        !none_ready(medias),
        forall|j: int| 0 <= j < from ==> !(#[trigger] medias[j]).ready(),
    ensures
        from <= r < medias.len(),
        medias[r].ready(),
        forall|j: int| 0 <= j < r ==> !(#[trigger] medias[j]).ready(),
    decreases medias.len() - from,
{
    if medias[from].ready() && from < medias.len() {
        from
    } else {
        first_ready(medias, from + 1)
    }
}

/// The entries after a round of the worker that processes the next of them.
pub open spec fn after_round(medias: Seq<MediaEntryView>) -> Seq<MediaEntryView> {
    let next = choose|media: MediaEntryView| is_next_media(medias, media);
    state::with_replaced(medias, finished(next))
}

/// The entries after some rounds of the worker.
pub open spec fn after_rounds(medias: Seq<MediaEntryView>, rounds: nat) -> Seq<MediaEntryView>
    decreases rounds,
{
    if rounds == 0 {
        medias
    } else {
        after_rounds(after_round(medias), (rounds - 1) as nat)
    }
}

/// Left alone, the worker downloads everything: after as many rounds as there
/// were entries to download, each of them is done, every other entry is as it
/// was, and the worker waits.
pub proof fn everything_is_downloaded(medias: Seq<MediaEntryView>)
    requires
        state::distinct_urls(medias),
    ensures
        ({
            let done = after_rounds(medias, ready_count(medias));
            &&& done.len() == medias.len()
            &&& none_ready(done)
            &&& forall|i: int|
                0 <= i < medias.len() ==> (#[trigger] done[i]) == (if medias[i].ready() {
                    finished(medias[i])
                } else {
                    medias[i]
                })
        }),
    decreases ready_count(medias),
{
    waits_when_nothing_is_left(medias);
    if ready_count(medias) > 0 {
        let next = choose|media: MediaEntryView| is_next_media(medias, media);
        let after = after_round(medias);
        each_round_finishes_one(medias, next);
        let n = choose|i: int|
            {
                &&& 0 <= i < medias.len()
                &&& #[trigger] medias[i] == next
                &&& next.ready()
                &&& forall|j: int| 0 <= j < i ==> !(#[trigger] medias[j]).ready()
            };
        assert forall|i: int, j: int| 0 <= i < j < after.len() implies (#[trigger] after[i]).url
            != (#[trigger] after[j]).url by {
            assert(medias[i].url != medias[j].url);
        }
        everything_is_downloaded(after);
        let done = after_rounds(after, ready_count(after));
        assert forall|i: int| 0 <= i < medias.len() implies (#[trigger] done[i]) == (
        if medias[i].ready() {
            finished(medias[i])
        } else {
            medias[i]
        }) by {
            if medias[i].url == next.url {
                if i < n {
                    assert(medias[i].url != medias[n].url);
                } else if i > n {
                    assert(medias[n].url != medias[i].url);
                }
            }
            assert(done[i] == (if after[i].ready() {
                finished(after[i])
            } else {
                after[i]
            }));
        }
    }
}

/// A file is downloaded once: an entry that is done stays done when its
/// address turns up again, and nothing is added for it.
pub proof fn finished_media_stays_finished(
    medias: Seq<MediaEntryView>,
    media: MediaEntryView,
    again: MediaEntryView,
)
    requires
        again.url == media.url,
    ensures
        ({
            let done = state::with_replaced(medias, finished(media));
            &&& state::has_url(done, media.url)
            &&& state::with_media(done, again) == done
            &&& !is_next_media(done, again)
            &&& forall|i: int|
                0 <= i < done.len() && (#[trigger] done[i]).url == media.url ==> done[i].state
                    == DlEntryStatus::Finished
        }),
{
    let done = state::with_replaced(medias, finished(media));
    if state::has_url(medias, media.url) {
        let i = choose|i: int| 0 <= i < medias.len() && (#[trigger] medias[i]).url == media.url;
        assert(done[i].url == media.url);
    } else {
        assert(done[medias.len() as int].url == media.url);
        assert(forall|i: int| 0 <= i < medias.len() ==> #[trigger] done[i] == medias[i]);
    }
}

/// Names that are single parts of paths stay so: whatever is added under such
/// a name, whatever is marked as done.
pub proof fn names_stay_plain(medias: Seq<MediaEntryView>, media: MediaEntryView)
    requires
        state::plain_names(medias),
        media.plain_name(),
    ensures
        state::plain_names(state::with_media(medias, media)),
        state::plain_names(state::with_replaced(medias, finished(media))),
        forall|next: MediaEntryView| #[trigger]
            is_next_media(medias, next) ==> next.plain_name(),
{
}

/// A media file and the file that it is first written to lie directly in the
/// folder of its thread, under different names.
pub proof fn files_stay_in_their_folder(root: LocalPathView, media: MediaEntryView)
    requires
        media.plain_name(),
    ensures
        file_path(root, media).directly_in(media.thread.folder(root)),
        temporary_path(root, media).directly_in(media.thread.folder(root)),
        file_path(root, media) != temporary_path(root, media),
{
    reveal_strlit(".tmp");
    let folder = media.thread.folder(root);
    let file = file_path(root, media);
    let temporary = temporary_path(root, media);
    assert(file.parts.last() == media.url_filename);
    assert(temporary.parts.last() == media.url_filename + ".tmp"@);
    assert(temporary.parts.last().len() == file.parts.last().len() + 4);
    assert(!temporary.parts.last().contains('/')) by {
        let name = temporary.parts.last();
        if name.contains('/') {
            let i = choose|i: int| 0 <= i < name.len() && name[i] == '/';
            if i < media.url_filename.len() {
                assert(media.url_filename[i] == '/');
            } else {
                assert(".tmp"@[i - media.url_filename.len()] == '/');
            }
        }
    }
}

/// A media file is kept in the folder of its thread, by board and number, under
/// its own name and nothing else; until it is complete, under that name with
/// `.tmp` behind it.
pub proof fn files_are_kept_under_their_names(root: LocalPathView, media: MediaEntryView)
    ensures
        file_path(root, media).root == root.root,
        file_path(root, media).parts == root.parts + seq![
            media.thread.board,
            media.thread.thread_number,
            media.url_filename,
        ],
        temporary_path(root, media).root == root.root,
        temporary_path(root, media).parts == root.parts + seq![
            media.thread.board,
            media.thread.thread_number,
            media.url_filename + ".tmp"@,
        ],
{
    assert(file_path(root, media).parts =~= root.parts + seq![
        media.thread.board,
        media.thread.thread_number,
        media.url_filename,
    ]);
    assert(temporary_path(root, media).parts =~= root.parts + seq![
        media.thread.board,
        media.thread.thread_number,
        media.url_filename + ".tmp"@,
    ]);
}

/// Two media files have one place exactly where they have one name and belong to
/// one thread: no file is taken for another that is on disk.
pub proof fn different_files_have_different_places(
    root: LocalPathView,
    media: MediaEntryView,
    other: MediaEntryView,
)
    ensures
        file_path(root, media) == file_path(root, other) <==> {
            &&& media.url_filename == other.url_filename
            &&& media.thread.board == other.thread.board
            &&& media.thread.thread_number == other.thread.thread_number
        },
        temporary_path(root, media) == temporary_path(root, other) <==> file_path(root, media)
            == file_path(root, other),
{
    files_are_kept_under_their_names(root, media);
    files_are_kept_under_their_names(root, other);
    let n = root.parts.len() as int;
    let a = file_path(root, media).parts;
    let b = file_path(root, other).parts;
    assert(a[n] == media.thread.board && b[n] == other.thread.board);
    assert(a[n + 1] == media.thread.thread_number && b[n + 1] == other.thread.thread_number);
    assert(a[n + 2] == media.url_filename && b[n + 2] == other.url_filename);
    let c = temporary_path(root, media).parts;
    let d = temporary_path(root, other).parts;
    assert(c[n] == media.thread.board && d[n] == other.thread.board);
    assert(c[n + 1] == media.thread.thread_number && d[n + 1] == other.thread.thread_number);
    let tmp = ".tmp"@;
    assert(c[n + 2] == media.url_filename + tmp && d[n + 2] == other.url_filename + tmp);
    if c[n + 2] == d[n + 2] {
        assert(media.url_filename =~= c[n + 2].take(c[n + 2].len() - tmp.len()));
        assert(other.url_filename =~= d[n + 2].take(d[n + 2].len() - tmp.len()));
    }
}

/// Marking an entry as done changes how far it has come, and nothing else.
pub proof fn done_entries_keep_the_rest(media: MediaEntryView)
    ensures
        finished(media).state == DlEntryStatus::Finished,
        finished(media).url == media.url,
        finished(media).thread == media.thread,
        finished(media).url_filename == media.url_filename,
{
}

/// The next entry is the first that is just added, and there is one wherever an
/// entry is just added: nothing that is planned is passed over for good.
pub proof fn the_first_added_comes_first(medias: Seq<MediaEntryView>, i: int)
    requires
        0 <= i < medias.len(),
        medias[i].state == DlEntryStatus::JustAdded,
    ensures
        !none_ready(medias),
        (forall|j: int| 0 <= j < i ==> (#[trigger] medias[j]).state != DlEntryStatus::JustAdded)
            ==> forall|media: MediaEntryView| #[trigger]
            is_next_media(medias, media) <==> media == medias[i],
        exists|media: MediaEntryView| #[trigger] is_next_media(medias, media),
        forall|media: MediaEntryView| #[trigger]
            is_next_media(medias, media) ==> medias.contains(media) && media.state
                == DlEntryStatus::JustAdded,
{
    assert(medias[i].ready());
    waits_when_nothing_is_left(medias);
    if forall|j: int| 0 <= j < i ==> (#[trigger] medias[j]).state != DlEntryStatus::JustAdded {
        assert(is_next_media(medias, medias[i]));
        assert forall|media: MediaEntryView| #[trigger]
            is_next_media(medias, media) implies media == medias[i] by {
            let k = choose|k: int|
                {
                    &&& 0 <= k < medias.len()
                    &&& #[trigger] medias[k] == media
                    &&& media.ready()
                    &&& forall|j: int| 0 <= j < k ==> !(#[trigger] medias[j]).ready()
                };
            if k < i {
                assert(medias[k].ready());
            } else if i < k {
                assert(!medias[i].ready());
            }
        }
    }
}

} // verus!
