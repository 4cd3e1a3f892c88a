//! What is known of threads and of their media files.

use vstd::prelude::*;

use crate::clock;
use crate::clock::utc_timestamp;
use crate::local_path::LocalPath;
use crate::thread_url::{DvachThreadUrl, ThreadUrlView};

verus! {

/// How far a download has come.
#[derive(Debug, Clone, Copy, PartialEq, Eq, Structural)]
pub enum DlEntryStatus {
    JustAdded,
    Downloading,
    Finished,
}

/// A media file: where it is on the web, the thread that it belongs to, its
/// name, and how far its download has come. The address tells entries apart.
#[derive(Debug)]
pub struct MediaEntry {
    pub url: String,
    pub state: DlEntryStatus,
    pub thread: DvachThreadUrl,
    pub url_filename: String,
}

/// What a `MediaEntry` stands for.
pub struct MediaEntryView {
    pub url: Seq<char>,
    pub state: DlEntryStatus,
    pub thread: ThreadUrlView,
    pub url_filename: Seq<char>,
}

impl MediaEntryView {
    /// Whether the download has not been started.
    pub open spec fn ready(self) -> bool {
        self.state == DlEntryStatus::JustAdded
    }

    /// Whether the name is a single part of a path.
    pub open spec fn plain_name(self) -> bool {
        !self.url_filename.contains('/')
    }
}

impl View for MediaEntry {
    type V = MediaEntryView;

    open spec fn view(&self) -> MediaEntryView {
        MediaEntryView {
            url: self.url@,
            state: self.state,
            thread: self.thread@,
            url_filename: self.url_filename@,
        }
    }
}

impl DeepView for MediaEntry {
    type V = MediaEntryView;

    open spec fn deep_view(&self) -> MediaEntryView {
        self@
    }
}

impl Clone for MediaEntry {
    fn clone(&self) -> (r: Self)
        ensures
            r@ == self@,
    {
        MediaEntry {
            url: self.url.clone(),
            state: self.state,
            thread: self.thread.clone(),
            url_filename: self.url_filename.clone(),
        }
    }
}

impl PartialEq for MediaEntry {
    fn eq(&self, other: &Self) -> (r: bool) {
        self.url == other.url
    }
}

impl vstd::std_specs::cmp::PartialEqSpecImpl for MediaEntry {
    open spec fn obeys_eq_spec() -> bool {
        true
    }

    open spec fn eq_spec(&self, other: &Self) -> bool {
        self@.url == other@.url
    }
}

impl Eq for MediaEntry {

}

impl MediaEntry {
    /// Whether the download has not been started.
    pub fn is_ready_for_download(&self) -> (r: bool)
        ensures
            r == self@.ready(),
            r == (self.state == DlEntryStatus::JustAdded),
    {
        self.state == DlEntryStatus::JustAdded
    }
}

/// A thread that is being watched. The address tells entries apart.
#[derive(Debug)]
pub struct ThreadEntry {
    pub url: String,
    pub state: DlEntryStatus,
    /// When the thread was last looked at, in seconds since the start of 1970.
    pub last_crawled: i64,
}

impl PartialEq for ThreadEntry {
    fn eq(&self, other: &Self) -> (r: bool) {
        self.url == other.url
    }
}

impl vstd::std_specs::cmp::PartialEqSpecImpl for ThreadEntry {
    open spec fn obeys_eq_spec() -> bool {
        true
    }

    open spec fn eq_spec(&self, other: &Self) -> bool {
        self.url@ == other.url@
    }
}

impl Eq for ThreadEntry {

}

impl Clone for ThreadEntry {
    fn clone(&self) -> (r: Self)
        ensures
            r.url@ == self.url@,
            r.state == self.state,
            r.last_crawled == self.last_crawled,
    {
        ThreadEntry {
            url: self.url.clone(),
            state: self.state,
            last_crawled: self.last_crawled,
        }
    }
}

impl ThreadEntry {
    /// A thread that has just been added, last looked at long ago.
    pub fn new(url: String) -> (r: ThreadEntry)
        ensures
            r.url@ == url@,
            r.state == DlEntryStatus::JustAdded,
            r.last_crawled == clock::unix_seconds(2014, 7, 8, 9, 10, 11),
            r.last_crawled == 1404810611,
    {
        proof {
            reveal_with_fuel(clock::days_before_month, 8);
        }
        let past_time: i64 = utc_timestamp(2014, 7, 8, 9, 10, 11);
        ThreadEntry { url, state: DlEntryStatus::JustAdded, last_crawled: past_time }
    }
}

/// Whether an entry for an address is there.
pub open spec fn has_url(medias: Seq<MediaEntryView>, url: Seq<char>) -> bool {
    exists|i: int| 0 <= i < medias.len() && (#[trigger] medias[i]).url == url
}

/// No address has two entries.
pub open spec fn distinct_urls(medias: Seq<MediaEntryView>) -> bool {
    forall|i: int, j: int|
        0 <= i < j < medias.len() ==> (#[trigger] medias[i]).url != (#[trigger] medias[j]).url
}

/// No address has two threads.
pub open spec fn distinct_threads(threads: Seq<ThreadEntry>) -> bool {
    forall|i: int, j: int|
        0 <= i < j < threads.len() ==> (#[trigger] threads[i]).url@ != (#[trigger] threads[j]).url@
}

/// Every entry's name is a single part of a path.
pub open spec fn plain_names(medias: Seq<MediaEntryView>) -> bool {
    forall|i: int| 0 <= i < medias.len() ==> (#[trigger] medias[i]).plain_name()
}

/// The entries with one more, unless its address has an entry already.
pub open spec fn with_media(medias: Seq<MediaEntryView>, media: MediaEntryView) -> Seq<
    MediaEntryView,
> {
    if has_url(medias, media.url) {
        medias
    } else {
        medias.push(media)
    }
}

/// The entries with one put in the place of the one for its address, or added
/// where there is none.
pub open spec fn with_replaced(medias: Seq<MediaEntryView>, media: MediaEntryView) -> Seq<
    MediaEntryView,
> {
    if has_url(medias, media.url) {
        medias.map_values(
            |m: MediaEntryView|
                if m.url == media.url {
                    media
                } else {
                    m
                },
        )
    } else {
        medias.push(media)
    }
}

/// Planning an entry and marking one as done forget no address.
pub proof fn addresses_stay(
    medias: Seq<MediaEntryView>,
    media: MediaEntryView,
    url: Seq<char>,
)
    requires
        has_url(medias, url),
    ensures
        has_url(with_media(medias, media), url),
        has_url(with_replaced(medias, media), url),
{
    let i = choose|i: int| 0 <= i < medias.len() && (#[trigger] medias[i]).url == url;
    assert(with_media(medias, media)[i].url == url);
    assert(with_replaced(medias, media)[i].url == url);
}

/// All that is known of threads and media files, and where files are kept.
#[derive(Debug)]
pub struct ThreadState {
    pub threads: Vec<ThreadEntry>,
    pub medias: Vec<MediaEntry>,
    pub is_running: bool,
    pub download_directory: LocalPath,
}

impl ThreadState {
    /// No address has two entries, neither among the threads nor among the
    /// media files.
    pub open spec fn wf(self) -> bool {
        &&& distinct_threads(self.threads@)
        &&& distinct_urls(self.medias.deep_view())
    }

    /// Whether another state differs in its media entries at most.
    pub open spec fn same_but_medias(self, other: ThreadState) -> bool {
        &&& self.threads == other.threads
        &&& self.is_running == other.is_running
        &&& self.download_directory == other.download_directory
    }

    /// A state with nothing in it.
    pub fn new(download_directory: &LocalPath) -> (r: ThreadState)
        ensures
            r.wf(),
            r.threads@.len() == 0,
            r.medias@.len() == 0,
            !r.is_running,
            r.download_directory@ == download_directory@,
            r.download_directory.root@ == download_directory.root@,
            r.download_directory.parts.deep_view() == download_directory.parts.deep_view(),
    {
        ThreadState {
            threads: Vec::new(),
            medias: Vec::new(),
            is_running: false,
            download_directory: download_directory.clone(),
        }
    }

    /// Leaves the state as it is, and hands it back.
    pub fn plan_thread(&mut self, url: String) -> (r: &mut ThreadState)
        ensures
            *r == *old(self),
            *final(self) == *final(r),
    {
        self
    }

    /// The place of the entry for an address.
    fn find_media(&self, url: &String) -> (r: Option<usize>)
        ensures
            match r {
                Some(i) => i < self.medias@.len() && self.medias@[i as int]@.url == url@,
                None => !has_url(self.medias.deep_view(), url@),
            },
    {
        let mut i: usize = 0;
        while i < self.medias.len()
            invariant
                i <= self.medias@.len(),
                forall|j: int| 0 <= j < i ==> (#[trigger] self.medias@[j])@.url != url@,
            decreases self.medias@.len() - i,
        {
            if self.medias[i].url == *url {
                return Some(i);
            }
            i = i + 1;
        }
        None
    }

    /// Adds an entry, unless its address has one already, and says whether it
    /// was added.
    pub fn plan_media(&mut self, media: &MediaEntry) -> (r: bool)
        requires
            old(self).wf(),
        ensures
            final(self).wf(),
            final(self).same_but_medias(*old(self)),
            r == !has_url(old(self).medias.deep_view(), media@.url),
            final(self).medias.deep_view() == with_media(old(self).medias.deep_view(), media@),
            r == forall|i: int|
                0 <= i < old(self).medias@.len() ==> (#[trigger] old(self).medias@[i]).url@
                    != media.url@,
            r ==> final(self).medias.deep_view() == old(self).medias.deep_view().push(media@),
            !r ==> final(self).medias.deep_view() == old(self).medias.deep_view(),
    {
        let ghost medias = self.medias;
        let ghost before = self.medias.deep_view();
        match self.find_media(&media.url) {
            Some(i) => {
                proof {
                    assert(before[i as int].url == media@.url);
                    assert(medias@[i as int].url@ == media.url@);
                }
                false
            },
            None => {
                self.medias.push(media.clone());
                proof {
                    assert(self.medias.deep_view() =~= before.push(media@));
                    assert forall|i: int| 0 <= i < medias@.len() implies (#[trigger] medias@[i]).url@
                        != media.url@ by {
                        assert(before[i].url == medias@[i].url@);
                    }
                }
                true
            },
        }
    }

    /// Puts an entry in the place of the one for its address, or adds it where
    /// there is none.
    pub fn replace_media(&mut self, media: MediaEntry)
        requires
            old(self).wf(),
        ensures
            final(self).wf(),
            final(self).same_but_medias(*old(self)),
            final(self).medias.deep_view() == with_replaced(old(self).medias.deep_view(), media@),
    {
        let ghost before = self.medias.deep_view();
        match self.find_media(&media.url) {
            Some(i) => {
                let ghost new = media@;
                self.medias.set(i, media);
                proof {
                    assert(before[i as int].url == new.url);
                    assert(self.medias.deep_view() =~= with_replaced(before, new));
                }
            },
            None => {
                let ghost new = media@;
                self.medias.push(media);
                proof {
                    assert(self.medias.deep_view() =~= before.push(new));
                }
            },
        }
    }
}

/// An address has an entry exactly where one was put there for it.
pub proof fn entries_go_by_their_address(
    medias: Seq<MediaEntryView>,
    media: MediaEntryView,
    url: Seq<char>,
)
    ensures
        !has_url(Seq::<MediaEntryView>::empty(), url),
        has_url(medias.push(media), url) <==> has_url(medias, url) || media.url == url,
{
    let more = medias.push(media);
    if has_url(more, url) && media.url != url {
        let i = choose|i: int| 0 <= i < more.len() && (#[trigger] more[i]).url == url;
        assert(medias[i].url == url);
    }
    if has_url(medias, url) {
        let i = choose|i: int| 0 <= i < medias.len() && (#[trigger] medias[i]).url == url;
        assert(more[i].url == url);
    }
    if media.url == url {
        assert(more[medias.len() as int].url == url);
    }
}

/// No address has two entries exactly where the addresses of the entries repeat
/// nowhere.
pub proof fn distinct_entries_repeat_no_address(medias: Seq<MediaEntryView>)
    ensures
        distinct_urls(medias) <==> medias.map_values(|m: MediaEntryView| m.url).no_duplicates(),
{
    let urls = medias.map_values(|m: MediaEntryView| m.url);
    if distinct_urls(medias) {
        assert forall|i: int, j: int| 0 <= i < urls.len() && 0 <= j < urls.len() && i
            != j implies urls[i] != urls[j] by {
            if i < j {
                assert(medias[i].url != medias[j].url);
            } else {
                assert(medias[j].url != medias[i].url);
            }
        }
    }
    if urls.no_duplicates() {
        assert forall|i: int, j: int| 0 <= i < j < medias.len() implies (#[trigger] medias[i]).url
            != (#[trigger] medias[j]).url by {
            assert(urls[i] != urls[j]);
        }
    }
}

/// Planning an entry adds it at the end, as it is, where no entry has its
/// address; where one has, nothing changes.
pub proof fn planning_adds_at_the_end(medias: Seq<MediaEntryView>, media: MediaEntryView)
    ensures
        (forall|i: int| 0 <= i < medias.len() ==> (#[trigger] medias[i]).url != media.url)
            ==> with_media(medias, media) == medias + seq![media],
        (exists|i: int| 0 <= i < medias.len() && (#[trigger] medias[i]).url == media.url)
            ==> with_media(medias, media) == medias,
{
    assert(medias.push(media) =~= medias + seq![media]);
}

/// Putting an entry in its place changes the entry for its address alone, to
/// that entry; where there is none, it is added at the end.
pub proof fn replacing_changes_one_entry(medias: Seq<MediaEntryView>, media: MediaEntryView)
    ensures
        (forall|i: int| 0 <= i < medias.len() ==> (#[trigger] medias[i]).url != media.url)
            ==> with_replaced(medias, media) == medias + seq![media],
        (exists|i: int| 0 <= i < medias.len() && (#[trigger] medias[i]).url == media.url) ==> {
            &&& with_replaced(medias, media).len() == medias.len()
            &&& forall|i: int|
                0 <= i < medias.len() && (#[trigger] medias[i]).url == media.url ==> with_replaced(
                    medias,
                    media,
                )[i] == media
            &&& forall|i: int|
                0 <= i < medias.len() && (#[trigger] medias[i]).url != media.url ==> with_replaced(
                    medias,
                    media,
                )[i] == medias[i]
        },
{
    assert(medias.push(media) =~= medias + seq![media]);
}

/// An entry is to be downloaded exactly as long as it is just added.
pub proof fn ready_means_just_added(media: MediaEntryView)
    ensures
        media.ready() <==> media.state == DlEntryStatus::JustAdded,
        media.plain_name() <==> !media.url_filename.contains('/'),
{
}

/// An entry stands for its address, how far it has come, its thread and its
/// name.
pub proof fn entries_stand_for_their_parts(media: MediaEntry)
    ensures
        media@.url == media.url@,
        media@.state == media.state,
        media@.thread == media.thread@,
        media@.url_filename == media.url_filename@,
{
}

/// States that differ in their media entries at most have the same threads, run
/// or do not run alike, and keep their files in the same place.
pub proof fn only_media_entries_differ(state: ThreadState, other: ThreadState)
    requires
        state.same_but_medias(other),
    ensures
        state.threads == other.threads,
        state.is_running == other.is_running,
        state.download_directory == other.download_directory,
{
}

/// A state is sound exactly where neither threads nor media files repeat an
/// address.
pub proof fn sound_states_repeat_no_address(state: ThreadState)
    ensures
        state.wf() <==> {
            &&& forall|i: int, j: int|
                0 <= i < j < state.threads@.len() ==> (#[trigger] state.threads@[i]).url@ != (
                #[trigger] state.threads@[j]).url@
            &&& forall|i: int, j: int|
                0 <= i < j < state.medias@.len() ==> (#[trigger] state.medias@[i]).url@ != (
                #[trigger] state.medias@[j]).url@
        },
{
    let medias = state.medias.deep_view();
    assert(medias.len() == state.medias@.len());
    assert(forall|i: int| 0 <= i < medias.len() ==> #[trigger] medias[i] == state.medias@[i]@);
    if state.wf() {
        assert forall|i: int, j: int| 0 <= i < j < state.medias@.len() implies (
        #[trigger] state.medias@[i]).url@ != (#[trigger] state.medias@[j]).url@ by {
            assert(medias[i].url != medias[j].url);
        }
    }
}

} // verus!
