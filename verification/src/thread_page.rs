//! The page of a thread: the media files that it links to.

use vstd::hash_set::StringHashSet;
use vstd::prelude::*;

use crate::address;
use crate::address::{Url, SITE};
use crate::media_link;
use crate::media_link::{UrlFile, UrlFileView};

verus! {

/// The longest page that is read, in bytes. The parser's buffers hold two
/// gigabytes, and a character of the page may take three times its room there.
pub const MAX_PAGE_BYTES: usize = 0x2AAA_AAAA;

/// Whether a page is short enough to be read.
pub open spec fn page_fits(page: Seq<char>) -> bool {
    vstd::utf8::encode_utf8(page).len() <= MAX_PAGE_BYTES
}

/// What `select` finds in a page: for every element with a name, in the order
/// of the document, the value of an attribute, or `None` where it has none.
pub uninterp spec fn element_attributes(
    page: Seq<char>,
    element: Seq<char>,
    attribute: Seq<char>,
) -> Seq<Option<Seq<char>>>;

/// `select::document::Document::from`, `Document::find` by name, and
/// `Node::attr` of each element found.
///
/// Taken on trust: the result depends on the three texts alone. A page that is
/// nested so deeply that the stack does not hold its elements is not provided
/// for.
#[verifier::external_body]
fn outside_attributes(page: &str, element: &str, attribute: &str) -> (r: Vec<Option<String>>)
    requires
        page_fits(page@),
    ensures
        r.deep_view() == element_attributes(page@, element@, attribute@),
{
    let document = select::document::Document::from(page);
    let elements = document.find(select::predicate::Name(element));
    elements.map(|node| node.attr(attribute).map(str::to_owned)).collect()
}

/// The links among some attributes: those that are there, each where it occurs
/// first.
pub open spec fn fresh_links(hrefs: Seq<Option<Seq<char>>>) -> Seq<Seq<char>>
    decreases hrefs.len(),
{
    if hrefs.len() == 0 {
        seq![]
    } else {
        let before = fresh_links(hrefs.drop_last());
        match hrefs.last() {
            Some(link) => if before.contains(link) {
                before
            } else {
                before.push(link)
            },
            None => before,
        }
    }
}

/// The media files that some links lead to, in order; or, where a link is no
/// address, the message of the first such link's refusal.
pub open spec fn files_of_links(links: Seq<Seq<char>>) -> Result<Seq<UrlFileView>, Seq<char>>
    decreases links.len(),
{
    if links.len() == 0 {
        Ok(seq![])
    } else {
        match files_of_links(links.drop_last()) {
            Err(e) => Err(e),
            Ok(files) => match address::url_joined(SITE@, links.last()) {
                Err(e) => Err(e),
                Ok(u) => match media_link::url_file(u) {
                    Some(file) => Ok(files.push(file)),
                    None => Ok(files),
                },
            },
        }
    }
}

/// The view of an attempt to find media files.
pub open spec fn files_outcome(r: Result<Vec<UrlFile>, String>) -> Result<
    Seq<UrlFileView>,
    Seq<char>,
> {
    match r {
        Ok(files) => Ok(files.deep_view()),
        Err(e) => Err(e@),
    }
}

/// Every file's name is a single part of a path.
pub open spec fn plain_files(files: Seq<UrlFileView>) -> bool {
    forall|i: int| 0 <= i < files.len() ==> (#[trigger] files[i]).wf()
}

/// Whether a link is a plain path on the site, from its root.
pub open spec fn plain_link(link: Seq<char>) -> bool {
    &&& SITE@.len() + link.len() <= u32::MAX
    &&& exists|segments: Seq<Seq<char>>| #[trigger]
        address::plain_path(segments) && link == address::path_text(segments)
}

/// Whether all links among some attributes are plain paths on the site.
pub open spec fn plain_links(hrefs: Seq<Option<Seq<char>>>) -> bool {
    forall|i: int| 0 <= i < hrefs.len() ==> ((#[trigger] hrefs[i]) matches Some(l) ==> plain_link(l))
}

proof fn refusals_stay(links: Seq<Seq<char>>, n: int)
    requires
        0 <= n <= links.len(),
        files_of_links(links.take(n)) is Err,
    ensures
        files_of_links(links) == files_of_links(links.take(n)),
    decreases links.len(),
{
    if n == links.len() {
        assert(links.take(n) =~= links);
    } else {
        assert(links.drop_last().take(n) =~= links.take(n));
        refusals_stay(links.drop_last(), n);
    }
}

proof fn links_grow(hrefs: Seq<Option<Seq<char>>>, n: int)
    requires
        0 <= n <= hrefs.len(),
    ensures
        fresh_links(hrefs.take(n)).is_prefix_of(fresh_links(hrefs)),
    decreases hrefs.len(),
{
    if n == hrefs.len() {
        assert(hrefs.take(n) =~= hrefs);
    } else {
        assert(hrefs.drop_last().take(n) =~= hrefs.take(n));
        links_grow(hrefs.drop_last(), n);
    }
}

/// The media files that links lead to, given the attributes that hold them.
/// A link that occurs again is passed over.
pub fn files_of_hrefs(hrefs: &Vec<Option<String>>) -> (r: Result<Vec<UrlFile>, String>)
    ensures
        files_outcome(r) == files_of_links(fresh_links(hrefs.deep_view())),
        r matches Ok(files) ==> finds_all_media(hrefs.deep_view(), files.deep_view()),
        r matches Ok(files) ==> plain_files(files.deep_view()),
        plain_links(hrefs.deep_view()) ==> r is Ok,
{
    let ghost all = hrefs.deep_view();
    let ghost mut fresh: Seq<Seq<char>> = seq![];
    let mut url_cache = StringHashSet::with_capacity(100);
    let mut files: Vec<UrlFile> = Vec::new();
    let mut i: usize = 0;
    assert(all.take(0) =~= seq![]);
    assert(files.deep_view() =~= seq![]);
    while i < hrefs.len()
        invariant
            i <= hrefs@.len(),
            all == hrefs.deep_view(),
            fresh == fresh_links(all.take(i as int)),
            forall|link: Seq<char>| #[trigger] url_cache@.contains(link) <==> fresh.contains(link),
            files_of_links(fresh) == Ok::<Seq<UrlFileView>, Seq<char>>(files.deep_view()),
            plain_files(files.deep_view()),
        decreases hrefs@.len() - i,
    {
        proof {
            assert(all.take(i + 1).drop_last() =~= all.take(i as int));
            assert(all.take(i + 1).last() == all[i as int]);
        }
        match &hrefs[i] {
            Some(link) => {
                if !url_cache.contains(link.as_str()) {
                    url_cache.insert(link.clone());
                    let ghost before = fresh;
                    proof {
                        fresh = before.push(link@);
                        assert(fresh.drop_last() =~= before);
                        assert forall|l: Seq<char>| #[trigger]
                            url_cache@.contains(l) <==> fresh.contains(l) by {
                            if before.contains(l) {
                                let k = choose|k: int| 0 <= k < before.len() && before[k] == l;
                                assert(fresh[k] == l);
                            }
                            assert(fresh[before.len() as int] == link@);
                        }
                    }
                    match Url::from_site_link(link.as_str()) {
                        Ok(url) => {
                            let ghost found = files.deep_view();
                            match UrlFile::from_url_or_none(url) {
                                Some(file) => {
                                    let ghost new = file@;
                                    files.push(file);
                                    assert(files.deep_view() =~= found.push(new));
                                },
                                None => {},
                            }
                        },
                        Err(e) => {
                            proof {
                                links_grow(all, i + 1);
                                let links = fresh_links(all);
                                assert(links.take(fresh.len() as int) =~= fresh);
                                refusals_stay(links, fresh.len() as int);
                                assert(!plain_link(all[i as int]->0));
                            }
                            return Err(e);
                        },
                    }
                }
            },
            None => {},
        }
        i = i + 1;
    }
    assert(all.take(i as int) =~= all);
    proof {
        all_media_of_a_page_is_found(all);
    }
    Ok(files)
}

/// Whether a page is short enough to be read.
pub fn fits(page: &str) -> (r: bool)
    ensures
        r == page_fits(page@),
{
    page.as_bytes().len() <= MAX_PAGE_BYTES
}

/// The media files that a page links to: what its anchors lead to, in the
/// order of the page, each link once. Where a link is no address, its refusal
/// comes back.
pub fn parse_thread_vec_cached(page: &str) -> (r: Result<Vec<UrlFile>, String>)
    requires
        page_fits(page@),
    ensures
        files_outcome(r) == files_of_links(
            fresh_links(element_attributes(page@, "a"@, "href"@)),
        ),
        r matches Ok(files) ==> finds_all_media(
            element_attributes(page@, "a"@, "href"@),
            files.deep_view(),
        ),
        r matches Ok(files) ==> plain_files(files.deep_view()),
        plain_links(element_attributes(page@, "a"@, "href"@)) ==> r is Ok,
{
    let hrefs = outside_attributes(page, "a", "href");
    files_of_hrefs(&hrefs)
}

/// Every link that is there is among those that are followed, and no other is.
proof fn links_are_kept(hrefs: Seq<Option<Seq<char>>>, link: Seq<char>)
    ensures
        fresh_links(hrefs).contains(link) <==> hrefs.contains(Some(link)),
    decreases hrefs.len(),
{
    if hrefs.len() > 0 {
        let rest = hrefs.drop_last();
        let before = fresh_links(rest);
        links_are_kept(rest, link);
        if hrefs.contains(Some(link)) {
            let i = choose|i: int| 0 <= i < hrefs.len() && hrefs[i] == Some(link);
            if i < rest.len() {
                assert(rest[i] == Some(link));
            } else if !before.contains(link) {
                assert(before.push(link)[before.len() as int] == link);
            }
        }
        if before.contains(link) {
            let k = choose|k: int| 0 <= k < before.len() && before[k] == link;
            if let Some(last) = hrefs.last() {
                assert(before.push(last)[k] == link);
            }
            let i = choose|i: int| 0 <= i < rest.len() && rest[i] == Some(link);
            assert(hrefs[i] == Some(link));
        }
        if fresh_links(hrefs).contains(link) && !before.contains(link) {
            assert(hrefs[hrefs.len() - 1] == Some(link));
        }
    }
}

/// Each link of a page is followed exactly once: what is followed is what the
/// page holds, and nothing twice.
pub proof fn each_link_is_followed_once(hrefs: Seq<Option<Seq<char>>>)
    ensures
        fresh_links(hrefs).no_duplicates(),
        forall|link: Seq<char>| #[trigger]
            fresh_links(hrefs).contains(link) <==> hrefs.contains(Some(link)),
    decreases hrefs.len(),
{
    assert forall|link: Seq<char>| #[trigger]
        fresh_links(hrefs).contains(link) <==> hrefs.contains(Some(link)) by {
        links_are_kept(hrefs, link);
    }
    if hrefs.len() > 0 {
        each_link_is_followed_once(hrefs.drop_last());
    }
}

/// Repeating a link further down a page changes nothing.
pub proof fn repeated_links_change_nothing(hrefs: Seq<Option<Seq<char>>>, link: Seq<char>)
    requires
        hrefs.contains(Some(link)),
    ensures
        fresh_links(hrefs.push(Some(link))) == fresh_links(hrefs),
        files_of_links(fresh_links(hrefs.push(Some(link)))) == files_of_links(fresh_links(hrefs)),
{
    links_are_kept(hrefs, link);
    assert(hrefs.push(Some(link)).drop_last() =~= hrefs);
}

/// Whether following a link of the site leads to a media file.
pub open spec fn leads_to(link: Seq<char>, file: UrlFileView) -> bool {
    address::url_joined("https://2ch.hk"@, link) matches Ok(u) && media_link::url_file(u) == Some(
        file,
    )
}

/// Whether some link of a page leads to a media file.
pub open spec fn is_linked(hrefs: Seq<Option<Seq<char>>>, file: UrlFileView) -> bool {
    exists|link: Seq<char>| hrefs.contains(Some(link)) && #[trigger] leads_to(link, file)
}

/// Whether some links are those of a page that lead to media files, each of them
/// once, and to these files.
pub open spec fn are_media_links(
    links: Seq<Seq<char>>,
    hrefs: Seq<Option<Seq<char>>>,
    files: Seq<UrlFileView>,
) -> bool {
    &&& links.no_duplicates()
    &&& links.len() == files.len()
    &&& forall|k: int|
        0 <= k < files.len() ==> leads_to(#[trigger] links[k], files[k]) && hrefs.contains(
            Some(links[k]),
        )
    &&& forall|link: Seq<char>, file: UrlFileView|
        hrefs.contains(Some(link)) && #[trigger] leads_to(link, file) ==> links.contains(link)
}

/// Whether some files are all that the links of a page lead to: there is a file
/// for every link that leads to one, and no other; and there are as many as there
/// are different links that lead to one.
pub open spec fn finds_all_media(hrefs: Seq<Option<Seq<char>>>, files: Seq<UrlFileView>) -> bool {
    &&& forall|i: int, link: Seq<char>, file: UrlFileView|
        0 <= i < hrefs.len() && #[trigger] hrefs[i] == Some(link) && #[trigger] leads_to(link, file)
            ==> files.contains(file)
    &&& forall|k: int| 0 <= k < files.len() ==> is_linked(hrefs, #[trigger] files[k])
    &&& exists|followed: Seq<Seq<char>>| are_media_links(followed, hrefs, files)
}

/// The links among some that lead to media files.
spec fn media_links(links: Seq<Seq<char>>) -> Seq<Seq<char>>
    decreases links.len(),
{
    if links.len() == 0 {
        seq![]
    } else {
        let before = media_links(links.drop_last());
        if exists|file: UrlFileView| leads_to(links.last(), file) {
            before.push(links.last())
        } else {
            before
        }
    }
}

proof fn media_links_give_the_files(links: Seq<Seq<char>>)
    requires
        files_of_links(links) is Ok,
        links.no_duplicates(),
    ensures
        media_links(links).no_duplicates(),
        media_links(links).len() == files_of_links(links)->Ok_0.len(),
        forall|k: int|
            0 <= k < media_links(links).len() ==> leads_to(
                #[trigger] media_links(links)[k],
                files_of_links(links)->Ok_0[k],
            ) && links.contains(media_links(links)[k]),
        forall|link: Seq<char>, file: UrlFileView|
            links.contains(link) && #[trigger] leads_to(link, file) ==> media_links(links).contains(
                link,
            ),
    decreases links.len(),
{
    if links.len() > 0 {
        let rest = links.drop_last();
        let last = links.last();
        let before = media_links(rest);
        let found = files_of_links(rest)->Ok_0;
        let all = media_links(links);
        let files = files_of_links(links)->Ok_0;
        assert forall|i: int, j: int| 0 <= i < rest.len() && 0 <= j < rest.len() && i
            != j implies rest[i] != rest[j] by {
            assert(links[i] != links[j]);
        }
        media_links_give_the_files(rest);
        assert(!rest.contains(last)) by {
            if rest.contains(last) {
                let i = choose|i: int| 0 <= i < rest.len() && rest[i] == last;
                assert(links[i] == links[links.len() - 1]);
            }
        }
        if let Ok(u) = address::url_joined(SITE@, last) {
            if let Some(file) = media_link::url_file(u) {
                assert(leads_to(last, file));
                assert(all == before.push(last));
                assert(files == found.push(file));
            } else {
                assert(all == before);
                assert(files == found);
            }
        }
        assert forall|k: int| 0 <= k < all.len() implies leads_to(#[trigger] all[k], files[k])
            && links.contains(all[k]) by {
            if k < before.len() {
                assert(all[k] == before[k]);
                let i = choose|i: int| 0 <= i < rest.len() && rest[i] == before[k];
                assert(links[i] == all[k]);
            } else {
                assert(links[links.len() - 1] == all[k]);
            }
        }
        assert(all.no_duplicates()) by {
            assert(!before.contains(last)) by {
                if before.contains(last) {
                    let k = choose|k: int| 0 <= k < before.len() && before[k] == last;
                    assert(rest.contains(before[k]));
                }
            }
            assert forall|i: int, j: int| 0 <= i < all.len() && 0 <= j < all.len() && i
                != j implies all[i] != all[j] by {
                if i < before.len() {
                    assert(before[i] == all[i]);
                }
                if j < before.len() {
                    assert(before[j] == all[j]);
                }
            }
        }
        assert forall|link: Seq<char>, file: UrlFileView|
            links.contains(link) && #[trigger] leads_to(link, file) implies all.contains(link) by {
            let i = choose|i: int| 0 <= i < links.len() && links[i] == link;
            if i < rest.len() {
                assert(rest[i] == link);
                let k = choose|k: int| 0 <= k < before.len() && before[k] == link;
                assert(all[k] == link);
            } else {
                assert(all[before.len() as int] == link);
            }
        }
    }
}

/// Where all links of a page are addresses, every media file that a link of the
/// page leads to is found, in a number that nothing limits, once for each link;
/// and nothing else is found.
pub proof fn all_media_of_a_page_is_found(hrefs: Seq<Option<Seq<char>>>)
    ensures
        files_of_links(fresh_links(hrefs)) matches Ok(files) ==> finds_all_media(hrefs, files),
        (forall|i: int|
            0 <= i < hrefs.len() ==> ((#[trigger] hrefs[i]) matches Some(link)
                ==> address::url_joined("https://2ch.hk"@, link) is Ok)) <==> files_of_links(
            fresh_links(hrefs),
        ) is Ok,
{
    let links = fresh_links(hrefs);
    each_link_is_followed_once(hrefs);
    good_links_give_files(links);
    if let Ok(files) = files_of_links(links) {
        media_links_give_the_files(links);
        let followed = media_links(links);
        assert forall|k: int| 0 <= k < files.len() implies leads_to(
            #[trigger] followed[k],
            files[k],
        ) && hrefs.contains(Some(followed[k])) by {
            assert(links.contains(followed[k]));
        }
        assert forall|link: Seq<char>, file: UrlFileView|
            hrefs.contains(Some(link)) && #[trigger] leads_to(
                link,
                file,
            ) implies followed.contains(link) by {
            assert(links.contains(link));
        }
        assert(are_media_links(followed, hrefs, files));
        assert forall|i: int, link: Seq<char>, file: UrlFileView|
            0 <= i < hrefs.len() && #[trigger] hrefs[i] == Some(link) && #[trigger] leads_to(
                link,
                file,
            ) implies files.contains(file) by {
            assert(hrefs.contains(Some(link)));
            let k = choose|k: int| 0 <= k < followed.len() && followed[k] == link;
            assert(leads_to(followed[k], files[k]));
            assert(files[k] == file);
        }
        assert forall|k: int| 0 <= k < files.len() implies is_linked(
            hrefs,
            #[trigger] files[k],
        ) by {
            assert(leads_to(followed[k], files[k]));
        }
        assert(finds_all_media(hrefs, files));
    }
    assert forall|i: int| 0 <= i < hrefs.len() implies ((#[trigger] hrefs[i]) matches Some(link)
        ==> links.contains(link)) by {
        if let Some(link) = hrefs[i] {
            assert(hrefs.contains(Some(link)));
        }
    }
    if forall|i: int|
        0 <= i < hrefs.len() ==> ((#[trigger] hrefs[i]) matches Some(link) ==> address::url_joined(
            "https://2ch.hk"@,
            link,
        ) is Ok) {
        assert forall|k: int| 0 <= k < links.len() implies address::url_joined(
            "https://2ch.hk"@,
            #[trigger] links[k],
        ) is Ok by {
            assert(links.contains(links[k]));
            let i = choose|i: int| 0 <= i < hrefs.len() && hrefs[i] == Some(links[k]);
            assert(hrefs[i] == Some(links[k]));
        }
    }
    if files_of_links(links) is Ok {
        assert forall|i: int| 0 <= i < hrefs.len() implies ((#[trigger] hrefs[i]) matches Some(link)
            ==> address::url_joined("https://2ch.hk"@, link) is Ok) by {
            if let Some(link) = hrefs[i] {
                let k = choose|k: int| 0 <= k < links.len() && links[k] == link;
                assert(address::url_joined("https://2ch.hk"@, links[k]) is Ok);
            }
        }
    }
}

/// A link that is no address is what ends the search, and the first such link
/// says why.
pub proof fn good_links_give_files(links: Seq<Seq<char>>)
    ensures
        match files_of_links(links) {
            Ok(_) => forall|k: int|
                0 <= k < links.len() ==> address::url_joined(
                    "https://2ch.hk"@,
                    #[trigger] links[k],
                ) is Ok,
            Err(e) => exists|k: int|
                {
                    &&& 0 <= k < links.len()
                    &&& address::url_joined("https://2ch.hk"@, #[trigger] links[k]) == Err::<
                        address::UrlView,
                        Seq<char>,
                    >(e)
                    &&& forall|j: int|
                        0 <= j < k ==> address::url_joined(
                            "https://2ch.hk"@,
                            #[trigger] links[j],
                        ) is Ok
                },
        },
    decreases links.len(),
{
    if links.len() > 0 {
        let rest = links.drop_last();
        good_links_give_files(rest);
        match files_of_links(rest) {
            Ok(_) => {
                assert(forall|k: int| 0 <= k < rest.len() ==> #[trigger] links[k] == rest[k]);
                assert(links[links.len() - 1] == links.last());
            },
            Err(e) => {
                let k = choose|k: int|
                    {
                        &&& 0 <= k < rest.len()
                        &&& address::url_joined("https://2ch.hk"@, #[trigger] rest[k]) == Err::<
                            address::UrlView,
                            Seq<char>,
                        >(e)
                        &&& forall|j: int|
                            0 <= j < k ==> address::url_joined(
                                "https://2ch.hk"@,
                                #[trigger] rest[j],
                            ) is Ok
                    };
                assert(links[k] == rest[k]);
                assert(forall|j: int| 0 <= j < k ==> #[trigger] links[j] == rest[j]);
            },
        }
    }
}

/// What is found on a page comes in the order of the page: more links further
/// down add files behind those that are found, and change none of them.
pub proof fn files_come_in_the_order_of_the_page(
    hrefs: Seq<Option<Seq<char>>>,
    more: Seq<Option<Seq<char>>>,
)
    requires
        files_of_links(fresh_links(hrefs + more)) is Ok,
    ensures
        fresh_links(hrefs).is_prefix_of(fresh_links(hrefs + more)),
        files_of_links(fresh_links(hrefs)) is Ok,
        files_of_links(fresh_links(hrefs))->Ok_0.is_prefix_of(
            files_of_links(fresh_links(hrefs + more))->Ok_0,
        ),
{
    let all = hrefs + more;
    assert(all.take(hrefs.len() as int) =~= hrefs);
    links_grow(all, hrefs.len() as int);
    let few = fresh_links(hrefs);
    let many = fresh_links(all);
    assert(many.take(few.len() as int) =~= few);
    files_grow(many, few.len() as int);
}

proof fn files_grow(links: Seq<Seq<char>>, n: int)
    requires
        0 <= n <= links.len(),
        files_of_links(links) is Ok,
    ensures
        files_of_links(links.take(n)) is Ok,
        files_of_links(links.take(n))->Ok_0.is_prefix_of(files_of_links(links)->Ok_0),
    decreases links.len(),
{
    if n == links.len() {
        assert(links.take(n) =~= links);
    } else {
        assert(links.drop_last().take(n) =~= links.take(n));
        files_grow(links.drop_last(), n);
    }
}

/// A page is read up to 715827882 bytes, and not beyond.
pub proof fn pages_are_read_up_to_the_limit(page: Seq<char>)
    ensures
        page_fits(page) <==> vstd::utf8::encode_utf8(page).len() <= 715827882,
{
}

/// The files of a page, counted and compared link by link: where all links are
/// addresses, a file is found exactly where some link, joined to the site, leads
/// to it, and there are as many files as there are different links that lead to
/// media.
pub proof fn every_link_to_media_counts(hrefs: Seq<Option<Seq<char>>>)
    requires
        forall|i: int|
            0 <= i < hrefs.len() ==> ((#[trigger] hrefs[i]) matches Some(link)
                ==> address::url_joined("https://2ch.hk"@, link) is Ok),
    ensures
        files_of_links(fresh_links(hrefs)) is Ok,
        forall|file: UrlFileView| #[trigger]
            files_of_links(fresh_links(hrefs))->Ok_0.contains(file) <==> exists|link: Seq<char>|
                {
                    &&& #[trigger] hrefs.contains(Some(link))
                    &&& media_link::url_file(address::url_joined("https://2ch.hk"@, link)->Ok_0)
                        == Some(file)
                },
        files_of_links(fresh_links(hrefs))->Ok_0.len() == Set::new(
            |link: Seq<char>|
                hrefs.contains(Some(link)) && media_link::url_file(
                    address::url_joined("https://2ch.hk"@, link)->Ok_0,
                ) is Some,
        ).len(),
{
    all_media_of_a_page_is_found(hrefs);
    let files = files_of_links(fresh_links(hrefs))->Ok_0;
    assert forall|link: Seq<char>| #[trigger] hrefs.contains(Some(link)) implies address::url_joined(
        "https://2ch.hk"@,
        link,
    ) is Ok by {
        let i = choose|i: int| 0 <= i < hrefs.len() && hrefs[i] == Some(link);
        assert(hrefs[i] == Some(link));
    }
    assert forall|file: UrlFileView| #[trigger] files.contains(file) <==> exists|link: Seq<char>|
        {
            &&& #[trigger] hrefs.contains(Some(link))
            &&& media_link::url_file(address::url_joined("https://2ch.hk"@, link)->Ok_0) == Some(
                file,
            )
        } by {
        if files.contains(file) {
            let k = choose|k: int| 0 <= k < files.len() && files[k] == file;
            assert(is_linked(hrefs, files[k]));
            let link = choose|link: Seq<char>|
                hrefs.contains(Some(link)) && #[trigger] leads_to(link, file);
            assert(hrefs.contains(Some(link)));
        }
        if exists|link: Seq<char>|
            {
                &&& #[trigger] hrefs.contains(Some(link))
                &&& media_link::url_file(address::url_joined("https://2ch.hk"@, link)->Ok_0)
                    == Some(file)
            } {
            let link = choose|link: Seq<char>|
                {
                    &&& #[trigger] hrefs.contains(Some(link))
                    &&& media_link::url_file(address::url_joined("https://2ch.hk"@, link)->Ok_0)
                        == Some(file)
                };
            let i = choose|i: int| 0 <= i < hrefs.len() && hrefs[i] == Some(link);
            assert(hrefs[i] == Some(link));
            assert(leads_to(link, file));
        }
    }
    let followed = choose|followed: Seq<Seq<char>>| are_media_links(followed, hrefs, files);
    let counted = Set::new(
        |link: Seq<char>|
            hrefs.contains(Some(link)) && media_link::url_file(
                address::url_joined("https://2ch.hk"@, link)->Ok_0,
            ) is Some,
    );
    assert forall|link: Seq<char>| #[trigger]
        followed.to_set().contains(link) <==> counted.contains(link) by {
        if followed.contains(link) {
            let k = choose|k: int| 0 <= k < followed.len() && followed[k] == link;
            assert(leads_to(followed[k], files[k]));
        }
        if counted.contains(link) {
            let file = media_link::url_file(address::url_joined("https://2ch.hk"@, link)->Ok_0)->0;
            assert(leads_to(link, file));
        }
    }
    assert(followed.to_set() =~= counted);
    followed.unique_seq_to_set();
}

/// An attempt to find files stands for the files, one by one, or for the
/// refusal.
pub proof fn attempts_stand_for_what_they_found(r: Result<Vec<UrlFile>, String>)
    ensures
        r matches Ok(files) ==> {
            &&& files_outcome(r) matches Ok(found)
            &&& found.len() == files@.len()
            &&& forall|i: int| 0 <= i < found.len() ==> #[trigger] found[i] == files@[i]@
        },
        r matches Err(e) ==> (files_outcome(r) matches Err(told) && told == e@),
{
}

} // verus!
