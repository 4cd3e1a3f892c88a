//! Web addresses, taken apart into the pieces that the rest of the library reads.

use vstd::prelude::*;

use crate::text;

verus! {

/// The site whose threads are kept.
pub const SITE: &'static str = "https://2ch.hk";

/// A web address: its full text, and the pieces of it that decisions rest on.
#[derive(Debug)]
pub struct Url {
    /// The whole address as text.
    pub href: String,
    /// The scheme, in lower case and without the colon.
    pub scheme: String,
    /// The host, where the address has one.
    pub host: Option<String>,
    /// The path cut at its slashes, where the address has a path of that shape.
    pub segments: Option<Vec<String>>,
}

/// What a `Url` stands for.
pub struct UrlView {
    pub href: Seq<char>,
    pub scheme: Seq<char>,
    pub host: Option<Seq<char>>,
    pub segments: Option<Seq<Seq<char>>>,
}

impl UrlView {
    /// A path that is cut at its slashes has at least one segment, and none of
    /// them holds a slash.
    pub open spec fn wf(self) -> bool {
        self.segments matches Some(s) ==> s.len() >= 1 && forall|i: int|
            0 <= i < s.len() ==> !(#[trigger] s[i]).contains('/')
    }
}

impl View for Url {
    type V = UrlView;

    open spec fn view(&self) -> UrlView {
        UrlView {
            href: self.href@,
            scheme: self.scheme@,
            host: self.host.deep_view(),
            segments: self.segments.deep_view(),
        }
    }
}

impl Clone for Url {
    fn clone(&self) -> (r: Self)
        ensures
            r@ == self@,
    {
        let segments = match &self.segments {
            Some(s) => {
                let copy = s.clone();
                assert(copy.deep_view() =~= s.deep_view());
                Some(copy)
            },
            None => None,
        };
        let host = match &self.host {
            Some(h) => Some(h.clone()),
            None => None,
        };
        Url { href: self.href.clone(), scheme: self.scheme.clone(), host, segments }
    }
}

/// The view of an attempt to read an address: the address, or the message of
/// the refusal.
pub open spec fn outcome(r: Result<Url, String>) -> Result<UrlView, Seq<char>> {
    match r {
        Ok(u) => Ok(u@),
        Err(message) => Err(message@),
    }
}

/// Whether an attempt to read an address gave `u`.
pub open spec fn reads_as(r: Result<Url, String>, u: UrlView) -> bool {
    r matches Ok(read) && read@ == u
}

/// A text without the spaces at its end.
pub open spec fn without_end_spaces(s: Seq<char>) -> Seq<char>
    decreases s.len(),
{
    if s.len() > 0 && s.last() == ' ' {
        without_end_spaces(s.drop_last())
    } else {
        s
    }
}

/// Whether what follows the scheme and its colon is not a path of slashes but a
/// text with a meaning of its own, as in `mailto:x`.
pub open spec fn is_opaque(u: UrlView) -> bool {
    let start = u.scheme.len() + 1;
    u.segments is None && !(start < u.href.len() && u.href[start as int] == '/')
}

/// An address without its fragment, which starts at the first `#`. An opaque
/// address that has no query either does not end in spaces.
pub open spec fn without_fragment(u: UrlView) -> UrlView {
    let href = text::before_first(u.href, '#');
    UrlView {
        href: if is_opaque(u) && !href.contains('?') {
            without_end_spaces(href)
        } else {
            href
        },
        ..u
    }
}

/// An attempt to read an address, with the fragment dropped of what was read.
pub open spec fn fragment_dropped(read: Result<UrlView, Seq<char>>) -> Result<UrlView, Seq<char>> {
    match read {
        Ok(u) => Ok(without_fragment(u)),
        Err(message) => Err(message),
    }
}

/// Letters, digits, hyphen and underscore: characters that mean themselves
/// everywhere in a path.
pub open spec fn plain_char(c: char) -> bool {
    ||| 'a' <= c <= 'z'
    ||| 'A' <= c <= 'Z'
    ||| '0' <= c <= '9'
    ||| c == '-'
    ||| c == '_'
}

/// A path segment of plain characters and dots that does not start with a dot.
pub open spec fn plain_segment(s: Seq<char>) -> bool {
    &&& s.len() >= 1
    &&& plain_char(s[0])
    &&& forall|i: int| 0 <= i < s.len() ==> plain_char(#[trigger] s[i]) || s[i] == '.'
}

/// A path of one or more plain segments.
pub open spec fn plain_path(segments: Seq<Seq<char>>) -> bool {
    &&& segments.len() >= 1
    &&& forall|i: int| 0 <= i < segments.len() ==> plain_segment(#[trigger] segments[i])
}

/// The text of a path: each segment with a slash before it.
pub open spec fn path_text(segments: Seq<Seq<char>>) -> Seq<char>
    decreases segments.len(),
{
    if segments.len() == 0 {
        seq![]
    } else {
        path_text(segments.drop_last()) + seq!['/'] + segments.last()
    }
}

/// The address of a path on the site.
pub open spec fn site_url(segments: Seq<Seq<char>>) -> UrlView {
    UrlView {
        href: SITE@ + path_text(segments),
        scheme: "https"@,
        host: Some("2ch.hk"@),
        segments: Some(segments),
    }
}

/// What reading a text gives where the text is `start` and a plain path: the
/// address of that path on the site. A refusal is possible only where the
/// address is longer than four gigabytes.
pub open spec fn reads_plainly(start: Seq<char>, input: Seq<char>, r: Result<Url, String>) -> bool {
    forall|segments: Seq<Seq<char>>| #[trigger]
        plain_path(segments) && input == start + path_text(segments) ==> {
            &&& r is Ok ==> reads_as(r, site_url(segments))
            &&& site_url(segments).href.len() <= u32::MAX ==> r is Ok
        }
}

/// What `url::Url::parse` makes of a text.
pub uninterp spec fn url_parsed(input: Seq<char>) -> Result<UrlView, Seq<char>>;

/// What `url::Url::join` makes of a text, read relative to the address `base`.
pub uninterp spec fn url_joined(base: Seq<char>, input: Seq<char>) -> Result<UrlView, Seq<char>>;

/// `url::Url::parse`, with the address handed over in pieces and the error as
/// the message that it displays.
///
/// Taken on trust: the result depends on the text alone. The segments are the
/// path cut at its slashes. The address of a plain path on the site is read as
/// it stands, unless it is longer than the four gigabytes that the parser
/// supports and is refused for that.
#[verifier::external_body]
fn outside_parse(input: &str) -> (r: Result<Url, String>)
    ensures
        outcome(r) == url_parsed(input@),
        r matches Ok(u) ==> u@.wf(),
        reads_plainly(SITE@, input@, r),
{
    match url::Url::parse(input) {
        Ok(u) => Ok(Url {
            href: u.as_str().to_owned(),
            scheme: u.scheme().to_owned(),
            host: u.host_str().map(str::to_owned),
            segments: u.path_segments().map(|s| s.map(str::to_owned).collect()),
        }),
        Err(e) => Err(e.to_string()),
    }
}

/// `url::Url::join` on the address that `base` holds, with the result handed
/// over as in `outside_parse`.
///
/// Taken on trust: the result depends on the two texts alone. Where `base` is
/// no address, its own refusal comes back. The segments are the path cut at
/// its slashes. With the site as the base, a plain path that starts at the root
/// is read as the address of that path, unless the address is longer than the
/// four gigabytes that the parser supports and is refused for that.
#[verifier::external_body]
fn outside_join(base: &str, input: &str) -> (r: Result<Url, String>)
    ensures
        outcome(r) == url_joined(base@, input@),
        r matches Ok(u) ==> u@.wf(),
        url_parsed(base@) is Err ==> outcome(r) == url_parsed(base@),
        base@ == SITE@ ==> reads_plainly(seq![], input@, r),
{
    match url::Url::parse(base).and_then(|b| b.join(input)) {
        Ok(u) => Ok(Url {
            href: u.as_str().to_owned(),
            scheme: u.scheme().to_owned(),
            host: u.host_str().map(str::to_owned),
            segments: u.path_segments().map(|s| s.map(str::to_owned).collect()),
        }),
        Err(e) => Err(e.to_string()),
    }
}

/// `url::Url::set_fragment(None)` on the address that `input` holds, with the
/// result handed over as in `outside_parse`.
///
/// Taken on trust: it is a refusal exactly where reading the text is, with the
/// same message. Otherwise scheme, host and segments are those of the address
/// as read, and the text is cut where the fragment starts, at its first `#`. An
/// opaque address without a query loses the spaces at its end as well; the query
/// of one starts at its first `?`.
#[verifier::external_body]
fn outside_without_fragment(input: &str) -> (r: Result<Url, String>)
    ensures
        outcome(r) == fragment_dropped(url_parsed(input@)),
        r matches Ok(u) ==> u@.wf(),
{
    match url::Url::parse(input) {
        Ok(mut u) => {
            u.set_fragment(None);
            Ok(Url {
                href: u.as_str().to_owned(),
                scheme: u.scheme().to_owned(),
                host: u.host_str().map(str::to_owned),
                segments: u.path_segments().map(|s| s.map(str::to_owned).collect()),
            })
        },
        Err(e) => Err(e.to_string()),
    }
}

/// Whether `r` is what reading the text `input` as an absolute address gives.
pub open spec fn is_reading(input: Seq<char>, r: Result<Url, String>) -> bool {
    &&& outcome(r) == url_parsed(input)
    &&& r matches Ok(u) ==> u@.wf()
    &&& reads_plainly(SITE@, input, r)
}

impl Url {
    /// Reads an absolute address.
    pub fn parse(input: &str) -> (r: Result<Url, String>)
        ensures
            is_reading(input@, r),
    {
        outside_parse(input)
    }

    /// Reads a link of the site: an absolute address, or one relative to the
    /// site's root.
    pub fn from_site_link(link: &str) -> (r: Result<Url, String>)
        ensures
            outcome(r) == url_joined(SITE@, link@),
            r matches Ok(u) ==> u@.wf(),
            reads_plainly(seq![], link@, r),
    {
        outside_join(SITE, link)
    }

    /// Reads an absolute address and drops its fragment.
    pub fn parse_without_fragment(input: &str) -> (r: Result<Url, String>)
        ensures
            outcome(r) == fragment_dropped(url_parsed(input@)),
            r matches Ok(u) ==> u@.wf(),
    {
        outside_without_fragment(input)
    }
}

/// Dropping spaces at the end of a text drops nothing else, and leaves none.
pub proof fn only_end_spaces_are_dropped(s: Seq<char>)
    ensures
        without_end_spaces(s).is_prefix_of(s),
        forall|i: int| without_end_spaces(s).len() <= i < s.len() ==> #[trigger] s[i] == ' ',
        without_end_spaces(s).len() > 0 ==> without_end_spaces(s).last() != ' ',
    decreases s.len(),
{
    if s.len() > 0 && s.last() == ' ' {
        let rest = s.drop_last();
        only_end_spaces_are_dropped(rest);
        assert forall|i: int| without_end_spaces(s).len() <= i < s.len() implies #[trigger] s[i]
            == ' ' by {
            if i < rest.len() {
                assert(rest[i] == ' ');
            }
        }
        assert(without_end_spaces(s) =~= s.subrange(0, without_end_spaces(s).len() as int)) by {
            assert(without_end_spaces(s) =~= rest.subrange(
                0,
                without_end_spaces(s).len() as int,
            ));
        }
    }
}

/// An address without its fragment is the same address up to its first `#`:
/// scheme, host and path stay, and no `#` is left. Where the address has a path
/// of slashes or a host, nothing but the fragment goes; where it has neither,
/// spaces before the fragment may go with it, and all do where there is no query.
pub proof fn only_the_fragment_is_dropped(u: UrlView)
    ensures
        without_fragment(u).scheme == u.scheme,
        without_fragment(u).host == u.host,
        without_fragment(u).segments == u.segments,
        without_fragment(u).href.is_prefix_of(u.href),
        !without_fragment(u).href.contains('#'),
        u.segments is Some || (u.scheme.len() + 1 < u.href.len() && u.href[(u.scheme.len() + 1) as int]
            == '/') ==> without_fragment(u).href.len() == u.href.len() || u.href[without_fragment(
            u,
        ).href.len() as int] == '#',
        u.segments is None && !(u.scheme.len() + 1 < u.href.len() && u.href[(u.scheme.len() + 1) as int]
            == '/') && !u.href.contains('?') ==> without_fragment(u).href.len() == 0
            || without_fragment(u).href.last() != ' ',
        forall|i: int|
            without_fragment(u).href.len() <= i < u.href.len() && !u.href.take(i + 1).contains('#')
                ==> #[trigger] u.href[i] == ' ',
{
    let cut = text::before_first(u.href, '#');
    let href = without_fragment(u).href;
    text::cut_ends_at_the_first(u.href, '#');
    only_end_spaces_are_dropped(cut);
    assert(href.is_prefix_of(cut));
    assert(href =~= u.href.subrange(0, href.len() as int));
    if href.contains('#') {
        let i = choose|i: int| 0 <= i < href.len() && href[i] == '#';
        assert(cut[i] == '#');
    }
    if cut.contains('?') {
        let i = choose|i: int| 0 <= i < cut.len() && cut[i] == '?';
        assert(u.href[i] == '?');
    }
    assert forall|i: int|
        href.len() <= i < u.href.len() && !u.href.take(i + 1).contains(
            '#',
        ) implies #[trigger] u.href[i] == ' ' by {
        if i >= cut.len() {
            assert(u.href.take(i + 1)[cut.len() as int] == '#');
        } else {
            assert(cut[i] == ' ');
        }
    }
}

/// The address of a path on the site: the site, and each segment of the path
/// with a slash before it.
pub proof fn site_addresses_are_built_of_segments(segments: Seq<Seq<char>>, segment: Seq<char>)
    ensures
        site_url(Seq::<Seq<char>>::empty()).href == "https://2ch.hk"@,
        site_url(segments.push(segment)).href == site_url(segments).href + "/"@ + segment,
        site_url(segments).scheme == "https"@,
        site_url(segments).host == Some("2ch.hk"@),
        site_url(segments).segments == Some(segments),
{
    reveal_strlit("/");
    let more = segments.push(segment);
    assert(more.drop_last() =~= segments);
    assert(site_url(Seq::<Seq<char>>::empty()).href =~= "https://2ch.hk"@);
    assert(site_url(more).href =~= site_url(segments).href + "/"@ + segment);
}

/// An address stands for its pieces, each as it is, and is well formed where its
/// path, if it has one, is cut at every slash.
pub proof fn addresses_stand_for_their_pieces(u: Url, r: Result<Url, String>)
    ensures
        u@.href == u.href@,
        u@.scheme == u.scheme@,
        u@.host == (match u.host {
            Some(host) => Some(host@),
            None => None,
        }),
        u@.segments is Some <==> u.segments is Some,
        u.segments matches Some(s) ==> {
            &&& u@.segments->0.len() == s@.len()
            &&& forall|i: int| 0 <= i < s@.len() ==> (#[trigger] u@.segments->0[i]) == s@[i]@
        },
        u@.wf() <==> (u@.segments matches Some(s) ==> s.len() >= 1 && !exists|i: int|
            0 <= i < s.len() && (#[trigger] s[i]).contains('/')),
        r matches Ok(read) ==> outcome(r) == Ok::<UrlView, Seq<char>>(read@),
        r matches Err(message) ==> outcome(r) == Err::<UrlView, Seq<char>>(message@),
{
}

/// Letters, digits, the hyphen and the underscore are plain, and no other
/// character is.
pub proof fn plain_characters_are_letters_and_digits(c: char)
    ensures
        plain_char(c) <==> 'a' <= c <= 'z' || 'A' <= c <= 'Z' || '0' <= c <= '9' || c == '-' || c
            == '_',
{
}

} // verus!
