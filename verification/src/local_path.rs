//! Places in the file system, as a root and the names joined to it.

use vstd::prelude::*;

verus! {

/// A path: a root as the user wrote it, and the parts joined to it in turn.
#[derive(Debug)]
pub struct LocalPath {
    pub root: String,
    pub parts: Vec<String>,
}

/// What a `LocalPath` stands for.
pub struct LocalPathView {
    pub root: Seq<char>,
    pub parts: Seq<Seq<char>>,
}

impl LocalPathView {
    /// The path with one more part.
    pub open spec fn join(self, part: Seq<char>) -> LocalPathView {
        LocalPathView { root: self.root, parts: self.parts.push(part) }
    }

    /// Whether the path is a plain name directly inside `folder`: one part more,
    /// without a separator in it.
    pub open spec fn directly_in(self, folder: LocalPathView) -> bool {
        &&& self.parts.len() == folder.parts.len() + 1
        &&& self == folder.join(self.parts.last())
        &&& !self.parts.last().contains('/')
    }
}

impl View for LocalPath {
    type V = LocalPathView;

    open spec fn view(&self) -> LocalPathView {
        LocalPathView { root: self.root@, parts: self.parts.deep_view() }
    }
}

impl Clone for LocalPath {
    fn clone(&self) -> (r: Self)
        ensures
            r@ == self@,
    {
        let parts = self.parts.clone();
        assert(parts.deep_view() =~= self.parts.deep_view());
        LocalPath { root: self.root.clone(), parts }
    }
}

impl LocalPath {
    /// A path without parts.
    pub fn from_root(root: String) -> (r: LocalPath)
        ensures
            r@.root == root@,
            r@.parts == Seq::<Seq<char>>::empty(),
    {
        let r = LocalPath { root, parts: Vec::new() };
        assert(r@.parts =~= Seq::<Seq<char>>::empty());
        r
    }

    /// The path with one more part.
    pub fn join(&self, part: &str) -> (r: LocalPath)
        ensures
            r@ == self@.join(part@),
            r.root@ == self.root@,
            r.parts@.len() == self.parts@.len() + 1,
            r.parts@.last()@ == part@,
            forall|i: int| 0 <= i < self.parts@.len() ==> (#[trigger] r.parts@[i])@ == self.parts@[i]@,
    {
        let mut r = self.clone();
        r.parts.push(part.to_owned());
        assert(r@.parts =~= self@.parts.push(part@));
        assert forall|i: int| 0 <= i < self.parts@.len() implies (#[trigger] r.parts@[i])@
            == self.parts@[i]@ by {
            assert(r@.parts[i] == self@.parts[i]);
        }
        r
    }
}

/// Joining a part keeps the root and the parts that are there, and puts the new
/// one behind them. Two joined paths are the same only where both the path and
/// the part are.
pub proof fn joining_adds_one_part(
    path: LocalPathView,
    part: Seq<char>,
    other: LocalPathView,
    other_part: Seq<char>,
)
    ensures
        path.join(part).root == path.root,
        path.join(part).parts == path.parts + seq![part],
        path.join(part) == other.join(other_part) ==> path == other && part == other_part,
{
    let joined = path.join(part);
    assert(joined.parts =~= path.parts + seq![part]);
    if joined == other.join(other_part) {
        assert(joined.parts.drop_last() =~= path.parts);
        assert(other.join(other_part).parts.drop_last() =~= other.parts);
        assert(joined.parts.last() == part);
        assert(other.join(other_part).parts.last() == other_part);
    }
}

/// A path lies directly in a folder exactly where it is the folder and one part
/// more, in which no separator occurs.
pub proof fn plain_parts_stay_in_the_folder(folder: LocalPathView, part: Seq<char>)
    ensures
        folder.join(part).directly_in(folder) <==> !part.contains('/'),
{
}

/// A path stands for its root and its parts, one by one.
pub proof fn paths_stand_for_root_and_parts(path: LocalPath)
    ensures
        path@.root == path.root@,
        path@.parts.len() == path.parts@.len(),
        forall|i: int| 0 <= i < path.parts@.len() ==> (#[trigger] path@.parts[i]) == path.parts@[i]@,
{
}

} // verus!
