use vstd::prelude::*;
use crate::foreign::{path_eq, spec_path_eq};
use crate::text::{lemma_within_within, strings_view, text_at_or_within, text_within};

verus! {

/// What a path on disk turned out to be when it was examined.
pub enum PathKind {
    /// A directory, with the paths of its entries in the order the
    /// directory listed them.
    Directory(Vec<String>),
    /// A regular file.
    File,
    /// Neither (for instance a dangling link).
    Other,
}

/// Whether `path` is one of the ignored paths (compared as paths).
pub open spec fn is_ignored_path(path: Seq<char>, ignored: Seq<Seq<char>>) -> bool {
    exists|i: int| 0 <= i < ignored.len() && spec_path_eq(ignored[i], path)
}

/// Every path of `paths` is, as text, `root` or a path inside it.
pub open spec fn all_at_or_within(paths: Seq<String>, root: Seq<char>) -> bool {
    forall|i: int| 0 <= i < paths.len() ==> text_at_or_within(#[trigger] paths[i]@, root)
}

/// Every path of `paths` lies, as text, inside the directory `dir`.
pub open spec fn all_within(paths: Seq<String>, dir: Seq<char>) -> bool {
    forall|i: int| 0 <= i < paths.len() ==> text_within(#[trigger] paths[i]@, dir)
}

/// No path of `paths` is an ignored path.
pub open spec fn none_ignored(paths: Seq<String>, ignored: Seq<String>) -> bool {
    forall|i: int| 0 <= i < paths.len() ==> !is_ignored_path(#[trigger] paths[i]@, strings_view(ignored))
}

/// The pending stack once the ignored paths on its top are dropped.
pub open spec fn drop_ignored(stack: Seq<Seq<char>>, ignored: Seq<Seq<char>>) -> Seq<Seq<char>>
    decreases stack.len(),
{
    if stack.len() == 0 {
        stack
    } else if is_ignored_path(stack.last(), ignored) {
        drop_ignored(stack.drop_last(), ignored)
    } else {
        stack
    }
}

/// A depth-first walk of a directory tree that collects the files found
/// below a root, skipping the ignored paths and everything under them.
///
/// The walk asks its driver for the kind of one path at a time: call
/// [`DirScan::next`] for the path to examine, report what it is with
/// [`DirScan::classified`], and take the files with [`DirScan::into_found`]
/// once `next` returns `None`.  Entries of a directory are visited in the
/// order the directory lists them, each subtree completely before the next.
/// The entries of a directory are paths inside it (as text), so every path
/// the walk finds is, as text, its root or a path inside the root.
pub struct DirScan {
    root: Ghost<Seq<char>>,
    ignored: Vec<String>,
    pending: Vec<String>,
    found: Vec<String>,
    /// Whether `next` handed out the top of `pending` and awaits its kind.
    asked: bool,
}

/// Starts the walk of the tree under `path`, leaving out the `ignored` paths.
pub fn scan_dir(path: String, ignored: Vec<String>) -> (s: DirScan)
    ensures
        s.wf(),
        strings_view(s.pending()) == seq![path@],
        s.found() == Seq::<String>::empty(),
        s.ignored() == ignored@,
        s.root() == path@,
        !s.asked(),
{
    let ghost root = path@;
    let mut pending: Vec<String> = Vec::new();
    pending.push(path);
    let s = DirScan { root: Ghost(root), ignored, pending, found: Vec::new(), asked: false };
    assert(strings_view(s.pending@) =~= seq![path@]);
    s
}

impl DirScan {
    /// The paths still to examine; the last one comes next.
    pub closed spec fn pending(self) -> Seq<String> {
        self.pending@
    }

    /// The files found so far, in the order they were found.
    pub closed spec fn found(self) -> Seq<String> {
        self.found@
    }

    pub closed spec fn ignored(self) -> Seq<String> {
        self.ignored@
    }

    pub closed spec fn asked(self) -> bool {
        self.asked
    }

    /// The path under which the walk looks.
    pub closed spec fn root(self) -> Seq<char> {
        self.root@
    }

    /// The path awaiting its kind is not ignored, no file found is an
    /// ignored path, and the paths pending and found are, as text, the root
    /// or paths inside it.
    pub open spec fn wf(self) -> bool {
        &&& self.asked() ==> self.pending().len() > 0 && !is_ignored_path(self.pending().last()@, strings_view(self.ignored()))
        &&& none_ignored(self.found(), self.ignored())
        &&& all_at_or_within(self.pending(), self.root())
        &&& all_at_or_within(self.found(), self.root())
    }

    fn is_ignored(&self, path: &String) -> (r: bool)
        ensures
            r == is_ignored_path(path@, strings_view(self.ignored@)),
            !r ==> forall|j: int| 0 <= j < self.ignored@.len() ==> (#[trigger] self.ignored@[j])@ != path@,
    {
        let mut i: usize = 0;
        while i < self.ignored.len()
            invariant
                i <= self.ignored@.len(),
                forall|j: int| 0 <= j < i ==> !spec_path_eq(self.ignored@[j]@, path@),
                forall|j: int| 0 <= j < i ==> (#[trigger] self.ignored@[j])@ != path@,
            decreases self.ignored@.len() - i,
        {
            if path_eq(self.ignored[i].as_str(), path.as_str()) {
                assert(strings_view(self.ignored@)[i as int] == self.ignored@[i as int]@);
                return true;
            }
            i = i + 1;
        }
        assert forall|j: int| 0 <= j < strings_view(self.ignored@).len() implies !spec_path_eq(
            strings_view(self.ignored@)[j],
            path@,
        ) by {
            assert(strings_view(self.ignored@)[j] == self.ignored@[j]@);
        }
        false
    }

    /// Drops the ignored paths on top of the pending stack and returns the
    /// next path to examine, or `None` when the walk is over.  The path
    /// handed out is, as text too, none of the ignored paths.
    pub fn next(&mut self) -> (r: Option<String>)
        requires
            old(self).wf(),
        ensures
            final(self).wf(),
            strings_view(final(self).pending()) == drop_ignored(strings_view(old(self).pending()), strings_view(old(self).ignored())),
            final(self).found() == old(self).found(),
            final(self).ignored() == old(self).ignored(),
            final(self).root() == old(self).root(),
            match r {
                Some(p) => {
                    &&& final(self).pending().len() > 0 && p@ == final(self).pending().last()@ && final(self).asked()
                    &&& forall|j: int| 0 <= j < final(self).ignored().len() ==> (#[trigger] final(self).ignored()[j])@ != p@
                },
                None => final(self).pending().len() == 0 && !final(self).asked(),
            },
    {
        let ghost ig = strings_view(self.ignored@);
        loop
            invariant
                ig == strings_view(self.ignored@),
                drop_ignored(strings_view(self.pending@), ig) == drop_ignored(strings_view(old(self).pending@), ig),
                self.found@ == old(self).found@,
                self.ignored@ == old(self).ignored@,
                self.root == old(self).root,
                none_ignored(self.found@, self.ignored@),
                all_at_or_within(self.pending@, self.root@),
                all_at_or_within(self.found@, self.root@),
            decreases self.pending@.len(),
        {
            let n = self.pending.len();
            if n == 0 {
                self.asked = false;
                return None;
            }
            let ghost before = strings_view(self.pending@);
            assert(before.last() == self.pending@[n - 1]@);
            if self.is_ignored(&self.pending[n - 1]) {
                self.pending.pop();
                assert(strings_view(self.pending@) =~= before.drop_last());
            } else {
                self.asked = true;
                return Some(self.pending[n - 1].clone());
            }
        }
    }

    /// Records what the path last handed out by `next` is: a directory's
    /// entries are examined next, first entry first; a file is added to the
    /// files found; anything else is passed over.
    pub fn classified(&mut self, kind: PathKind)
        requires
            old(self).wf(),
            old(self).asked(),
            kind matches PathKind::Directory(children) ==> all_within(children@, old(self).pending().last()@),
        ensures
            final(self).wf(),
            final(self).ignored() == old(self).ignored(),
            final(self).root() == old(self).root(),
            !final(self).asked(),
            match kind {
                PathKind::Directory(children) => {
                    &&& final(self).pending() == old(self).pending().drop_last() + children@.reverse()
                    &&& strings_view(final(self).pending()) == strings_view(old(self).pending()).drop_last() + strings_view(children@).reverse()
                    &&& final(self).found() == old(self).found()
                },
                PathKind::File => {
                    &&& final(self).pending() == old(self).pending().drop_last()
                    &&& final(self).found() == old(self).found().push(old(self).pending().last())
                },
                PathKind::Other => {
                    &&& final(self).pending() == old(self).pending().drop_last()
                    &&& final(self).found() == old(self).found()
                },
            },
    {
        self.asked = false;
        let top = self.pending.pop().unwrap();
        match kind {
            PathKind::Directory(children) => {
                let ghost base = self.pending@;
                let ghost top_view = top@;
                let mut i = children.len();
                while i > 0
                    invariant
                        i <= children@.len(),
                        self.root == old(self).root,
                        text_at_or_within(top_view, self.root@),
                        all_within(children@, top_view),
                        all_at_or_within(self.pending@, self.root@),
                        all_at_or_within(self.found@, self.root@),
                        self.ignored@ == old(self).ignored@,
                        !self.asked,
                        self.found@ == old(self).found@,
                        none_ignored(self.found@, self.ignored@),
                        self.pending@ == base + children@.subrange(i as int, children@.len() as int).reverse(),
                    decreases i,
                {
                    i = i - 1;
                    proof { lemma_within_within(children@[i as int]@, top_view, self.root@); }
                    self.pending.push(children[i].clone());
                    assert(children@.subrange(i as int, children@.len() as int).reverse() =~=
                        children@.subrange(i + 1, children@.len() as int).reverse().push(children@[i as int]));
                }
                assert(children@.subrange(0, children@.len() as int) =~= children@);
                assert(strings_view(self.pending@) =~= strings_view(old(self).pending@).drop_last() + strings_view(children@).reverse());
                assert(self.found() == old(self).found());
                assert(self.ignored() == old(self).ignored());
            },
            PathKind::File => {
                let ghost before = self.found@;
                self.found.push(top);
                proof {
                    assert forall|i: int| 0 <= i < self.found@.len() implies !is_ignored_path(
                        #[trigger] self.found@[i]@,
                        strings_view(self.ignored@),
                    ) by {
                        if i < before.len() {
                            assert(self.found@[i] == before[i]);
                        }
                    }
                }
            },
            PathKind::Other => {},
        }
    }

    /// The files found by the walk: each is, as text, the root or a path
    /// inside it.
    pub fn into_found(self) -> (r: Vec<String>)
        requires
            self.wf(),
        ensures
            r@ == self.found(),
            all_at_or_within(r@, self.root()),
    {
        self.found
    }
}

} // verus!

verus! {

// ------------------------------------------------------------------ what the walk finds

/// What a path is on a model of the disk.
pub enum EntryModel {
    Directory(Seq<Seq<char>>),
    File,
    Other,
}

/// A model of the disk: what each path is, and a rank that decreases from
/// a directory to each of its entries (so that the tree is finite).
pub struct DiskModel {
    pub entries: Map<Seq<char>, EntryModel>,
    pub rank: Map<Seq<char>, nat>,
}

/// What a path is on the model (a path that is not there is neither a
/// directory nor a file).
pub open spec fn model_kind(d: DiskModel, p: Seq<char>) -> EntryModel {
    if d.entries.contains_key(p) {
        d.entries[p]
    } else {
        EntryModel::Other
    }
}

/// Every path of the model has a rank above those of its entries.
pub open spec fn disk_ok(d: DiskModel) -> bool {
    forall|p: Seq<char>| #[trigger] d.entries.contains_key(p) ==> {
        &&& d.rank.contains_key(p)
        &&& (d.entries[p] matches EntryModel::Directory(ch) ==> forall|i: int| 0 <= i < ch.len() ==> {
            &&& d.rank.contains_key(#[trigger] ch[i])
            &&& d.rank[ch[i]] < d.rank[p]
        })
    }
}

/// The view of what the walk is told of a path.
pub open spec fn kind_view(k: PathKind) -> EntryModel {
    match k {
        PathKind::Directory(ch) => EntryModel::Directory(strings_view(ch@)),
        PathKind::File => EntryModel::File,
        PathKind::Other => EntryModel::Other,
    }
}

/// The rank of a path (0 where the model gives none).
pub open spec fn rank_of(d: DiskModel, p: Seq<char>) -> nat {
    if d.rank.contains_key(p) {
        d.rank[p]
    } else {
        0
    }
}

/// The files under `p` on the model, depth first, each directory's entries
/// in their order, leaving out the ignored paths and what lies under them.
pub open spec fn files_under(d: DiskModel, ignored: Seq<Seq<char>>, p: Seq<char>) -> Seq<Seq<char>>
    decreases rank_of(d, p) + 1, 0nat,
{
    if is_ignored_path(p, ignored) {
        Seq::empty()
    } else {
        match model_kind(d, p) {
            EntryModel::Directory(ch) => files_under_all(d, ignored, ch, rank_of(d, p)),
            EntryModel::File => seq![p],
            EntryModel::Other => Seq::empty(),
        }
    }
}

/// The files under each of `ps` in turn (those of rank below `bound`).
pub open spec fn files_under_all(d: DiskModel, ignored: Seq<Seq<char>>, ps: Seq<Seq<char>>, bound: nat) -> Seq<Seq<char>>
    decreases bound, ps.len(),
{
    if ps.len() == 0 {
        Seq::empty()
    } else if rank_of(d, ps.last()) < bound {
        files_under_all(d, ignored, ps.drop_last(), bound) + files_under(d, ignored, ps.last())
    } else {
        files_under_all(d, ignored, ps.drop_last(), bound)
    }
}

/// The files still to be found under the pending paths, the top of the
/// stack (its last path) first.
pub open spec fn pending_files(d: DiskModel, ignored: Seq<Seq<char>>, stack: Seq<Seq<char>>) -> Seq<Seq<char>>
    decreases stack.len(),
{
    if stack.len() == 0 {
        Seq::empty()
    } else {
        files_under(d, ignored, stack.last()) + pending_files(d, ignored, stack.drop_last())
    }
}

/// The files found so far followed by those still to find under the pending
/// paths are the files under the root.
pub open spec fn walk_on_track(
    d: DiskModel,
    ignored: Seq<Seq<char>>,
    root: Seq<char>,
    pending: Seq<Seq<char>>,
    found: Seq<Seq<char>>,
) -> bool {
    found + pending_files(d, ignored, pending) == files_under(d, ignored, root)
}

proof fn lemma_pending_files_single(d: DiskModel, ignored: Seq<Seq<char>>, p: Seq<char>)
    ensures
        pending_files(d, ignored, seq![p]) == files_under(d, ignored, p),
{
    let s = seq![p];
    assert(s.drop_last() =~= Seq::<Seq<char>>::empty());
    assert(s.last() == p);
    assert(pending_files(d, ignored, s.drop_last()) == Seq::<Seq<char>>::empty());
    assert(files_under(d, ignored, p) + Seq::<Seq<char>>::empty() =~= files_under(d, ignored, p));
}

proof fn lemma_pending_files_append(d: DiskModel, ignored: Seq<Seq<char>>, a: Seq<Seq<char>>, b: Seq<Seq<char>>)
    ensures
        pending_files(d, ignored, a + b) == pending_files(d, ignored, b) + pending_files(d, ignored, a),
    decreases b.len(),
{
    if b.len() == 0 {
        assert(a + b =~= a);
        assert(pending_files(d, ignored, b) =~= Seq::<Seq<char>>::empty());
        assert(Seq::<Seq<char>>::empty() + pending_files(d, ignored, a) =~= pending_files(d, ignored, a));
    } else {
        lemma_pending_files_append(d, ignored, a, b.drop_last());
        assert((a + b).drop_last() =~= a + b.drop_last());
        assert((a + b).last() == b.last());
        assert(pending_files(d, ignored, a + b) =~= files_under(d, ignored, b.last()) + (pending_files(d, ignored, b.drop_last()) + pending_files(d, ignored, a)));
        assert(pending_files(d, ignored, b) =~= files_under(d, ignored, b.last()) + pending_files(d, ignored, b.drop_last()));
    }
}

proof fn lemma_children_files(d: DiskModel, ignored: Seq<Seq<char>>, ch: Seq<Seq<char>>, bound: nat)
    requires
        forall|i: int| 0 <= i < ch.len() ==> rank_of(d, #[trigger] ch[i]) < bound,
    ensures
        files_under_all(d, ignored, ch, bound) == pending_files(d, ignored, ch.reverse()),
    decreases ch.len(),
{
    if ch.len() == 0 {
        assert(ch.reverse() =~= Seq::<Seq<char>>::empty());
    } else {
        let last = ch.last();
        assert(rank_of(d, ch[ch.len() - 1]) < bound);
        lemma_children_files(d, ignored, ch.drop_last(), bound);
        assert(ch.reverse() =~= seq![last] + ch.drop_last().reverse());
        lemma_pending_files_append(d, ignored, seq![last], ch.drop_last().reverse());
        lemma_pending_files_single(d, ignored, last);
    }
}

/// A walk starts on track: nothing found, the root pending.
pub proof fn lemma_walk_starts_on_track(d: DiskModel, ignored: Seq<Seq<char>>, root: Seq<char>)
    ensures
        walk_on_track(d, ignored, root, seq![root], Seq::empty()),
{
    lemma_pending_files_single(d, ignored, root);
    assert(Seq::<Seq<char>>::empty() + pending_files(d, ignored, seq![root]) =~= files_under(d, ignored, root));
}

/// Dropping the ignored paths on top of the stack keeps the walk on track.
pub proof fn lemma_dropping_ignored_keeps_track(
    d: DiskModel,
    ignored: Seq<Seq<char>>,
    root: Seq<char>,
    pending: Seq<Seq<char>>,
    found: Seq<Seq<char>>,
)
    requires
        walk_on_track(d, ignored, root, pending, found),
    ensures
        walk_on_track(d, ignored, root, drop_ignored(pending, ignored), found),
    decreases pending.len(),
{
    if pending.len() > 0 && is_ignored_path(pending.last(), ignored) {
        assert(files_under(d, ignored, pending.last()) =~= Seq::<Seq<char>>::empty());
        assert(pending_files(d, ignored, pending) =~= pending_files(d, ignored, pending.drop_last()));
        lemma_dropping_ignored_keeps_track(d, ignored, root, pending.drop_last(), found);
    }
}

/// Telling the walk what the path on top of its stack is, as the disk
/// shows it, keeps the walk on track.
pub proof fn lemma_classifying_keeps_track(
    d: DiskModel,
    ignored: Seq<Seq<char>>,
    root: Seq<char>,
    pending: Seq<Seq<char>>,
    found: Seq<Seq<char>>,
    kind: EntryModel,
)
    requires
        disk_ok(d),
        walk_on_track(d, ignored, root, pending, found),
        pending.len() > 0,
        !is_ignored_path(pending.last(), ignored),
        kind == model_kind(d, pending.last()),
    ensures
        match kind {
            EntryModel::Directory(ch) => walk_on_track(d, ignored, root, pending.drop_last() + ch.reverse(), found),
            EntryModel::File => walk_on_track(d, ignored, root, pending.drop_last(), found.push(pending.last())),
            EntryModel::Other => walk_on_track(d, ignored, root, pending.drop_last(), found),
        },
{
    let top = pending.last();
    let rest = pending.drop_last();
    assert(pending_files(d, ignored, pending) == files_under(d, ignored, top) + pending_files(d, ignored, rest));
    match kind {
        EntryModel::Directory(ch) => {
            assert(d.entries.contains_key(top));
            assert forall|i: int| 0 <= i < ch.len() implies rank_of(d, #[trigger] ch[i]) < rank_of(d, top) by {
                assert(d.rank.contains_key(ch[i]));
            }
            lemma_children_files(d, ignored, ch, rank_of(d, top));
            lemma_pending_files_append(d, ignored, rest, ch.reverse());
            assert(found + pending_files(d, ignored, rest + ch.reverse()) =~= found + (files_under(d, ignored, top)
                + pending_files(d, ignored, rest)));
        },
        EntryModel::File => {
            assert(files_under(d, ignored, top) == seq![top]);
            assert(found.push(top) + pending_files(d, ignored, rest) =~= found + (seq![top] + pending_files(d, ignored, rest)));
        },
        EntryModel::Other => {
            assert(files_under(d, ignored, top) =~= Seq::<Seq<char>>::empty());
            assert(found + pending_files(d, ignored, rest) =~= found + (Seq::<Seq<char>>::empty() + pending_files(d, ignored, rest)));
        },
    }
}

/// A walk that stays on track and has nothing left pending has found
/// exactly the files under its root, in depth-first order.
pub proof fn lemma_finished_walk_found_all(
    d: DiskModel,
    ignored: Seq<Seq<char>>,
    root: Seq<char>,
    found: Seq<Seq<char>>,
)
    requires
        walk_on_track(d, ignored, root, Seq::empty(), found),
    ensures
        found == files_under(d, ignored, root),
{
    assert(found + Seq::<Seq<char>>::empty() =~= found);
}

// ------------------------------------------------------------------ why the walk ends

/// The number of paths that the walk examines at and under `p` on the
/// model when nothing is ignored: `p` itself, and for a directory all that
/// its entries hold.
pub open spec fn subtree_size(d: DiskModel, p: Seq<char>) -> nat
    decreases rank_of(d, p) + 1, 0nat,
{
    match model_kind(d, p) {
        EntryModel::Directory(ch) => 1 + subtree_sizes(d, ch, rank_of(d, p)),
        _ => 1,
    }
}

/// The sizes of the subtrees under each of `ps` (those of rank below
/// `bound`), added up.
pub open spec fn subtree_sizes(d: DiskModel, ps: Seq<Seq<char>>, bound: nat) -> nat
    decreases bound, ps.len(),
{
    if ps.len() == 0 {
        0
    } else if rank_of(d, ps.last()) < bound {
        subtree_sizes(d, ps.drop_last(), bound) + subtree_size(d, ps.last())
    } else {
        subtree_sizes(d, ps.drop_last(), bound)
    }
}

/// The work left to a walk whose stack is `stack`: the sizes of the
/// subtrees under the pending paths, added up.
pub open spec fn walk_measure(d: DiskModel, stack: Seq<Seq<char>>) -> nat
    decreases stack.len(),
{
    if stack.len() == 0 {
        0
    } else {
        subtree_size(d, stack.last()) + walk_measure(d, stack.drop_last())
    }
}

proof fn lemma_walk_measure_append(d: DiskModel, a: Seq<Seq<char>>, b: Seq<Seq<char>>)
    ensures
        walk_measure(d, a + b) == walk_measure(d, a) + walk_measure(d, b),
    decreases b.len(),
{
    if b.len() == 0 {
        assert(a + b =~= a);
    } else {
        lemma_walk_measure_append(d, a, b.drop_last());
        assert((a + b).drop_last() =~= a + b.drop_last());
        assert((a + b).last() == b.last());
    }
}

proof fn lemma_children_sizes(d: DiskModel, ch: Seq<Seq<char>>, bound: nat)
    requires
        forall|i: int| 0 <= i < ch.len() ==> rank_of(d, #[trigger] ch[i]) < bound,
    ensures
        subtree_sizes(d, ch, bound) == walk_measure(d, ch.reverse()),
    decreases ch.len(),
{
    if ch.len() == 0 {
        assert(ch.reverse() =~= Seq::<Seq<char>>::empty());
    } else {
        let last = ch.last();
        assert(rank_of(d, ch[ch.len() - 1]) < bound);
        lemma_children_sizes(d, ch.drop_last(), bound);
        assert(ch.reverse() =~= seq![last] + ch.drop_last().reverse());
        lemma_walk_measure_append(d, seq![last], ch.drop_last().reverse());
        assert(seq![last].drop_last() =~= Seq::<Seq<char>>::empty());
        assert(walk_measure(d, Seq::<Seq<char>>::empty()) == 0);
        assert(walk_measure(d, seq![last]) == subtree_size(d, last));
        assert(subtree_sizes(d, ch, bound) == subtree_sizes(d, ch.drop_last(), bound) + subtree_size(d, last));
    }
}

proof fn lemma_dropping_ignored_measure(d: DiskModel, ignored: Seq<Seq<char>>, stack: Seq<Seq<char>>)
    ensures
        walk_measure(d, drop_ignored(stack, ignored)) <= walk_measure(d, stack),
    decreases stack.len(),
{
    if stack.len() > 0 && is_ignored_path(stack.last(), ignored) {
        lemma_dropping_ignored_measure(d, ignored, stack.drop_last());
    }
}

/// Each round of a walk whose driver reports what the disk holds leaves it
/// less work: `next` drops the ignored paths on top of the stack and hands
/// out the path then on top, and `classified` replaces that path by its
/// entries (or by nothing); the subtree sizes of the pending paths, added
/// up, shrink.  That sum is a natural number, so the walk ends, after at
/// most as many rounds as the tree under the root has paths.
pub proof fn lemma_round_shrinks_walk(
    d: DiskModel,
    ignored: Seq<Seq<char>>,
    pending: Seq<Seq<char>>,
    kind: EntryModel,
)
    requires
        disk_ok(d),
        drop_ignored(pending, ignored).len() > 0,
        kind == model_kind(d, drop_ignored(pending, ignored).last()),
    ensures
        match kind {
            EntryModel::Directory(ch) => walk_measure(d, drop_ignored(pending, ignored).drop_last() + ch.reverse())
                < walk_measure(d, pending),
            _ => walk_measure(d, drop_ignored(pending, ignored).drop_last()) < walk_measure(d, pending),
        },
{
    let stack = drop_ignored(pending, ignored);
    let top = stack.last();
    let rest = stack.drop_last();
    lemma_dropping_ignored_measure(d, ignored, pending);
    assert(walk_measure(d, stack) == subtree_size(d, top) + walk_measure(d, rest));
    match kind {
        EntryModel::Directory(ch) => {
            assert(d.entries.contains_key(top));
            assert forall|i: int| 0 <= i < ch.len() implies rank_of(d, #[trigger] ch[i]) < rank_of(d, top) by {
                assert(d.rank.contains_key(ch[i]));
            }
            lemma_children_sizes(d, ch, rank_of(d, top));
            lemma_walk_measure_append(d, rest, ch.reverse());
        },
        _ => {},
    }
}

} // verus!
