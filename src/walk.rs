//! Depth-first, preorder traversal driven by an explicit work stack.
//!
//! The walker decides which node comes next and where each enumerated entry
//! sits in the tree; the caller does the filesystem work. It takes the next
//! visit with `next_visit`, probes and draws it, and for a directory hands its
//! listing back through `enter`. Entries are visited in the order the listing
//! gives them: the walker neither sorts nor filters. A directory whose
//! contents could not be listed contributes no children.

use vstd::prelude::*;

verus! {

/// A node scheduled for display.
#[derive(Debug)]
pub struct Visit {
    pub path: String,
    /// Levels below the root; the root is at depth 0.
    pub depth: usize,
    pub is_dir: bool,
    /// Whether the node is the last entry of its parent's listing.
    pub is_last: bool,
}

/// One entry of a directory listing.
#[derive(Debug)]
pub struct Entry {
    pub path: String,
    pub is_dir: bool,
}

/// The entries of a listing, or nothing where enumeration failed.
pub open spec fn listing_view(listing: Option<Vec<Entry>>) -> Option<Seq<Entry>> {
    match listing {
        Some(v) => Some(v@),
        None => None,
    }
}

/// The visit of entry `i` of `entries`, listed in the directory `parent`.
pub open spec fn child_visit(parent: Visit, entries: Seq<Entry>, i: int) -> Visit {
    Visit {
        path: entries[i].path,
        depth: (parent.depth + 1) as usize,
        is_dir: entries[i].is_dir,
        is_last: i == entries.len() - 1,
    }
}

/// The visits that listing `parent` schedules, in listing order: none for a
/// file or for a directory that could not be listed.
pub open spec fn child_visits(parent: Visit, listing: Option<Seq<Entry>>) -> Seq<Visit> {
    match listing {
        Some(entries) if parent.is_dir => Seq::new(
            entries.len(),
            |i: int| child_visit(parent, entries, i),
        ),
        _ => Seq::empty(),
    }
}

/// The pending visits of a traversal.
pub struct Walker {
    /// The next visit is on top.
    stack: Vec<Visit>,
}

impl Walker {
    /// The visits still to come, next first.
    pub closed spec fn pending(&self) -> Seq<Visit> {
        Seq::new(self.stack@.len(), |i: int| self.stack@[self.stack@.len() - 1 - i])
    }

    /// The root visit of a run.
    pub open spec fn root_visit(root: String, is_dir: bool) -> Visit {
        Visit { path: root, depth: 0, is_dir, is_last: false }
    }

    /// A traversal that starts at `root`.
    pub fn new(root: String, is_dir: bool) -> (w: Walker)
        ensures
            w.pending() == seq![Self::root_visit(root, is_dir)],
    {
        let mut stack: Vec<Visit> = Vec::new();
        stack.push(Visit { path: root, depth: 0, is_dir, is_last: false });
        let w = Walker { stack };
        assert(w.pending() =~= seq![Self::root_visit(root, is_dir)]);
        w
    }

    pub fn is_done(&self) -> (r: bool)
        ensures
            r == (self.pending().len() == 0),
    {
        self.stack.len() == 0
    }

    /// Takes the next visit, if any is left.
    pub fn next_visit(&mut self) -> (r: Option<Visit>)
        ensures
            old(self).pending().len() == 0 ==> r is None && final(self).pending() == old(self).pending(),
            old(self).pending().len() > 0 ==> r == Some(old(self).pending()[0])
                && final(self).pending() == old(self).pending().drop_first(),
    {
        let r = self.stack.pop();
        proof {
            if old(self).stack@.len() > 0 {
                assert(self.pending() =~= old(self).pending().drop_first());
            }
        }
        r
    }

    /// Schedules the entries of `parent`'s listing, so that they come next,
    /// in listing order, each one level below `parent`, the last one marked
    /// as such. A file, or a listing that failed, schedules nothing.
    pub fn enter(&mut self, parent: &Visit, listing: Option<Vec<Entry>>)
        requires
            parent.depth < usize::MAX,
        ensures
            final(self).pending() == child_visits(*parent, listing_view(listing)) + old(self).pending(),
            forall|i: int|
                0 <= i < child_visits(*parent, listing_view(listing)).len() ==> {
                    let v = #[trigger] child_visits(*parent, listing_view(listing))[i];
                    &&& v.depth == parent.depth + 1
                    &&& v.is_last == (i == child_visits(*parent, listing_view(listing)).len()
                        - 1)
                },
    {
        let ghost cv = child_visits(*parent, listing_view(listing));
        if !parent.is_dir {
            assert(cv + old(self).pending() =~= old(self).pending());
            return ;
        }
        match listing {
            None => {
                assert(cv + old(self).pending() =~= old(self).pending());
            },
            Some(mut entries) => {
                let ghost orig = entries@;
                let ghost old_stack = self.stack@;
                let n = entries.len();
                let mut k: usize = n;
                while k > 0
                    invariant
                        k <= n,
                        n == orig.len(),
                        parent.depth < usize::MAX,
                        cv == Seq::new(orig.len(), |i: int| child_visit(*parent, orig, i)),
                        entries@ == orig.subrange(0, k as int),
                        self.stack@.len() == old_stack.len() + (n - k),
                        forall|j: int| 0 <= j < old_stack.len() ==> self.stack@[j] == old_stack[j],
                        forall|j: int|
                            0 <= j < n - k ==> #[trigger] self.stack@[old_stack.len() + j] == cv[n
                                - 1 - j],
                    decreases k,
                {
                    let e = entries.pop().unwrap();
                    k = k - 1;
                    assert(e == orig[k as int]);
                    self.stack.push(
                        Visit { path: e.path, depth: parent.depth + 1, is_dir: e.is_dir, is_last: k == n - 1 },
                    );
                    assert(self.stack@[old_stack.len() + (n - 1 - k)] == cv[k as int]);
                }
                assert(self.pending() =~= cv + old(self).pending()) by {
                    assert forall|i: int| 0 <= i < self.pending().len() implies self.pending()[i]
                        == (cv + old(self).pending())[i] by {
                        if i < n {
                            assert(self.stack@[old_stack.len() + (n - 1 - i)] == cv[i]);
                        }
                    }
                }
            },
        }
    }
}

/// One step of a traversal: the next pending visit is taken and the answer
/// to it (the listing of the node it names) is scheduled ahead of the rest.
/// This is what `next_visit` followed by `enter` does.
pub open spec fn step(pending: Seq<Visit>, answer: Option<Seq<Entry>>) -> Seq<Visit> {
    child_visits(pending[0], answer) + pending.drop_first()
}

/// Runs steps while answers and pending visits last: the visits made, and
/// what is still pending after them.
pub open spec fn run(pending: Seq<Visit>, answers: Seq<Option<Seq<Entry>>>) -> (Seq<Visit>, Seq<Visit>)
    decreases answers.len(),
{
    if answers.len() == 0 || pending.len() == 0 {
        (Seq::empty(), pending)
    } else {
        let later = run(step(pending, answers[0]), answers.drop_first());
        (seq![pending[0]] + later.0, later.1)
    }
}

/// A node of a filesystem tree: its listing is `children`, or nothing where
/// the directory cannot be enumerated.
pub struct FsNode {
    pub path: String,
    pub is_dir: bool,
    pub children: Option<Seq<FsNode>>,
}

/// The listing entry that names `n`.
pub open spec fn entry_of(n: FsNode) -> Entry {
    Entry { path: n.path, is_dir: n.is_dir }
}

/// What enumerating `n` yields.
pub open spec fn listing_of(n: FsNode) -> Option<Seq<Entry>> {
    match n.children {
        Some(cs) => Some(cs.map_values(|c: FsNode| entry_of(c))),
        None => None,
    }
}

/// The nodes reachable from `n` in one step: the entries of a directory
/// that could be enumerated.
pub open spec fn subtrees(n: FsNode) -> Seq<FsNode> {
    match n.children {
        Some(cs) => if n.is_dir {
            cs
        } else {
            Seq::empty()
        },
        None => Seq::empty(),
    }
}

/// Whether visit `v` names node `n`.
pub open spec fn names(v: Visit, n: FsNode) -> bool {
    v.path == n.path && v.is_dir == n.is_dir
}

/// Every node of the tree at `n` once, in preorder, with `v` as the visit of
/// `n` itself and each entry placed as `enter` places it.
pub open spec fn preorder(n: FsNode, v: Visit) -> Seq<Visit>
    decreases n, subtrees(n).len() + 1,
{
    seq![v] + preorder_from(n, v, 0)
}

/// The preorder of the subtrees of `n` from the `j`-th on.
pub open spec fn preorder_from(n: FsNode, v: Visit, j: int) -> Seq<Visit>
    decreases n, subtrees(n).len() - j,
{
    if 0 <= j < subtrees(n).len() {
        preorder(subtrees(n)[j], child_visit(v, listing_of(n)->Some_0, j)) + preorder_from(
            n,
            v,
            j + 1,
        )
    } else {
        Seq::empty()
    }
}

/// The answers of a traversal of the tree at `n`: each node's listing, in
/// preorder.
pub open spec fn listings(n: FsNode) -> Seq<Option<Seq<Entry>>>
    decreases n, subtrees(n).len() + 1,
{
    seq![listing_of(n)] + listings_from(n, 0)
}

pub open spec fn listings_from(n: FsNode, j: int) -> Seq<Option<Seq<Entry>>>
    decreases n, subtrees(n).len() - j,
{
    if 0 <= j < subtrees(n).len() {
        listings(subtrees(n)[j]) + listings_from(n, j + 1)
    } else {
        Seq::empty()
    }
}

/// Answering in two batches is answering once with both.
proof fn lemma_run_split(pending: Seq<Visit>, a: Seq<Option<Seq<Entry>>>, b: Seq<Option<Seq<Entry>>>)
    ensures
        run(pending, a + b) == ({
            let first = run(pending, a);
            let second = run(first.1, b);
            (first.0 + second.0, second.1)
        }),
    decreases a.len(),
{
    let first = run(pending, a);
    if a.len() == 0 {
        assert(a + b =~= b);
        assert(first.0 + run(first.1, b).0 =~= run(first.1, b).0);
    } else if pending.len() == 0 {
        assert(run(first.1, b).0 =~= Seq::<Visit>::empty());
        assert(first.0 + run(first.1, b).0 =~= Seq::<Visit>::empty());
    } else {
        assert((a + b)[0] == a[0]);
        assert((a + b).drop_first() =~= a.drop_first() + b);
        lemma_run_split(step(pending, a[0]), a.drop_first(), b);
        let later = run(step(pending, a[0]), a.drop_first());
        let second = run(later.1, b);
        assert(seq![pending[0]] + (later.0 + second.0) =~= (seq![pending[0]] + later.0) + second.0);
    }
}

proof fn lemma_child_count(n: FsNode, v: Visit)
    requires
        names(v, n),
    ensures
        child_visits(v, listing_of(n)).len() == subtrees(n).len(),
        forall|j: int|
            0 <= j < subtrees(n).len() ==> #[trigger] child_visits(v, listing_of(n))[j]
                == child_visit(v, listing_of(n)->Some_0, j) && names(
                child_visits(v, listing_of(n))[j],
                subtrees(n)[j],
            ),
{
}

/// Traversing the tree at `n`, ahead of `rest`, visits its preorder and
/// leaves `rest` pending.
proof fn lemma_run_tree(n: FsNode, v: Visit, rest: Seq<Visit>)
    requires
        names(v, n),
    ensures
        run(seq![v] + rest, listings(n)) == (preorder(n, v), rest),
    decreases n, subtrees(n).len() + 1,
{
    let p = seq![v] + rest;
    let ls = listings(n);
    assert(ls[0] == listing_of(n));
    assert(ls.drop_first() =~= listings_from(n, 0));
    assert(p[0] == v);
    assert(p.drop_first() =~= rest);
    let cv = child_visits(v, listing_of(n));
    lemma_child_count(n, v);
    assert(cv.subrange(0, cv.len() as int) =~= cv);
    lemma_run_subtrees(n, v, 0, rest);
}

/// Traversing the subtrees of `n` from the `j`-th on, with their visits
/// pending ahead of `rest`, visits their preorder and leaves `rest`.
proof fn lemma_run_subtrees(n: FsNode, v: Visit, j: int, rest: Seq<Visit>)
    requires
        names(v, n),
        0 <= j <= subtrees(n).len(),
    ensures
        ({
            let cv = child_visits(v, listing_of(n));
            run(cv.subrange(j, cv.len() as int) + rest, listings_from(n, j)) == (
                preorder_from(n, v, j),
                rest,
            )
        }),
    decreases n, subtrees(n).len() - j,
{
    let cv = child_visits(v, listing_of(n));
    lemma_child_count(n, v);
    let len = cv.len() as int;
    if j == subtrees(n).len() {
        assert(cv.subrange(j, len) + rest =~= rest);
    } else {
        let c = subtrees(n)[j];
        let tail = cv.subrange(j + 1, len) + rest;
        assert(cv.subrange(j, len) + rest =~= seq![cv[j]] + tail);
        lemma_run_split(seq![cv[j]] + tail, listings(c), listings_from(n, j + 1));
        lemma_run_tree(c, cv[j], tail);
        lemma_run_subtrees(n, v, j + 1, rest);
    }
}

/// The number of nodes of the tree at `n`.
pub open spec fn node_count(n: FsNode) -> nat
    decreases n, subtrees(n).len() + 1,
{
    1 + count_from(n, 0)
}

pub open spec fn count_from(n: FsNode, j: int) -> nat
    decreases n, subtrees(n).len() - j,
{
    if 0 <= j < subtrees(n).len() {
        node_count(subtrees(n)[j]) + count_from(n, j + 1)
    } else {
        0
    }
}

proof fn lemma_preorder_len(n: FsNode, v: Visit)
    ensures
        preorder(n, v).len() == node_count(n),
    decreases n, subtrees(n).len() + 1,
{
    lemma_preorder_from_len(n, v, 0);
}

proof fn lemma_preorder_from_len(n: FsNode, v: Visit, j: int)
    requires
        0 <= j,
    ensures
        preorder_from(n, v, j).len() == count_from(n, j),
    decreases n, subtrees(n).len() - j,
{
    if j < subtrees(n).len() {
        lemma_preorder_len(subtrees(n)[j], child_visit(v, listing_of(n)->Some_0, j));
        lemma_preorder_from_len(n, v, j + 1);
    }
}

/// A complete traversal from the root of a tree, each visit answered with
/// the listing of the node it names, visits every node reachable through
/// directories that could be enumerated exactly once, each before its
/// entries and the entries in listing order, and leaves nothing pending.
pub proof fn lemma_walk_visits_preorder(root: FsNode)
    ensures
        run(seq![Walker::root_visit(root.path, root.is_dir)], listings(root)) == (
            preorder(root, Walker::root_visit(root.path, root.is_dir)),
            Seq::<Visit>::empty(),
        ),
        preorder(root, Walker::root_visit(root.path, root.is_dir)).len() == node_count(root),
{
    let v = Walker::root_visit(root.path, root.is_dir);
    assert(seq![v] + Seq::<Visit>::empty() =~= seq![v]);
    lemma_run_tree(root, v, Seq::empty());
    lemma_preorder_len(root, v);
}

} // verus!
