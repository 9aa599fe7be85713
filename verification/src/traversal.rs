use crate::model::DirEntry;
use crate::ordering::{files_of, sort_by_text, sorted_by_name, split_files_subdirs, subdirs_of};
use vstd::multiset::Multiset;
use vstd::prelude::*;

verus! {

/// One message on the result channel: the directory that was expanded (none
/// for the root) and the entries that its listing returned.
#[derive(Debug)]
pub struct DirChunk {
    pub container: Option<DirEntry>,
    pub entries: Vec<DirEntry>,
}

/// What the coordinator asks of its caller after one chunk.
#[derive(Debug)]
pub struct ChunkActions {
    /// The directory that was entered, to be emitted before its contents.
    pub container: Option<DirEntry>,
    /// The files of the chunk, to be emitted in this order.
    pub files: Vec<DirEntry>,
    /// The subdirectories of the chunk: each one is to be fetched and to
    /// come back as exactly one chunk.
    pub subdirs: Vec<DirEntry>,
    /// No chunk is outstanding any more: the traversal is complete.
    pub finished: bool,
}

/// A listing split into files and subdirectories, each ordered by name.
#[derive(Debug)]
pub struct OrderedListing {
    pub files: Vec<DirEntry>,
    pub subdirs: Vec<DirEntry>,
}

/// The single owner of the count of chunks that were scheduled and are not
/// yet processed.
#[derive(Debug)]
pub struct Coordinator {
    pending: usize,
}

/// The pending count after a chunk with these entries has been processed:
/// one more for each subdirectory that it lists, one less for the chunk.
pub open spec fn pending_after(pending: int, entries: Seq<DirEntry>) -> int {
    pending + subdirs_of(entries).len() - 1
}

/// Partitions a listing and orders both parts by name.
pub fn order_listing(entries: Vec<DirEntry>) -> (out: OrderedListing)
    ensures
        out.files@.to_multiset() == files_of(entries@).to_multiset(),
        out.subdirs@.to_multiset() == subdirs_of(entries@).to_multiset(),
        sorted_by_name(out.files@),
        sorted_by_name(out.subdirs@),
        out.files@.len() == files_of(entries@).len(),
        out.subdirs@.len() == subdirs_of(entries@).len(),
{
    let (files, subdirs) = split_files_subdirs(entries);
    let files = sort_by_text(files);
    let subdirs = sort_by_text(subdirs);
    OrderedListing { files, subdirs }
}

impl OrderedListing {
    /// The entries in the order in which a listing of one directory shows
    /// them: the subdirectories, then the files.
    pub fn into_display_order(self) -> (out: Vec<DirEntry>)
        ensures
            out@ == self.subdirs@ + self.files@,
    {
        let OrderedListing { files, subdirs } = self;
        let mut out = subdirs;
        let mut files = files;
        out.append(&mut files);
        out
    }
}

/// The chunk that a finished fetch of `container` sends back. A fetch that
/// failed (`None`) still sends a chunk, with no entries, so that the
/// pending count stays in step.
pub fn chunk_of_fetch(container: DirEntry, fetched: Option<Vec<DirEntry>>) -> (chunk: DirChunk)
    ensures
        chunk.container == Some(container),
        fetched is Some ==> chunk.entries == fetched->0,
        fetched is None ==> chunk.entries@ == Seq::<DirEntry>::empty(),
{
    match fetched {
        Some(entries) => DirChunk { container: Some(container), entries },
        None => DirChunk { container: Some(container), entries: Vec::new() },
    }
}

impl Coordinator {
    /// The number of chunks scheduled and not yet processed.
    pub closed spec fn pending(&self) -> nat {
        self.pending as nat
    }

    /// A traversal that has scheduled its root chunk and nothing else.
    pub fn new() -> (c: Self)
        ensures
            c.pending() == 1,
    {
        Coordinator { pending: 1 }
    }

    /// The number of chunks scheduled and not yet processed.
    pub fn pending_count(&self) -> (n: usize)
        ensures
            n == self.pending(),
    {
        self.pending
    }

    /// Whether every scheduled chunk has been processed.
    pub fn is_complete(&self) -> (done: bool)
        ensures
            done == (self.pending() == 0),
    {
        self.pending == 0
    }

    /// Whether `process_chunk` can count this chunk: one is outstanding, and
    /// the count of its subdirectories fits.
    pub fn can_process(&self, chunk: &DirChunk) -> (ok: bool)
        ensures
            ok == (self.pending() >= 1 && pending_after(self.pending() as int, chunk.entries@)
                <= usize::MAX),
    {
        if self.pending == 0 {
            return false;
        }
        let mut subdirs: usize = 0;
        let n = chunk.entries.len();
        let mut i: usize = 0;
        assert(chunk.entries@.take(0) =~= Seq::<DirEntry>::empty());
        while i < n
            invariant
                n == chunk.entries@.len(),
                i <= n,
                subdirs == subdirs_of(chunk.entries@.take(i as int)).len(),
                subdirs <= i,
            decreases n - i,
        {
            proof {
                let seen = chunk.entries@.take(i as int);
                assert(chunk.entries@.take(i + 1) =~= seen.push(chunk.entries@[i as int]));
                seen.lemma_filter_push(
                    chunk.entries@[i as int],
                    |e: DirEntry| crate::ordering::is_subdir(e),
                );
            }
            if !chunk.entries[i].leaf {
                subdirs += 1;
            }
            i += 1;
        }
        assert(chunk.entries@.take(n as int) =~= chunk.entries@);
        subdirs <= usize::MAX - (self.pending - 1)
    }

    /// Processes one chunk: hands back the directory that was entered, its
    /// files and its subdirectories in name order, counts one more pending
    /// chunk for each subdirectory and one less for this chunk, and says
    /// whether the traversal is complete.
    pub fn process_chunk(&mut self, chunk: DirChunk) -> (out: ChunkActions)
        requires
            old(self).pending() >= 1,
            pending_after(old(self).pending() as int, chunk.entries@) <= usize::MAX,
        ensures
            out.container == chunk.container,
            out.files@.to_multiset() == files_of(chunk.entries@).to_multiset(),
            sorted_by_name(out.files@),
            out.subdirs@.to_multiset() == subdirs_of(chunk.entries@).to_multiset(),
            sorted_by_name(out.subdirs@),
            out.subdirs@.len() == subdirs_of(chunk.entries@).len(),
            final(self).pending() == pending_after(old(self).pending() as int, chunk.entries@),
            out.finished == (final(self).pending() == 0),
    {
        let DirChunk { container, entries } = chunk;
        let listing = order_listing(entries);
        self.pending = self.pending - 1 + listing.subdirs.len();
        ChunkActions {
            container,
            files: listing.files,
            subdirs: listing.subdirs,
            finished: self.pending == 0,
        }
    }
}

/// A finite remote tree as its listings describe it: what one directory
/// lists, and the tree below each subdirectory that it lists. A
/// subdirectory whose fetch failed is a tree that lists nothing.
pub struct RemoteTree {
    pub entries: Seq<DirEntry>,
    pub children: Seq<RemoteTree>,
}

/// Every directory of the tree has one subtree for each subdirectory entry.
pub open spec fn well_formed(t: RemoteTree) -> bool
    decreases t,
{
    &&& t.children.len() == subdirs_of(t.entries).len()
    &&& forall|i: int| 0 <= i < t.children.len() ==> well_formed(#[trigger] t.children[i])
}

/// Every tree of the forest is well formed.
pub open spec fn forest_well_formed(ts: Seq<RemoteTree>) -> bool {
    forall|i: int| 0 <= i < ts.len() ==> well_formed(#[trigger] ts[i])
}

/// The number of directories in the tree, its root included.
pub open spec fn dir_count(t: RemoteTree) -> nat
    decreases t, 1nat,
{
    1 + forest_dir_count(t.children)
}

/// The number of directories in all trees of the forest.
pub open spec fn forest_dir_count(ts: Seq<RemoteTree>) -> nat
    decreases ts, 0nat,
{
    if ts.len() == 0 {
        0
    } else {
        forest_dir_count(ts.drop_last()) + dir_count(ts.last())
    }
}

/// The file entries of all directories of the tree.
pub open spec fn tree_files(t: RemoteTree) -> Multiset<DirEntry>
    decreases t, 1nat,
{
    files_of(t.entries).to_multiset().add(forest_files(t.children))
}

/// The file entries of all trees of the forest.
pub open spec fn forest_files(ts: Seq<RemoteTree>) -> Multiset<DirEntry>
    decreases ts, 0nat,
{
    if ts.len() == 0 {
        Multiset::empty()
    } else {
        forest_files(ts.drop_last()).add(tree_files(ts.last()))
    }
}

/// The number of files in the tree.
pub open spec fn file_count(t: RemoteTree) -> nat {
    tree_files(t).len()
}

/// A traversal at some moment, seen from outside: the coordinator's count,
/// the chunks that are scheduled and not yet processed (each standing for
/// the subtree that it opens), and what has happened so far.
pub struct Progress {
    pub pending: int,
    pub in_flight: Seq<RemoteTree>,
    pub chunks: nat,
    pub spawned: nat,
    pub emitted: Multiset<DirEntry>,
}

/// The traversal of `t` before its first chunk is processed.
pub open spec fn started(t: RemoteTree) -> Progress {
    Progress {
        pending: 1,
        in_flight: seq![t],
        chunks: 0,
        spawned: 0,
        emitted: Multiset::empty(),
    }
}

/// The traversal after the chunk at place `pick` among those in flight has
/// arrived and been processed.
pub open spec fn after_chunk(p: Progress, pick: int) -> Progress {
    let t = p.in_flight[pick];
    Progress {
        pending: pending_after(p.pending, t.entries),
        in_flight: p.in_flight.remove(pick) + t.children,
        chunks: p.chunks + 1,
        spawned: p.spawned + subdirs_of(t.entries).len(),
        emitted: p.emitted.add(files_of(t.entries).to_multiset()),
    }
}

/// The traversal of `t` after chunks have arrived in the order `picks`:
/// each pick names one of the chunks in flight at that moment.
pub open spec fn progress(t: RemoteTree, picks: Seq<int>) -> Progress
    decreases picks.len(),
{
    if picks.len() == 0 {
        started(t)
    } else {
        after_chunk(progress(t, picks.drop_last()), picks.last())
    }
}

/// Each pick names a chunk that is in flight when it is made.
pub open spec fn schedule(t: RemoteTree, picks: Seq<int>) -> bool
    decreases picks.len(),
{
    picks.len() == 0 || {
        &&& schedule(t, picks.drop_last())
        &&& 0 <= picks.last() < progress(t, picks.drop_last()).in_flight.len()
    }
}

proof fn lemma_forest_dir_count_concat(a: Seq<RemoteTree>, b: Seq<RemoteTree>)
    ensures
        forest_dir_count(a + b) == forest_dir_count(a) + forest_dir_count(b),
    decreases b.len(),
{
    if b.len() == 0 {
        assert(a + b =~= a);
    } else {
        assert((a + b).drop_last() =~= a + b.drop_last());
        assert((a + b).last() == b.last());
        lemma_forest_dir_count_concat(a, b.drop_last());
    }
}

proof fn lemma_forest_files_concat(a: Seq<RemoteTree>, b: Seq<RemoteTree>)
    ensures
        forest_files(a + b) =~= forest_files(a).add(forest_files(b)),
    decreases b.len(),
{
    if b.len() == 0 {
        assert(a + b =~= a);
    } else {
        assert((a + b).drop_last() =~= a + b.drop_last());
        assert((a + b).last() == b.last());
        lemma_forest_files_concat(a, b.drop_last());
    }
}

proof fn lemma_forest_of_one(t: RemoteTree)
    ensures
        forest_dir_count(seq![t]) == dir_count(t),
        forest_files(seq![t]) =~= tree_files(t),
{
    let one = seq![t];
    let none = Seq::<RemoteTree>::empty();
    assert(one.drop_last() =~= none);
    assert(one.last() == t);
    assert(forest_dir_count(none) == 0);
    assert(forest_files(none) =~= Multiset::<DirEntry>::empty());
    assert(forest_dir_count(one) == forest_dir_count(one.drop_last()) + dir_count(one.last()));
    assert(forest_files(one) == forest_files(one.drop_last()).add(tree_files(one.last())));
}

proof fn lemma_forest_remove(ts: Seq<RemoteTree>, i: int)
    requires
        0 <= i < ts.len(),
    ensures
        forest_dir_count(ts) == forest_dir_count(ts.remove(i)) + dir_count(ts[i]),
        forest_files(ts) =~= forest_files(ts.remove(i)).add(tree_files(ts[i])),
{
    let head = ts.take(i);
    let one = seq![ts[i]];
    let tail = ts.skip(i + 1);
    assert(ts =~= (head + one) + tail);
    assert(ts.remove(i) =~= head + tail);
    lemma_forest_of_one(ts[i]);
    lemma_forest_dir_count_concat(head, one);
    lemma_forest_dir_count_concat(head + one, tail);
    lemma_forest_dir_count_concat(head, tail);
    lemma_forest_files_concat(head, one);
    lemma_forest_files_concat(head + one, tail);
    lemma_forest_files_concat(head, tail);
}

proof fn lemma_forest_has_a_dir_per_tree(ts: Seq<RemoteTree>)
    ensures
        forest_dir_count(ts) >= ts.len(),
    decreases ts.len(),
{
    if ts.len() > 0 {
        lemma_forest_has_a_dir_per_tree(ts.drop_last());
        assert(dir_count(ts.last()) == 1 + forest_dir_count(ts.last().children));
    }
}

/// The bookkeeping of a traversal, whatever the order in which its chunks
/// arrive: the pending count is the number of chunks in flight; every
/// directory is either processed or still below a chunk in flight; every
/// file is either emitted or still below a chunk in flight; and every chunk
/// but the root's was spawned exactly once.
pub proof fn law_pending_counts_chunks_in_flight(t: RemoteTree, picks: Seq<int>)
    requires
        well_formed(t),
        schedule(t, picks),
    ensures
        progress(t, picks).pending == progress(t, picks).in_flight.len(),
        forest_well_formed(progress(t, picks).in_flight),
        progress(t, picks).chunks == picks.len(),
        progress(t, picks).chunks + forest_dir_count(progress(t, picks).in_flight) == dir_count(t),
        progress(t, picks).emitted.add(forest_files(progress(t, picks).in_flight)) == tree_files(t),
        progress(t, picks).spawned + 1 == progress(t, picks).chunks + progress(t, picks).pending,
    decreases picks.len(),
{
    if picks.len() == 0 {
        lemma_forest_of_one(t);
        assert(started(t).emitted.add(forest_files(seq![t])) =~= tree_files(t));
    } else {
        let before = progress(t, picks.drop_last());
        let pick = picks.last();
        let now = progress(t, picks);
        law_pending_counts_chunks_in_flight(t, picks.drop_last());
        let opened = before.in_flight[pick];
        assert(well_formed(opened));
        lemma_forest_remove(before.in_flight, pick);
        lemma_forest_dir_count_concat(before.in_flight.remove(pick), opened.children);
        lemma_forest_files_concat(before.in_flight.remove(pick), opened.children);
        assert(now.emitted.add(forest_files(now.in_flight)) =~= before.emitted.add(
            forest_files(before.in_flight),
        ));
        assert forall|i: int| 0 <= i < now.in_flight.len() implies well_formed(
            #[trigger] now.in_flight[i],
        ) by {
            let kept = before.in_flight.remove(pick);
            if i < kept.len() {
                assert(now.in_flight[i] == before.in_flight[if i < pick { i } else { i + 1 }]);
            } else {
                assert(now.in_flight[i] == opened.children[i - kept.len()]);
            }
        }
    }
}

/// A traversal of a finite tree ends: the pending count is 0 after exactly
/// as many chunks as the tree has directories, and never before, in
/// whatever order the chunks arrive.
pub proof fn law_traversal_terminates(t: RemoteTree, picks: Seq<int>)
    requires
        well_formed(t),
        schedule(t, picks),
    ensures
        picks.len() <= dir_count(t),
        progress(t, picks).pending >= 0,
        progress(t, picks).pending == 0 <==> picks.len() == dir_count(t),
{
    law_pending_counts_chunks_in_flight(t, picks);
    let now = progress(t, picks);
    lemma_forest_has_a_dir_per_tree(now.in_flight);
    if now.in_flight.len() == 0 {
        assert(forest_dir_count(now.in_flight) == 0);
    }
}

/// A traversal that has not ended can go on: while the pending count is
/// not 0, a chunk is in flight for the coordinator to receive.
pub proof fn law_traversal_never_starves(t: RemoteTree, picks: Seq<int>)
    requires
        well_formed(t),
        schedule(t, picks),
        progress(t, picks).pending != 0,
    ensures
        schedule(t, picks.push(0)),
{
    law_pending_counts_chunks_in_flight(t, picks);
    assert(picks.push(0).drop_last() =~= picks);
}

/// When the pending count reaches 0, the traversal has processed one chunk
/// for each directory of the tree, spawned one fetch for each directory but
/// the root, and emitted each file of the tree exactly once, in whatever
/// order the chunks arrived.
pub proof fn law_traversal_complete(t: RemoteTree, picks: Seq<int>)
    requires
        well_formed(t),
        schedule(t, picks),
        progress(t, picks).pending == 0,
    ensures
        progress(t, picks).chunks == dir_count(t),
        progress(t, picks).spawned == dir_count(t) - 1,
        progress(t, picks).emitted == tree_files(t),
        progress(t, picks).emitted.len() == file_count(t),
{
    law_pending_counts_chunks_in_flight(t, picks);
    let now = progress(t, picks);
    assert(now.in_flight =~= Seq::<RemoteTree>::empty());
    assert(forest_dir_count(now.in_flight) == 0);
    assert(forest_files(now.in_flight) =~= Multiset::<DirEntry>::empty());
    assert(now.emitted.add(Multiset::<DirEntry>::empty()) =~= now.emitted);
}

} // verus!
