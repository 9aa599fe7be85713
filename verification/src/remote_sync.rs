use crate::model::DirEntry;
use crate::nexus_uri::NexusRemoteUri;
use crate::ordering::{files_of, is_file, is_subdir, subdirs_of};
use crate::text::{
    chars_of, concat2, concat3, find_last_char, has_prefix, slice_string, starts_with,
};
use vstd::prelude::*;
use vstd::std_specs::iter::IteratorSpec;

verus! {

/// One node that a walk of a local tree found.
#[derive(Debug, Clone, PartialEq)]
pub struct WalkedPath {
    pub path: String,
    pub is_dir: bool,
}

/// One file to upload: where it lies and where it goes.
#[derive(Debug, Clone, PartialEq)]
pub struct UploadTask {
    pub local_path: String,
    pub remote_path: String,
}

/// One file to download: where it lies in the repository and where it
/// goes, relative to the local root.
#[derive(Debug, Clone, PartialEq)]
pub struct DownloadTask {
    pub remote_path: String,
    pub local_subpath: String,
}

/// One directory to visit: its path relative to both roots (empty for the
/// root itself, else ending in a separator) and its path in the repository.
#[derive(Debug, Clone, PartialEq)]
pub struct DirVisit {
    pub subdir: String,
    pub remote_dir: String,
}

/// The directories of a remote tree that are known and not yet visited.
#[derive(Debug)]
pub struct DownloadWalk {
    subdirs: Vec<String>,
}

/// The remote path of a local file: the remote root in place of the local
/// root at the start of its path.
pub open spec fn remote_path_of(
    remote_root: Seq<char>,
    local_root: Seq<char>,
    local_path: Seq<char>,
) -> Seq<char> {
    remote_root + local_path.skip(local_root.len() as int)
}

/// The nodes of a walk that are files, in walk order.
pub open spec fn walked_files(walked: Seq<WalkedPath>) -> Seq<WalkedPath> {
    walked.filter(|w: WalkedPath| !w.is_dir)
}

/// Every file of the walk lies under the local root.
pub open spec fn all_under_root(local_root: Seq<char>, walked: Seq<WalkedPath>) -> bool {
    forall|i: int|
        0 <= i < walked.len() && !(#[trigger] walked[i]).is_dir ==> has_prefix(
            walked[i].path@,
            local_root,
        )
}

/// The views of the strings of `v`.
pub open spec fn views(v: Seq<String>) -> Seq<Seq<char>> {
    v.map_values(|s: String| s@)
}

/// The remote path that mirrors `local_path`, where that lies under
/// `local_root`.
pub fn upload_remote_path(remote_root: &str, local_root: &str, local_path: &str) -> (r: Option<
    String,
>)
    ensures
        r is Some == has_prefix(local_path@, local_root@),
        r is Some ==> r->0@ == remote_path_of(remote_root@, local_root@, local_path@),
{
    let root = chars_of(local_root);
    let path = chars_of(local_path);
    if !starts_with(&path, &root) {
        return None;
    }
    let rest = slice_string(local_path, root.len(), path.len());
    Some(concat2(remote_root, rest.as_str()))
}

/// The uploads that mirror a walked local tree below `remote_root`: one for
/// each file, in walk order; directories are no uploads of their own.
/// Nothing is planned if a file of the walk lies outside `local_root`.
pub fn plan_upload(remote_root: &str, local_root: &str, walked: &Vec<WalkedPath>) -> (r: Option<
    Vec<UploadTask>,
>)
    ensures
        r is Some == all_under_root(local_root@, walked@),
        r is Some ==> {
            let tasks = r->0@;
            let files = walked_files(walked@);
            &&& tasks.len() == files.len()
            &&& forall|i: int|
                0 <= i < tasks.len() ==> {
                    &&& (#[trigger] tasks[i]).local_path@ == files[i].path@
                    &&& tasks[i].remote_path@ == remote_path_of(
                        remote_root@,
                        local_root@,
                        files[i].path@,
                    )
                }
        },
{
    let mut tasks: Vec<UploadTask> = Vec::new();
    let n = walked.len();
    let mut i: usize = 0;
    assert(walked@.take(0) =~= Seq::<WalkedPath>::empty());
    while i < n
        invariant
            n == walked@.len(),
            i <= n,
            all_under_root(local_root@, walked@.take(i as int)),
            tasks@.len() == walked_files(walked@.take(i as int)).len(),
            forall|k: int|
                0 <= k < tasks@.len() ==> {
                    &&& (#[trigger] tasks@[k]).local_path@ == walked_files(
                        walked@.take(i as int),
                    )[k].path@
                    &&& tasks@[k].remote_path@ == remote_path_of(
                        remote_root@,
                        local_root@,
                        walked_files(walked@.take(i as int))[k].path@,
                    )
                },
        decreases n - i,
    {
        let ghost seen = walked@.take(i as int);
        let node = &walked[i];
        proof {
            assert(walked@.take(i + 1) =~= seen.push(*node));
            seen.lemma_filter_push(*node, |w: WalkedPath| !w.is_dir);
        }
        if !node.is_dir {
            match upload_remote_path(remote_root, local_root, node.path.as_str()) {
                Some(remote_path) => {
                    tasks.push(UploadTask { local_path: node.path.clone(), remote_path });
                },
                None => {
                    assert(!all_under_root(local_root@, walked@)) by {
                        assert(walked@[i as int] == *node);
                    }
                    return None;
                },
            }
        }
        i += 1;
    }
    assert(walked@.take(n as int) =~= walked@);
    Some(tasks)
}

/// The path of a file of directory `subdir`, relative to both roots.
pub open spec fn file_subpath(subdir: Seq<char>, e: DirEntry) -> Seq<char> {
    subdir + e.text@
}

/// The path of a subdirectory of directory `subdir`, relative to both
/// roots: it ends in a separator.
pub open spec fn dir_subpath(subdir: Seq<char>, e: DirEntry) -> Seq<char> {
    subdir + e.text@ + seq!['/']
}

impl View for DownloadWalk {
    type V = Seq<Seq<char>>;

    /// The relative paths of the directories still to visit; the last one
    /// is visited next.
    closed spec fn view(&self) -> Seq<Seq<char>> {
        views(self.subdirs@)
    }
}

impl DownloadWalk {
    /// A walk that has only the root directory to visit.
    pub fn new() -> (walk: Self)
        ensures
            walk@ == seq![Seq::<char>::empty()],
    {
        let mut subdirs: Vec<String> = Vec::new();
        subdirs.push(String::new());
        let walk = DownloadWalk { subdirs };
        assert(walk@ =~= seq![Seq::<char>::empty()]);
        walk
    }

    /// Whether no directory is left to visit.
    pub fn is_done(&self) -> (done: bool)
        ensures
            done == (self@.len() == 0),
    {
        self.subdirs.len() == 0
    }

    /// Takes the directory to visit next, if one is left: the one that was
    /// found last.
    pub fn next_dir(&mut self, remote_root: &str) -> (visit: Option<DirVisit>)
        ensures
            visit is Some == (old(self)@.len() > 0),
            visit is Some ==> {
                &&& final(self)@ == old(self)@.drop_last()
                &&& visit->0.subdir@ == old(self)@.last()
                &&& visit->0.remote_dir@ == remote_root@ + old(self)@.last()
            },
            visit is None ==> final(self)@ == old(self)@,
    {
        match self.subdirs.pop() {
            Some(subdir) => {
                assert(self@ =~= old(self)@.drop_last());
                let remote_dir = concat2(remote_root, subdir.as_str());
                Some(DirVisit { subdir, remote_dir })
            },
            None => None,
        }
    }

    /// Takes in the listing of the directory `subdir`: every subdirectory
    /// that it lists is put behind the directories still to visit, and
    /// every file that it lists becomes a download, both in listing order.
    pub fn expand(&mut self, remote_root: &str, subdir: &str, entries: &Vec<DirEntry>) -> (tasks:
        Vec<DownloadTask>)
        ensures
            tasks@.len() == files_of(entries@).len(),
            forall|i: int|
                0 <= i < tasks@.len() ==> {
                    &&& (#[trigger] tasks@[i]).local_subpath@ == file_subpath(
                        subdir@,
                        files_of(entries@)[i],
                    )
                    &&& tasks@[i].remote_path@ == remote_root@ + file_subpath(
                        subdir@,
                        files_of(entries@)[i],
                    )
                },
            final(self)@.len() == old(self)@.len() + subdirs_of(entries@).len(),
            final(self)@.take(old(self)@.len() as int) == old(self)@,
            forall|i: int|
                0 <= i < subdirs_of(entries@).len() ==> #[trigger] final(self)@[old(self)@.len()
                    + i] == dir_subpath(subdir@, subdirs_of(entries@)[i]),
    {
        let mut tasks: Vec<DownloadTask> = Vec::new();
        let n = entries.len();
        let mut i: usize = 0;
        assert(entries@.take(0) =~= Seq::<DirEntry>::empty());
        assert(self@.take(old(self)@.len() as int) =~= old(self)@);
        proof {
            reveal_strlit("/");
            assert("/"@ =~= seq!['/']);
        }
        while i < n
            invariant
                n == entries@.len(),
                i <= n,
                "/"@ == seq!['/'],
                tasks@.len() == files_of(entries@.take(i as int)).len(),
                forall|k: int|
                    0 <= k < tasks@.len() ==> {
                        &&& (#[trigger] tasks@[k]).local_subpath@ == file_subpath(
                            subdir@,
                            files_of(entries@.take(i as int))[k],
                        )
                        &&& tasks@[k].remote_path@ == remote_root@ + file_subpath(
                            subdir@,
                            files_of(entries@.take(i as int))[k],
                        )
                    },
                self@.len() == old(self)@.len() + subdirs_of(entries@.take(i as int)).len(),
                self@.take(old(self)@.len() as int) == old(self)@,
                forall|k: int|
                    0 <= k < subdirs_of(entries@.take(i as int)).len() ==> #[trigger] self@[old(
                        self,
                    )@.len() + k] == dir_subpath(subdir@, subdirs_of(entries@.take(i as int))[k]),
            decreases n - i,
        {
            let ghost seen = entries@.take(i as int);
            let ghost stack = self@;
            let entry = &entries[i];
            proof {
                assert(entries@.take(i + 1) =~= seen.push(*entry));
                seen.lemma_filter_push(*entry, |e: DirEntry| is_file(e));
                seen.lemma_filter_push(*entry, |e: DirEntry| is_subdir(e));
            }
            if entry.leaf {
                let local_subpath = concat2(subdir, entry.text.as_str());
                let remote_path = concat2(remote_root, local_subpath.as_str());
                tasks.push(DownloadTask { remote_path, local_subpath });
            } else {
                let subpath = concat3(subdir, entry.text.as_str(), "/");
                self.subdirs.push(subpath);
                assert(self@ =~= stack.push(dir_subpath(subdir@, *entry)));
                assert(self@.take(old(self)@.len() as int) =~= stack.take(old(self)@.len() as int));
            }
            i += 1;
        }
        assert(entries@.take(n as int) =~= entries@);
        tasks
    }
}

/// Where a transfer failed: at the repository, or on the local disk.
#[derive(Copy, Clone, Debug, PartialEq, Eq, Structural)]
pub enum TransferErrorKind {
    Remote,
    LocalIo,
}

/// Why one transfer failed.
#[derive(Debug, Clone, PartialEq)]
pub struct TransferError {
    pub kind: TransferErrorKind,
    pub message: String,
}

/// How the transfer of one file ended: `error` is `None` where it
/// succeeded.
#[derive(Debug, Clone, PartialEq)]
pub struct TransferOutcome {
    pub remote_path: String,
    pub error: Option<TransferError>,
}

/// The outcomes of a bulk transfer, put together.
#[derive(Debug, Clone, PartialEq)]
pub struct TransferSummary {
    /// The number of files that were transferred.
    pub transferred: usize,
    /// The outcomes that are failures, in the order in which they were
    /// observed.
    pub failures: Vec<TransferOutcome>,
}

/// What a bulk transfer with failures reports: how many files went
/// through, how many did not, and the failure that was observed last.
#[derive(Debug, Clone, PartialEq)]
pub struct TransferFailure {
    pub transferred: usize,
    pub failed: usize,
    pub last: TransferOutcome,
}

pub open spec fn failed(o: TransferOutcome) -> bool {
    o.error is Some
}

pub open spec fn succeeded(o: TransferOutcome) -> bool {
    o.error is None
}

/// The failures among the outcomes, in their order.
pub open spec fn failures_of(outcomes: Seq<TransferOutcome>) -> Seq<TransferOutcome> {
    outcomes.filter(|o: TransferOutcome| failed(o))
}

/// The successes among the outcomes, in their order.
pub open spec fn successes_of(outcomes: Seq<TransferOutcome>) -> Seq<TransferOutcome> {
    outcomes.filter(|o: TransferOutcome| succeeded(o))
}

/// Each outcome is a success or a failure, and counts as one of the two.
pub proof fn lemma_outcomes_partition(outcomes: Seq<TransferOutcome>)
    ensures
        successes_of(outcomes).len() + failures_of(outcomes).len() == outcomes.len(),
    decreases outcomes.len(),
{
    if outcomes.len() == 0 {
        assert(outcomes =~= Seq::<TransferOutcome>::empty());
    } else {
        let init = outcomes.drop_last();
        let last = outcomes.last();
        assert(outcomes =~= init.push(last));
        lemma_outcomes_partition(init);
        init.lemma_filter_push(last, |o: TransferOutcome| failed(o));
        init.lemma_filter_push(last, |o: TransferOutcome| succeeded(o));
    }
}

/// Puts the outcomes of a bulk transfer together: the successes are
/// counted, the failures are kept, none is lost and none counts twice.
pub fn summarize(outcomes: Vec<TransferOutcome>) -> (summary: TransferSummary)
    ensures
        summary.transferred == successes_of(outcomes@).len(),
        summary.failures@ == failures_of(outcomes@),
        summary.transferred + summary.failures@.len() == outcomes@.len(),
{
    let mut transferred: usize = 0;
    let mut failures: Vec<TransferOutcome> = Vec::new();
    let ghost all = outcomes@;
    let n = outcomes.len();
    assert(all.take(0) =~= Seq::<TransferOutcome>::empty());
    for outcome in it: outcomes
        invariant
            it.seq() == all,
            all.len() == n,
            transferred == successes_of(all.take(it.index() as int)).len(),
            transferred <= it.index(),
            failures@ == failures_of(all.take(it.index() as int)),
    {
        proof {
            let seen = all.take(it.index() as int);
            assert(all.take(it.index() + 1) =~= seen.push(outcome));
            seen.lemma_filter_push(outcome, |o: TransferOutcome| failed(o));
            seen.lemma_filter_push(outcome, |o: TransferOutcome| succeeded(o));
        }
        if outcome.error.is_some() {
            failures.push(outcome);
        } else {
            transferred += 1;
        }
    }
    proof {
        assert(all.take(all.len() as int) =~= all);
        lemma_outcomes_partition(all);
    }
    TransferSummary { transferred, failures }
}

impl TransferSummary {
    /// Whether every file was transferred.
    pub fn is_success(&self) -> (ok: bool)
        ensures
            ok == (self.failures@.len() == 0),
    {
        self.failures.len() == 0
    }

    /// The result of the whole transfer: the number of files transferred
    /// if none failed; else both counts and the failure observed last.
    pub fn into_result(self) -> (r: Result<usize, TransferFailure>)
        ensures
            r is Ok == (self.failures@.len() == 0),
            r is Ok ==> r->Ok_0 == self.transferred,
            r is Err ==> {
                &&& r->Err_0.transferred == self.transferred
                &&& r->Err_0.failed == self.failures@.len()
                &&& r->Err_0.last == self.failures@.last()
            },
    {
        let TransferSummary { transferred, failures } = self;
        let mut failures = failures;
        let failed = failures.len();
        match failures.pop() {
            Some(last) => Err(TransferFailure { transferred, failed, last }),
            None => Ok(transferred),
        }
    }
}

/// Where exactly one of the transfers failed, all the others are counted
/// as transferred and the one failure is what is kept.
pub proof fn law_one_failure_among_many(outcomes: Seq<TransferOutcome>, k: int)
    requires
        0 <= k < outcomes.len(),
        failed(outcomes[k]),
        forall|i: int| 0 <= i < outcomes.len() && i != k ==> succeeded(#[trigger] outcomes[i]),
    ensures
        successes_of(outcomes).len() == outcomes.len() - 1,
        failures_of(outcomes) == seq![outcomes[k]],
        successes_of(outcomes) == outcomes.remove(k),
{
    let head = outcomes.take(k);
    let one = seq![outcomes[k]];
    let tail = outcomes.skip(k + 1);
    let none = Seq::<TransferOutcome>::empty();
    let is_failed = |o: TransferOutcome| failed(o);
    let is_success = |o: TransferOutcome| succeeded(o);
    assert(outcomes =~= (head + one) + tail);
    assert(outcomes.remove(k) =~= head + tail);
    lemma_all_succeeded(head);
    lemma_all_succeeded(tail);
    assert(one =~= none.push(outcomes[k]));
    assert(none.filter(is_failed) =~= none);
    assert(none.filter(is_success) =~= none);
    none.lemma_filter_push(outcomes[k], is_failed);
    none.lemma_filter_push(outcomes[k], is_success);
    assert(one.filter(is_failed) =~= one);
    assert(one.filter(is_success) =~= none);
    Seq::filter_distributes_over_add(head, one, is_failed);
    Seq::filter_distributes_over_add(head + one, tail, is_failed);
    Seq::filter_distributes_over_add(head, one, is_success);
    Seq::filter_distributes_over_add(head + one, tail, is_success);
    assert(failures_of(outcomes) =~= one);
    assert(successes_of(outcomes) =~= head + tail);
}

/// Where no transfer failed, every outcome is a success.
pub proof fn lemma_all_succeeded(outcomes: Seq<TransferOutcome>)
    requires
        forall|i: int| 0 <= i < outcomes.len() ==> succeeded(#[trigger] outcomes[i]),
    ensures
        successes_of(outcomes) == outcomes,
        failures_of(outcomes) == Seq::<TransferOutcome>::empty(),
    decreases outcomes.len(),
{
    if outcomes.len() == 0 {
        assert(outcomes =~= Seq::<TransferOutcome>::empty());
    } else {
        let init = outcomes.drop_last();
        let last = outcomes.last();
        assert(outcomes =~= init.push(last));
        lemma_all_succeeded(init);
        init.lemma_filter_push(last, |o: TransferOutcome| failed(o));
        init.lemma_filter_push(last, |o: TransferOutcome| succeeded(o));
    }
}

/// What a download does.
#[derive(Debug, Clone, PartialEq)]
pub enum DownloadMode {
    /// The remote directory is mirrored below the local path.
    Tree,
    /// The remote file is written to the local path.
    FileAs,
    /// The remote file is written into the local directory, under the
    /// name that it has in the repository.
    FileInto { file_name: String },
}

/// What an upload does.
#[derive(Debug, Clone, PartialEq)]
pub enum UploadMode {
    /// The local directory is mirrored below the remote directory.
    Tree,
    /// The local file is written to this remote path.
    File { remote_path: String },
}

/// A local directory cannot be uploaded to a remote file.
#[derive(Copy, Clone, Debug, PartialEq, Eq, Structural)]
pub struct UnsupportedTransfer {
    pub local_is_dir: bool,
    pub remote_is_dir: bool,
}

/// What follows the last slash of `path`.
pub open spec fn is_file_name_of(name: Seq<char>, path: Seq<char>) -> bool {
    exists|i: int|
        {
            &&& 0 <= i < path.len()
            &&& #[trigger] path[i] == '/'
            &&& name == path.skip(i + 1)
            &&& !name.contains('/')
        }
}

/// What a download from `uri` to a local path does: a remote directory is
/// mirrored, a remote file is written to the local path, or into it
/// where that is a directory.
pub fn download_mode(local_is_dir: bool, uri: &NexusRemoteUri) -> (mode: DownloadMode)
    requires
        uri.repo_path@.contains('/'),
    ensures
        uri.denotes_dir() ==> mode == DownloadMode::Tree,
        !uri.denotes_dir() && !local_is_dir ==> mode == DownloadMode::FileAs,
        !uri.denotes_dir() && local_is_dir ==> mode is FileInto && is_file_name_of(
            mode->file_name@,
            uri.repo_path@,
        ),
{
    if uri.is_dir() {
        DownloadMode::Tree
    } else if local_is_dir {
        let path = chars_of(uri.repo_path.as_str());
        match find_last_char(&path, '/') {
            Some(index) => {
                let n = path.len();
                let file_name = slice_string(uri.repo_path.as_str(), index + 1, n);
                proof {
                    let name = uri.repo_path@.skip(index + 1);
                    assert(file_name@ =~= name);
                    assert(!name.contains('/')) by {
                        if name.contains('/') {
                            let k = choose|k: int| 0 <= k < name.len() && name[k] == '/';
                            assert(uri.repo_path@[index + 1 + k] == '/');
                        }
                    }
                    assert(uri.repo_path@[index as int] == '/');
                }
                DownloadMode::FileInto { file_name }
            },
            None => {
                proof {
                    let k = choose|k: int|
                        0 <= k < uri.repo_path@.len() && uri.repo_path@[k] == '/';
                    assert(false);
                }
                DownloadMode::FileAs
            },
        }
    } else {
        DownloadMode::FileAs
    }
}

/// What an upload of a local path to `uri` does: a directory is mirrored
/// below a remote directory; a file is written to the remote path, or
/// into it, under its own name, where that is a directory. A directory
/// does not go to a remote file.
pub fn upload_mode(local_is_dir: bool, local_file_name: &str, uri: &NexusRemoteUri) -> (r: Result<
    UploadMode,
    UnsupportedTransfer,
>)
    ensures
        local_is_dir && uri.denotes_dir() ==> r == Ok::<UploadMode, UnsupportedTransfer>(
            UploadMode::Tree,
        ),
        local_is_dir && !uri.denotes_dir() ==> r == Err::<UploadMode, UnsupportedTransfer>(
            UnsupportedTransfer { local_is_dir: true, remote_is_dir: false },
        ),
        !local_is_dir ==> r is Ok && r->Ok_0 is File && r->Ok_0->remote_path@ == if uri.denotes_dir() {
            uri.repo_path@ + local_file_name@
        } else {
            uri.repo_path@
        },
{
    let remote_is_dir = uri.is_dir();
    if local_is_dir {
        if remote_is_dir {
            Ok(UploadMode::Tree)
        } else {
            Err(UnsupportedTransfer { local_is_dir, remote_is_dir })
        }
    } else {
        let remote_path = if remote_is_dir {
            concat2(uri.repo_path.as_str(), local_file_name)
        } else {
            uri.repo_path.clone()
        };
        Ok(UploadMode::File { remote_path })
    }
}

} // verus!
