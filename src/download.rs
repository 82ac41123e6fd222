//! The download queue: an ordered list of transfers keyed by package, and
//! the decisions of its single-flight scheduler.
use vstd::prelude::*;
use crate::catalog::{join_path, join_path_exec, release_hash, CatalogService};
use crate::game::Game;
use crate::transfer::DownloadProgress;

verus! {

/// Where a queued transfer stands. `Completed`, `Failed` and `Cancelled`
/// are terminal.
#[derive(Debug, Clone, Copy, PartialEq, Eq, Structural)]
pub enum DownloadStatus {
    Queued,
    Downloading,
    Completed,
    Failed,
    Cancelled,
}

/// One transfer in the queue.
#[derive(Debug, Clone, PartialEq)]
pub struct DownloadItem {
    pub operation_id: String,
    pub game: Game,
    pub status: DownloadStatus,
    pub progress: DownloadProgress,
    pub error: String,
}

/// Relies on `uuid::Uuid::new_v4` and its `Display`: a fresh random
/// identifier in hyphenated form.
#[verifier::external_body]
fn new_operation_id() -> (r: String)
    ensures
        r@.len() == 36,
{
    uuid::Uuid::new_v4().to_string()
}

impl DownloadItem {
    /// A queued item for `game` with a fresh operation identifier.
    pub fn new(game: Game) -> (r: DownloadItem)
        ensures
            r.game == game,
            r.status == DownloadStatus::Queued,
            r.progress.is_zero(),
            r.error@.len() == 0,
            r.operation_id@.len() == 36,
    {
        DownloadItem {
            operation_id: new_operation_id(),
            game,
            status: DownloadStatus::Queued,
            progress: DownloadProgress::new_zero(),
            error: String::new(),
        }
    }

    /// Name of the directory that holds this release's archives.
    pub fn game_hash(&self) -> (r: String)
        ensures
            r@ == release_hash(self.game.release_name@),
    {
        CatalogService::game_name_to_hash(self.game.release_name.as_str())
    }

    /// A copy that is equal field for field.
    pub fn duplicate(&self) -> (r: DownloadItem)
        ensures
            r == *self,
    {
        DownloadItem {
            operation_id: self.operation_id.clone(),
            game: self.game.duplicate(),
            status: self.status,
            progress: self.progress.duplicate(),
            error: self.error.clone(),
        }
    }
}

pub open spec fn pkg(it: DownloadItem) -> Seq<char> {
    it.game.package_name@
}

/// Some item of `items` is for package `p`.
pub open spec fn has_package(items: Seq<DownloadItem>, p: Seq<char>) -> bool {
    exists|i: int| 0 <= i < items.len() && pkg(#[trigger] items[i]) == p
}

/// No two items share a package.
pub open spec fn unique_packages(items: Seq<DownloadItem>) -> bool {
    forall|i: int, j: int|
        0 <= i < items.len() && 0 <= j < items.len() && i != j ==> pkg(#[trigger] items[i]) != pkg(
            #[trigger] items[j],
        )
}

/// The queue after an add of `it`: unchanged where its package is queued.
pub open spec fn added(items: Seq<DownloadItem>, it: DownloadItem) -> Seq<DownloadItem> {
    if has_package(items, pkg(it)) {
        items
    } else {
        items.push(it)
    }
}

/// Items kept by a removal of package `p`: all but those for `p` that are
/// not downloading.
pub open spec fn retained(items: Seq<DownloadItem>, p: Seq<char>) -> Seq<DownloadItem>
    decreases items.len(),
{
    if items.len() == 0 {
        Seq::empty()
    } else {
        let rest = retained(items.drop_last(), p);
        let it = items.last();
        if pkg(it) != p || it.status == DownloadStatus::Downloading {
            rest.push(it)
        } else {
            rest
        }
    }
}

/// Index of the first item for package `p`, or -1.
pub open spec fn index_of(items: Seq<DownloadItem>, p: Seq<char>, i: int) -> int
    decreases items.len() - i,
{
    if i < 0 || i >= items.len() {
        -1
    } else if pkg(items[i]) == p {
        i
    } else {
        index_of(items, p, i + 1)
    }
}

/// Index of the first item with status `s`, or -1.
pub open spec fn index_with(items: Seq<DownloadItem>, s: DownloadStatus, i: int) -> int
    decreases items.len() - i,
{
    if i < 0 || i >= items.len() {
        -1
    } else if items[i].status == s {
        i
    } else {
        index_with(items, s, i + 1)
    }
}

pub open spec fn min(a: int, b: int) -> int {
    if a <= b {
        a
    } else {
        b
    }
}

/// The queue with the item at `k` moved to position `n` (at most the end).
pub open spec fn moved(items: Seq<DownloadItem>, k: int, n: int) -> Seq<DownloadItem> {
    let rest = items.remove(k);
    rest.insert(min(n, rest.len() as int), items[k])
}

/// How a transfer ended, as the transfer backend reported it.
pub enum TransferOutcome {
    /// The backend finished the job successfully.
    Success,
    /// The backend finished the job with this error.
    BackendFailure(String),
    /// The job could not be run or followed: this error.
    TransportError(String),
}

/// The item after its transfer ended. Only a downloading item changes: an
/// item cancelled meanwhile, like any other, stays as it is.
pub open spec fn settled(it: DownloadItem, o: TransferOutcome) -> DownloadItem {
    if it.status != DownloadStatus::Downloading {
        it
    } else {
        match o {
            TransferOutcome::Success => DownloadItem {
                status: DownloadStatus::Completed,
                progress: DownloadProgress { percent_hundredths: 10000, ..it.progress },
                ..it
            },
            TransferOutcome::BackendFailure(e) => DownloadItem {
                status: DownloadStatus::Failed,
                error: e,
                ..it
            },
            TransferOutcome::TransportError(e) => DownloadItem {
                status: DownloadStatus::Failed,
                error: e,
                ..it
            },
        }
    }
}

/// The download queue and its scheduler flag. Package identifiers are
/// unique within the queue.
pub struct DownloadService {
    items: Vec<DownloadItem>,
    processing: bool,
    download_dir: String,
}

impl DownloadService {
    pub closed spec fn items_view(&self) -> Seq<DownloadItem> {
        self.items@
    }

    pub closed spec fn processing_view(&self) -> bool {
        self.processing
    }

    pub closed spec fn download_dir_view(&self) -> Seq<char> {
        self.download_dir@
    }

    pub open spec fn wf(&self) -> bool {
        unique_packages(self.items_view())
    }

    /// An empty, idle queue that downloads under `download_dir`.
    pub fn new(download_dir: &str) -> (r: Self)
        ensures
            r.items_view().len() == 0,
            !r.processing_view(),
            r.download_dir_view() == download_dir@,
            r.wf(),
    {
        DownloadService { items: Vec::new(), processing: false, download_dir: download_dir.to_owned() }
    }

    /// A snapshot of the queue.
    pub fn queue(&self) -> (r: Vec<DownloadItem>)
        ensures
            r@ == self.items_view(),
    {
        let mut out: Vec<DownloadItem> = Vec::new();
        let mut i: usize = 0;
        while i < self.items.len()
            invariant
                i <= self.items@.len(),
                out@ == self.items@.subrange(0, i as int),
            decreases self.items@.len() - i,
        {
            out.push(self.items[i].duplicate());
            assert(out@ =~= self.items@.subrange(0, i + 1));
            i = i + 1;
        }
        assert(self.items@.subrange(0, i as int) =~= self.items@);
        out
    }

    pub fn is_processing(&self) -> (r: bool)
        ensures
            r == self.processing_view(),
    {
        self.processing
    }

    pub fn download_dir(&self) -> (r: &str)
        ensures
            r@ == self.download_dir_view(),
    {
        self.download_dir.as_str()
    }

    /// Directory that a release of `game` downloads to.
    pub fn get_download_dir(&self, game: &Game) -> (r: String)
        ensures
            r@ == join_path(self.download_dir_view(), release_hash(game.release_name@)),
    {
        let h = CatalogService::game_name_to_hash(game.release_name.as_str());
        join_path_exec(self.download_dir.as_str(), h.as_str())
    }

    fn position_of(&self, p: &String) -> (r: Option<usize>)
        ensures
            match r {
                Some(k) => k < self.items_view().len() && index_of(self.items_view(), p@, 0)
                    == k as int,
                None => index_of(self.items_view(), p@, 0) == -1,
            },
    {
        let mut j: usize = 0;
        while j < self.items.len()
            invariant
                j <= self.items@.len(),
                index_of(self.items@, p@, 0) == index_of(self.items@, p@, j as int),
            decreases self.items@.len() - j,
        {
            if self.items[j].game.package_name == *p {
                return Some(j);
            }
            j = j + 1;
        }
        None
    }

    /// Appends `game` as a queued item unless an item for its package is
    /// already in the queue, whatever its release; true when appended.
    pub fn add_to_queue(&mut self, game: Game) -> (r: bool)
        requires
            old(self).wf(),
        ensures
            final(self).wf(),
            r == !has_package(old(self).items_view(), game.package_name@),
            final(self).items_view() == added(
                old(self).items_view(),
                final(self).items_view().last(),
            ),
            r ==> ({
                let l = final(self).items_view().last();
                l.game == game && l.status == DownloadStatus::Queued && l.error@.len() == 0
                    && l.progress.is_zero()
            }),
            !r ==> final(self).items_view() == old(self).items_view(),
            final(self).processing_view() == old(self).processing_view(),
            final(self).download_dir_view() == old(self).download_dir_view(),
    {
        proof {
            lemma_index_of_found(self.items@, game.package_name@);
        }
        match self.position_of(&game.package_name) {
            Some(k) => {
                proof {
                    lemma_index_of_is_match(self.items@, game.package_name@, 0);
                }
                false
            },
            None => {
                let it = DownloadItem::new(game);
                let ghost before = self.items@;
                self.items.push(it);
                assert(self.items@.last() == it);
                assert(self.items@ == before.push(it));
                assert(unique_packages(self.items@)) by {
                    assert forall|i: int, j: int|
                        0 <= i < self.items@.len() && 0 <= j < self.items@.len() && i != j
                            implies pkg(#[trigger] self.items@[i]) != pkg(
                            #[trigger] self.items@[j],
                        ) by {
                        if i < before.len() && j < before.len() {
                            assert(self.items@[i] == before[i]);
                            assert(self.items@[j] == before[j]);
                        } else if i < before.len() {
                            assert(self.items@[i] == before[i]);
                        } else {
                            assert(self.items@[j] == before[j]);
                        }
                    }
                }
                true
            },
        }
    }

    /// Removes the items of a package that are not downloading (a transfer in
    /// flight must be cancelled first); true when the queue got shorter.
    pub fn remove_from_queue(&mut self, package_name: &str) -> (r: bool)
        requires
            old(self).wf(),
        ensures
            final(self).wf(),
            final(self).items_view() == retained(old(self).items_view(), package_name@),
            r == (final(self).items_view().len() != old(self).items_view().len()),
            final(self).processing_view() == old(self).processing_view(),
            final(self).download_dir_view() == old(self).download_dir_view(),
    {
        let p = package_name.to_owned();
        let ghost before = self.items@;
        let mut kept: Vec<DownloadItem> = Vec::new();
        let mut i: usize = 0;
        while i < self.items.len()
            invariant
                i <= self.items@.len(),
                self.items@ == before,
                kept@ == retained(before.subrange(0, i as int), p@),
                kept@.len() <= i,
            decreases self.items@.len() - i,
        {
            let ghost pre = before.subrange(0, i as int);
            let ghost next = before.subrange(0, i + 1);
            assert(next.drop_last() =~= pre);
            let it = &self.items[i];
            if it.game.package_name != p || it.status == DownloadStatus::Downloading {
                kept.push(it.duplicate());
            }
            i = i + 1;
        }
        assert(before.subrange(0, i as int) =~= before);
        proof {
            lemma_retained_sub(before, p@);
        }
        let changed = kept.len() != self.items.len();
        self.items = kept;
        changed
    }

    /// Moves the item of a package to `min(new_position, len - 1)`; false
    /// when no item is for that package.
    pub fn reorder_queue(&mut self, package_name: &str, new_position: usize) -> (r: bool)
        requires
            old(self).wf(),
        ensures
            final(self).wf(),
            r == (index_of(old(self).items_view(), package_name@, 0) >= 0),
            r ==> final(self).items_view() == moved(
                old(self).items_view(),
                index_of(old(self).items_view(), package_name@, 0),
                new_position as int,
            ),
            !r ==> final(self).items_view() == old(self).items_view(),
            final(self).processing_view() == old(self).processing_view(),
            final(self).download_dir_view() == old(self).download_dir_view(),
    {
        let p = package_name.to_owned();
        match self.position_of(&p) {
            None => false,
            Some(k) => {
                let ghost before = self.items@;
                let item = self.items.remove(k);
                let target = if new_position < self.items.len() {
                    new_position
                } else {
                    self.items.len()
                };
                self.items.insert(target, item);
                assert(self.items@ =~= moved(before, k as int, new_position as int));
                proof {
                    lemma_moved_unique(before, k as int, new_position as int);
                }
                true
            },
        }
    }

    /// Marks the downloading item, if any, as cancelled; true when one was.
    /// The caller then asks the transfer backend to stop its jobs.
    pub fn cancel_current(&mut self) -> (r: bool)
        requires
            old(self).wf(),
        ensures
            final(self).wf(),
            ({
                let k = index_with(old(self).items_view(), DownloadStatus::Downloading, 0);
                &&& r == (k >= 0)
                &&& r ==> final(self).items_view() == old(self).items_view().update(
                    k,
                    DownloadItem { status: DownloadStatus::Cancelled, ..old(self).items_view()[k] },
                )
                &&& !r ==> final(self).items_view() == old(self).items_view()
            }),
            final(self).processing_view() == old(self).processing_view(),
            final(self).download_dir_view() == old(self).download_dir_view(),
    {
        match self.position_with(DownloadStatus::Downloading) {
            None => false,
            Some(k) => {
                let mut it = self.items[k].duplicate();
                it.status = DownloadStatus::Cancelled;
                let ghost before = self.items@;
                self.items.set(k, it);
                assert(unique_packages(self.items@)) by {
                    assert forall|i: int, j: int|
                        0 <= i < self.items@.len() && 0 <= j < self.items@.len() && i != j
                            implies pkg(#[trigger] self.items@[i]) != pkg(
                            #[trigger] self.items@[j],
                        ) by {
                        assert(pkg(self.items@[i]) == pkg(before[i]));
                        assert(pkg(self.items@[j]) == pkg(before[j]));
                    }
                }
                true
            },
        }
    }

    /// Claims the scheduler for one run; false when a run is in progress.
    pub fn begin_processing(&mut self) -> (r: bool)
        ensures
            r == !old(self).processing_view(),
            final(self).processing_view(),
            final(self).items_view() == old(self).items_view(),
            final(self).download_dir_view() == old(self).download_dir_view(),
    {
        if self.processing {
            false
        } else {
            self.processing = true;
            true
        }
    }

    /// Marks the first queued item as downloading and returns it. With
    /// nothing queued the run ends: the scheduler is released.
    pub fn start_next(&mut self) -> (r: Option<DownloadItem>)
        requires
            old(self).wf(),
        ensures
            final(self).wf(),
            ({
                let k = index_with(old(self).items_view(), DownloadStatus::Queued, 0);
                &&& k >= 0 ==> {
                    let it = DownloadItem {
                        status: DownloadStatus::Downloading,
                        ..old(self).items_view()[k]
                    };
                    &&& r == Some(it)
                    &&& final(self).items_view() == old(self).items_view().update(k, it)
                    &&& final(self).processing_view() == old(self).processing_view()
                }
                &&& k < 0 ==> r is None && final(self).items_view() == old(self).items_view()
                    && !final(self).processing_view()
            }),
            final(self).download_dir_view() == old(self).download_dir_view(),
    {
        match self.position_with(DownloadStatus::Queued) {
            None => {
                self.processing = false;
                None
            },
            Some(k) => {
                let mut it = self.items[k].duplicate();
                it.status = DownloadStatus::Downloading;
                let snapshot = it.duplicate();
                let ghost before = self.items@;
                self.items.set(k, it);
                proof {
                    lemma_update_keeps_unique(before, k as int, snapshot);
                }
                Some(snapshot)
            },
        }
    }

    /// Records a progress tick for the item of a package and returns it.
    pub fn update_progress(&mut self, package_name: &str, progress: DownloadProgress) -> (r: Option<
        DownloadItem,
    >)
        requires
            old(self).wf(),
        ensures
            final(self).wf(),
            ({
                let k = index_of(old(self).items_view(), package_name@, 0);
                &&& k >= 0 ==> {
                    let it = DownloadItem { progress: progress, ..old(self).items_view()[k] };
                    &&& r == Some(it)
                    &&& final(self).items_view() == old(self).items_view().update(k, it)
                }
                &&& k < 0 ==> r is None && final(self).items_view() == old(self).items_view()
            }),
            final(self).processing_view() == old(self).processing_view(),
            final(self).download_dir_view() == old(self).download_dir_view(),
    {
        let p = package_name.to_owned();
        match self.position_of(&p) {
            None => None,
            Some(k) => {
                let mut it = self.items[k].duplicate();
                it.progress = progress;
                let snapshot = it.duplicate();
                let ghost before = self.items@;
                self.items.set(k, it);
                proof {
                    lemma_update_keeps_unique(before, k as int, snapshot);
                }
                Some(snapshot)
            },
        }
    }

    /// Records how the transfer of a package ended and returns the item: a
    /// success completes it at 100%, a failure records the error, and an
    /// item no longer downloading (cancelled meanwhile) is left as it is.
    pub fn finish_download(&mut self, package_name: &str, outcome: TransferOutcome) -> (r: Option<
        DownloadItem,
    >)
        requires
            old(self).wf(),
        ensures
            final(self).wf(),
            ({
                let k = index_of(old(self).items_view(), package_name@, 0);
                &&& k >= 0 ==> {
                    let it = settled(old(self).items_view()[k], outcome);
                    &&& r == Some(it)
                    &&& final(self).items_view() == old(self).items_view().update(k, it)
                }
                &&& k < 0 ==> r is None && final(self).items_view() == old(self).items_view()
            }),
            final(self).processing_view() == old(self).processing_view(),
            final(self).download_dir_view() == old(self).download_dir_view(),
    {
        let p = package_name.to_owned();
        match self.position_of(&p) {
            None => None,
            Some(k) => {
                let mut it = self.items[k].duplicate();
                if it.status == DownloadStatus::Downloading {
                    match outcome {
                        TransferOutcome::Success => {
                            it.status = DownloadStatus::Completed;
                            it.progress.percent_hundredths = 10000;
                        },
                        TransferOutcome::BackendFailure(e) => {
                            it.status = DownloadStatus::Failed;
                            it.error = e;
                        },
                        TransferOutcome::TransportError(e) => {
                            it.status = DownloadStatus::Failed;
                            it.error = e;
                        },
                    }
                }
                let snapshot = it.duplicate();
                let ghost before = self.items@;
                self.items.set(k, it);
                proof {
                    lemma_update_keeps_unique(before, k as int, snapshot);
                }
                Some(snapshot)
            },
        }
    }

    fn position_with(&self, s: DownloadStatus) -> (r: Option<usize>)
        ensures
            match r {
                Some(k) => k < self.items_view().len() && index_with(self.items_view(), s, 0)
                    == k as int,
                None => index_with(self.items_view(), s, 0) == -1,
            },
    {
        let mut j: usize = 0;
        while j < self.items.len()
            invariant
                j <= self.items@.len(),
                index_with(self.items@, s, 0) == index_with(self.items@, s, j as int),
            decreases self.items@.len() - j,
        {
            if self.items[j].status == s {
                return Some(j);
            }
            j = j + 1;
        }
        None
    }
}

proof fn lemma_update_keeps_unique(items: Seq<DownloadItem>, k: int, it: DownloadItem)
    requires
        unique_packages(items),
        0 <= k < items.len(),
        pkg(it) == pkg(items[k]),
    ensures
        unique_packages(items.update(k, it)),
{
    let u = items.update(k, it);
    assert forall|i: int, j: int|
        0 <= i < u.len() && 0 <= j < u.len() && i != j implies pkg(#[trigger] u[i]) != pkg(
        #[trigger] u[j],
    ) by {
        assert(pkg(u[i]) == pkg(items[i]));
        assert(pkg(u[j]) == pkg(items[j]));
    }
}

pub proof fn lemma_index_of_is_match(items: Seq<DownloadItem>, p: Seq<char>, i: int)
    requires
        0 <= i,
    ensures
        index_of(items, p, i) >= 0 ==> i <= index_of(items, p, i) < items.len() && pkg(
            items[index_of(items, p, i)],
        ) == p,
        index_of(items, p, i) < 0 ==> index_of(items, p, i) == -1 && forall|j: int|
            i <= j < items.len() ==> pkg(#[trigger] items[j]) != p,
    decreases items.len() - i,
{
    if i < items.len() && pkg(items[i]) != p {
        lemma_index_of_is_match(items, p, i + 1);
    }
}

/// `index_of` finds an item exactly when the package is in the queue.
pub proof fn lemma_index_of_found(items: Seq<DownloadItem>, p: Seq<char>)
    ensures
        (index_of(items, p, 0) >= 0) == has_package(items, p),
{
    lemma_index_of_is_match(items, p, 0);
    if index_of(items, p, 0) >= 0 {
        let k = index_of(items, p, 0);
        assert(pkg(items[k]) == p);
    }
}

proof fn lemma_retained_sub(items: Seq<DownloadItem>, p: Seq<char>)
    requires
        unique_packages(items),
    ensures
        unique_packages(retained(items, p)),
        forall|i: int|
            0 <= i < retained(items, p).len() ==> exists|j: int|
                0 <= j < items.len() && #[trigger] retained(items, p)[i] == items[j],
        retained(items, p).len() <= items.len(),
    decreases items.len(),
{
    if items.len() > 0 {
        let init = items.drop_last();
        assert(unique_packages(init)) by {
            assert forall|i: int, j: int|
                0 <= i < init.len() && 0 <= j < init.len() && i != j implies pkg(
                #[trigger] init[i],
            ) != pkg(#[trigger] init[j]) by {
                assert(init[i] == items[i]);
                assert(init[j] == items[j]);
            }
        }
        lemma_retained_sub(init, p);
        let rest = retained(init, p);
        let it = items.last();
        if pkg(it) != p || it.status == DownloadStatus::Downloading {
            let r = rest.push(it);
            assert forall|i: int| 0 <= i < r.len() implies exists|j: int|
                0 <= j < items.len() && #[trigger] r[i] == items[j] by {
                if i < rest.len() {
                    let j = choose|j: int| 0 <= j < init.len() && rest[i] == init[j];
                    assert(r[i] == items[j]);
                } else {
                    assert(r[i] == items[items.len() - 1]);
                }
            }
            assert(unique_packages(r)) by {
                assert forall|a: int, b: int|
                    0 <= a < r.len() && 0 <= b < r.len() && a != b implies pkg(#[trigger] r[a])
                    != pkg(#[trigger] r[b]) by {
                    if a < rest.len() && b < rest.len() {
                        assert(r[a] == rest[a]);
                        assert(r[b] == rest[b]);
                    } else if a < rest.len() {
                        let j = choose|j: int| 0 <= j < init.len() && rest[a] == init[j];
                        assert(r[a] == items[j]);
                        assert(r[b] == items[items.len() - 1]);
                    } else {
                        let j = choose|j: int| 0 <= j < init.len() && rest[b] == init[j];
                        assert(r[b] == items[j]);
                        assert(r[a] == items[items.len() - 1]);
                    }
                }
            }
        } else {
            assert forall|i: int| 0 <= i < rest.len() implies exists|j: int|
                0 <= j < items.len() && #[trigger] rest[i] == items[j] by {
                let j = choose|j: int| 0 <= j < init.len() && rest[i] == init[j];
                assert(rest[i] == items[j]);
            }
        }
    }
}

proof fn lemma_moved_unique(items: Seq<DownloadItem>, k: int, n: int)
    requires
        unique_packages(items),
        0 <= k < items.len(),
        0 <= n,
    ensures
        unique_packages(moved(items, k, n)),
        moved(items, k, n).len() == items.len(),
{
    let rest = items.remove(k);
    let t = min(n, rest.len() as int);
    let m = moved(items, k, n);
    // position in `items` of entry `i` of the result
    let src = |i: int|
        if i == t {
            k
        } else {
            let r = if i < t {
                i
            } else {
                i - 1
            };
            if r < k {
                r
            } else {
                r + 1
            }
        };
    assert forall|i: int| 0 <= i < m.len() implies #[trigger] m[i] == items[src(i)] && 0 <= src(
        i,
    ) < items.len() by {
        if i < t {
            assert(m[i] == rest[i]);
        } else if i > t {
            assert(m[i] == rest[i - 1]);
        }
    }
    assert forall|a: int, b: int|
        0 <= a < m.len() && 0 <= b < m.len() && a != b implies pkg(#[trigger] m[a]) != pkg(
        #[trigger] m[b],
    ) by {
        assert(m[a] == items[src(a)]);
        assert(m[b] == items[src(b)]);
        assert(src(a) != src(b));
    }
}

/// Adding is idempotent on the package identifier: a second add of the same
/// package, whatever its release, leaves the queue as the first add left it;
/// from an empty queue the length is then 1.
pub proof fn lemma_add_idempotent(items: Seq<DownloadItem>, a: DownloadItem, b: DownloadItem)
    requires
        pkg(a) == pkg(b),
    ensures
        added(added(items, a), b) == added(items, a),
        items.len() == 0 ==> added(added(items, a), b).len() == 1,
{
    let once = added(items, a);
    if !has_package(items, pkg(a)) {
        assert(once[once.len() - 1] == a);
        assert(has_package(once, pkg(b)));
    } else {
        assert(has_package(once, pkg(b)));
    }
}

proof fn lemma_retained_without(items: Seq<DownloadItem>, p: Seq<char>)
    requires
        forall|i: int| 0 <= i < items.len() ==> pkg(#[trigger] items[i]) != p,
    ensures
        retained(items, p) == items,
    decreases items.len(),
{
    if items.len() > 0 {
        let init = items.drop_last();
        assert forall|i: int| 0 <= i < init.len() implies pkg(#[trigger] init[i]) != p by {
            assert(init[i] == items[i]);
        }
        lemma_retained_without(init, p);
        assert(init.push(items.last()) =~= items);
    }
}

/// A removal never drops a downloading item: for the item of package `p`
/// in a queue of unique packages, a downloading item stays and the queue is
/// unchanged; an item in any other state is taken out and nothing else is.
pub proof fn lemma_remove_by_status(items: Seq<DownloadItem>, k: int, p: Seq<char>)
    requires
        unique_packages(items),
        0 <= k < items.len(),
        pkg(items[k]) == p,
    ensures
        items[k].status == DownloadStatus::Downloading ==> retained(items, p) == items,
        items[k].status != DownloadStatus::Downloading ==> retained(items, p) == items.remove(k),
    decreases items.len(),
{
    let n = items.len() as int;
    let init = items.drop_last();
    assert(unique_packages(init)) by {
        assert forall|i: int, j: int|
            0 <= i < init.len() && 0 <= j < init.len() && i != j implies pkg(#[trigger] init[i])
            != pkg(#[trigger] init[j]) by {
            assert(init[i] == items[i]);
            assert(init[j] == items[j]);
        }
    }
    if k == n - 1 {
        assert forall|i: int| 0 <= i < init.len() implies pkg(#[trigger] init[i]) != p by {
            assert(init[i] == items[i]);
        }
        lemma_retained_without(init, p);
        assert(init.push(items.last()) =~= items);
        assert(items.remove(k) =~= init);
    } else {
        assert(init[k] == items[k]);
        lemma_remove_by_status(init, k, p);
        assert(pkg(items[n - 1]) != p);
        assert(init.push(items.last()) =~= items);
        assert(init.remove(k).push(items.last()) =~= items.remove(k));
    }
}

/// A move to a position at or past the end makes the item last; a move to
/// position 0 makes it first; the length never changes.
pub proof fn lemma_reorder_ends(items: Seq<DownloadItem>, k: int, n: int)
    requires
        0 <= k < items.len(),
        0 <= n,
    ensures
        moved(items, k, n).len() == items.len(),
        n >= items.len() ==> moved(items, k, n).last() == items[k],
        n == 0 ==> moved(items, k, n)[0] == items[k],
{
}

pub open spec fn status_text(s: DownloadStatus) -> Seq<char> {
    match s {
        DownloadStatus::Queued => "queued"@,
        DownloadStatus::Downloading => "downloading"@,
        DownloadStatus::Completed => "completed"@,
        DownloadStatus::Failed => "failed"@,
        DownloadStatus::Cancelled => "cancelled"@,
    }
}

/// The name of a status as the user interface shows it.
pub fn map_download_status(status: DownloadStatus) -> (r: &'static str)
    ensures
        r@ == status_text(status),
{
    match status {
        DownloadStatus::Queued => "queued",
        DownloadStatus::Downloading => "downloading",
        DownloadStatus::Completed => "completed",
        DownloadStatus::Failed => "failed",
        DownloadStatus::Cancelled => "cancelled",
    }
}

pub open spec fn is_terminal(s: DownloadStatus) -> bool {
    s == DownloadStatus::Completed || s == DownloadStatus::Failed || s == DownloadStatus::Cancelled
}

/// Terminal states are final: settling a transfer never changes an item in
/// a terminal state, and settles a downloading one into a terminal state.
pub proof fn lemma_terminal_is_final(it: DownloadItem, o: TransferOutcome)
    ensures
        is_terminal(it.status) ==> settled(it, o) == it,
        it.status == DownloadStatus::Downloading ==> is_terminal(settled(it, o).status),
        it.status == DownloadStatus::Queued ==> settled(it, o) == it,
{
}

} // verus!
