use vstd::prelude::*;
use crate::catalog::{total_chapters, BibleBook};
use crate::paths::dec_rep;
use crate::paths::push_decimal;
use crate::progress::{DownloadProgress, FailureRecord};

verus! {

/// One addressable remote resource: a chapter of one book, to be fetched
/// and stored exactly once.
#[derive(Clone, Debug)]
pub struct WorkItem {
    pub book_id: u32,
    pub book_name: String,
    pub chapter: u32,
}

/// The spec shape of a work item: id, name and chapter number.
pub open spec fn item_model(w: WorkItem) -> (u32, Seq<char>, u32) {
    (w.book_id, w.book_name@, w.chapter)
}

/// The spec shapes of a sequence of work items.
pub open spec fn items_model(ws: Seq<WorkItem>) -> Seq<(u32, Seq<char>, u32)> {
    ws.map_values(|w: WorkItem| item_model(w))
}

/// Work items of a single book: one per chapter, chapters ascending from one.
pub open spec fn items_of_book(b: BibleBook) -> Seq<(u32, Seq<char>, u32)> {
    Seq::new(b.chapters as nat, |j: int| (b.id, b.name@, (j + 1) as u32))
}

/// Work items of a book sequence, in catalog order: every chapter of the
/// first book, then every chapter of the second, and so on.
pub open spec fn items_of_books(books: Seq<BibleBook>) -> Seq<(u32, Seq<char>, u32)>
    decreases books.len(),
{
    if books.len() == 0 {
        Seq::empty()
    } else {
        items_of_books(books.drop_last()) + items_of_book(books.last())
    }
}

/// There are exactly as many work items as the chapter counts sum to.
pub proof fn lemma_items_len(books: Seq<BibleBook>)
    ensures
        items_of_books(books).len() == total_chapters(books),
    decreases books.len(),
{
    if books.len() > 0 {
        lemma_items_len(books.drop_last());
    }
}

proof fn lemma_items_take_succ(books: Seq<BibleBook>, i: int)
    requires
        0 <= i < books.len(),
    ensures
        items_of_books(books.take(i + 1)) == items_of_books(books.take(i)) + items_of_book(
            books[i],
        ),
{
    assert(books.take(i + 1).drop_last() =~= books.take(i));
    assert(books.take(i + 1).last() == books[i]);
}

/// Enumerate every work item of the given books, ascending by book order
/// and, within one book, by chapter.
pub fn work_items(books: &Vec<BibleBook>) -> (r: Vec<WorkItem>)
    requires
        total_chapters(books@) <= usize::MAX,
    ensures
        items_model(r@) == items_of_books(books@),
{
    let mut v: Vec<WorkItem> = Vec::new();
    let mut i: usize = 0;
    while i < books.len()
        invariant
            i <= books@.len(),
            items_model(v@) =~= items_of_books(books@.take(i as int)),
        decreases books@.len() - i,
    {
        let book = &books[i];
        let chapters = book.chapters;
        let mut j: u32 = 0;
        while j < chapters
            invariant
                j <= chapters,
                i < books@.len(),
                *book == books@[i as int],
                chapters == books@[i as int].chapters,
                items_model(v@) =~= items_of_books(books@.take(i as int)) + items_of_book(
                    books@[i as int],
                ).take(j as int),
            decreases chapters - j,
        {
            let ghost prev = v@;
            let w = WorkItem { book_id: book.id, book_name: book.name.clone(), chapter: j + 1 };
            let ghost wg = w;
            v.push(w);
            proof {
                let b = books@[i as int];
                assert(items_model(v@) =~= items_model(prev).push(
                    (b.id, b.name@, (j + 1) as u32),
                ));
                assert(items_of_book(b).take(j as int + 1) =~= items_of_book(b).take(
                    j as int,
                ).push((b.id, b.name@, (j + 1) as u32)));
                assert(items_model(v@) =~= items_of_books(books@.take(i as int))
                    + items_of_book(b).take(j as int + 1));
            }
            j = j + 1;
        }
        proof {
            lemma_items_take_succ(books@, i as int);
            assert(items_of_book(books@[i as int]).take(chapters as int) =~= items_of_book(
                books@[i as int],
            ));
        }
        i = i + 1;
    }
    proof {
        assert(books@.take(books@.len() as int) =~= books@);
    }
    v
}

/// Why one item failed: the transport failed, the remote answered with a
/// non-success status, or the local write failed.
#[derive(Clone, Debug)]
pub enum DownloadError {
    Transport(String),
    Remote(u16),
    Storage(String),
}

/// The human-readable reason recorded for an error.
pub open spec fn describe_spec(e: DownloadError) -> Seq<char> {
    match e {
        DownloadError::Transport(m) => m@,
        DownloadError::Remote(status) => "HTTP error: "@ + dec_rep(status as nat),
        DownloadError::Storage(m) => m@,
    }
}

impl DownloadError {
    /// The reason string for this error.
    pub fn describe(&self) -> (r: String)
        ensures
            r@ == describe_spec(*self),
    {
        match self {
            DownloadError::Transport(m) => m.clone(),
            DownloadError::Remote(status) => {
                let mut s = String::from_str("HTTP error: ");
                push_decimal(&mut s, *status as u64);
                s
            },
            DownloadError::Storage(m) => m.clone(),
        }
    }
}

/// Whether an HTTP status signals success.
pub open spec fn is_success_status(status: u16) -> bool {
    200 <= status < 300
}

/// Accept exactly the success statuses; refuse any other with a remote
/// error carrying the status.
pub fn classify_status(status: u16) -> (r: Result<(), DownloadError>)
    ensures
        r is Ok <==> is_success_status(status),
        r is Err ==> r == Result::<(), DownloadError>::Err(DownloadError::Remote(status)),
{
    if 200 <= status && status < 300 {
        Ok(())
    } else {
        Err(DownloadError::Remote(status))
    }
}

/// Whether the item must be fetched: exactly when its target is absent.
/// An item whose target already exists is skipped without any request.
pub fn should_fetch(exists: bool) -> (b: bool)
    ensures
        b == !exists,
{
    !exists
}

/// How one work item resolved.
#[derive(Clone, Debug)]
pub enum ItemResolution {
    /// The target file already existed: nothing fetched, counted as done.
    AlreadyPresent,
    /// Fetched and stored.
    Downloaded,
    /// Fetch or store failed, with the reason.
    Failed(String),
}

/// Whether a resolution counts toward `downloaded`. An already-present
/// target counts: a later run owes the same totals as the first.
pub open spec fn counts_as_downloaded(r: ItemResolution) -> bool {
    !(r is Failed)
}

/// The reason a failed resolution carries.
pub open spec fn failure_reason(r: ItemResolution) -> Seq<char> {
    match r {
        ItemResolution::Failed(m) => m@,
        _ => Seq::empty(),
    }
}

/// The failure resolution for an error: it carries the error's description.
pub fn fail_with(e: &DownloadError) -> (r: ItemResolution)
    ensures
        r is Failed,
        failure_reason(r) == describe_spec(*e),
{
    ItemResolution::Failed(e.describe())
}

/// Feed one item's resolution to the progress: exactly one of the two
/// counters grows, by one, and the current position moves to the item.
pub fn apply_resolution(
    p: &mut DownloadProgress,
    book_name: String,
    chapter: u32,
    res: &ItemResolution,
)
    requires
        old(p).wf(),
        old(p).resolved_spec() < old(p).total_files,
    ensures
        final(p).wf(),
        final(p).total_files == old(p).total_files,
        final(p).resolved_spec() == old(p).resolved_spec() + 1,
        counts_as_downloaded(*res) ==> final(p).downloaded == old(p).downloaded + 1
            && final(p).failed@ == old(p).failed@,
        !counts_as_downloaded(*res) ==> {
            &&& final(p).downloaded == old(p).downloaded
            &&& final(p).failed@.len() == old(p).failed@.len() + 1
            &&& final(p).failed@.drop_last() == old(p).failed@
            &&& final(p).failed@.last().book_name@ == book_name@
            &&& final(p).failed@.last().chapter == chapter
            &&& final(p).failed@.last().reason@ == failure_reason(*res)
        },
        final(p).current_book@ == book_name@,
        final(p).current_chapter == chapter,
{
    match res {
        ItemResolution::Failed(reason) => p.record_failure(book_name, chapter, reason.clone()),
        _ => p.record_success(book_name, chapter),
    }
}

/// How many of the resolutions count as downloaded.
pub open spec fn downloaded_model(rs: Seq<ItemResolution>) -> int
    decreases rs.len(),
{
    if rs.len() == 0 {
        0
    } else {
        downloaded_model(rs.drop_last()) + if counts_as_downloaded(rs.last()) {
            1int
        } else {
            0int
        }
    }
}

/// How many of the resolutions failed.
pub open spec fn failed_model(rs: Seq<ItemResolution>) -> int
    decreases rs.len(),
{
    if rs.len() == 0 {
        0
    } else {
        failed_model(rs.drop_last()) + if counts_as_downloaded(rs.last()) {
            0int
        } else {
            1int
        }
    }
}

/// The failure records a run leaves, in resolution order: one per failed
/// item, naming the item and carrying the reason.
pub open spec fn failures_model(
    items: Seq<(u32, Seq<char>, u32)>,
    rs: Seq<ItemResolution>,
) -> Seq<(Seq<char>, u32, Seq<char>)>
    decreases rs.len(),
{
    if rs.len() == 0 || items.len() == 0 {
        Seq::empty()
    } else {
        let pre = failures_model(items.drop_last(), rs.drop_last());
        if rs.last() is Failed {
            pre.push((items.last().1, items.last().2, failure_reason(rs.last())))
        } else {
            pre
        }
    }
}

/// The spec shape of the failure records: name, chapter and reason.
pub open spec fn failures_view(fs: Seq<FailureRecord>) -> Seq<(Seq<char>, u32, Seq<char>)> {
    fs.map_values(|f: FailureRecord| (f.book_name@, f.chapter, f.reason@))
}

/// Every resolution lands in exactly one of the two counters: however the
/// individual items went, downloaded plus failed equals the items resolved.
pub proof fn lemma_accounting(rs: Seq<ItemResolution>)
    ensures
        downloaded_model(rs) + failed_model(rs) == rs.len(),
    decreases rs.len(),
{
    if rs.len() > 0 {
        lemma_accounting(rs.drop_last());
    }
}

/// How many fetches a run needs, given which targets already exist: one
/// per absent target.
pub open spec fn fetches_needed(exists: Seq<bool>) -> int
    decreases exists.len(),
{
    if exists.len() == 0 {
        0
    } else {
        fetches_needed(exists.drop_last()) + if exists.last() {
            0int
        } else {
            1int
        }
    }
}

/// Idempotence of a completed run: when every target already exists, the
/// run performs no fetch at all.
pub proof fn lemma_rerun_needs_no_fetch(exists: Seq<bool>)
    requires
        forall|i: int| 0 <= i < exists.len() ==> exists[i],
    ensures
        fetches_needed(exists) == 0,
    decreases exists.len(),
{
    if exists.len() > 0 {
        lemma_rerun_needs_no_fetch(exists.drop_last());
    }
}

/// Drive a whole run's accounting in enumeration order, one resolution per
/// work item. This is the sequential model of the concurrent run: the pool
/// changes only the order in which resolutions arrive, never the final
/// counts nor which items the failure list names.
pub fn run_schedule(items: &Vec<WorkItem>, resolutions: &Vec<ItemResolution>) -> (p:
    DownloadProgress)
    requires
        items@.len() == resolutions@.len(),
    ensures
        p.wf(),
        p.total_files == items@.len(),
        p.downloaded == downloaded_model(resolutions@),
        p.failed@.len() == failed_model(resolutions@),
        failures_view(p.failed@) == failures_model(items_model(items@), resolutions@),
        p.downloaded + p.failed@.len() == p.total_files,
        items@.len() > 0 ==> p.current_book@ == items_model(items@).last().1
            && p.current_chapter == items_model(items@).last().2,
{
    let ghost im = items_model(items@);
    let ghost rs = resolutions@;
    let mut p = DownloadProgress::new(items.len());
    let mut k: usize = 0;
    while k < items.len()
        invariant
            items@.len() == rs.len(),
            rs == resolutions@,
            im == items_model(items@),
            k <= items@.len(),
            p.total_files == items@.len(),
            p.downloaded == downloaded_model(rs.take(k as int)),
            p.failed@.len() == failed_model(rs.take(k as int)),
            failures_view(p.failed@) =~= failures_model(im.take(k as int), rs.take(k as int)),
            k > 0 ==> p.current_book@ == im[k as int - 1].1 && p.current_chapter == im[k as int
                - 1].2,
        decreases items@.len() - k,
    {
        proof {
            lemma_accounting(rs.take(k as int));
        }
        let item = &items[k];
        let res = &resolutions[k];
        apply_resolution(&mut p, item.book_name.clone(), item.chapter, res);
        proof {
            assert(rs.take(k + 1).drop_last() =~= rs.take(k as int));
            assert(im.take(k + 1).drop_last() =~= im.take(k as int));
            assert(rs.take(k + 1).last() == rs[k as int]);
            assert(im.take(k + 1).last() == im[k as int]);
            if rs[k as int] is Failed {
                assert(failures_view(p.failed@) =~= failures_model(
                    im.take(k + 1),
                    rs.take(k + 1),
                ));
            } else {
                assert(failures_view(p.failed@) =~= failures_model(
                    im.take(k + 1),
                    rs.take(k + 1),
                ));
            }
        }
        k = k + 1;
    }
    proof {
        assert(rs.take(items@.len() as int) =~= rs);
        assert(im.take(items@.len() as int) =~= im);
        lemma_accounting(rs);
    }
    p
}

/// The counting admission side of the worker pool: at most `limit` work
/// items hold a slot at once. The live pool suspends a caller instead of
/// refusing; this model answers whether a slot was granted, which is all
/// the accounting needs.
pub struct WorkerPool {
    pub active: usize,
    pub limit: usize,
}

impl WorkerPool {
    /// Never more slots held than the pool's capacity.
    pub open spec fn wf(self) -> bool {
        self.active <= self.limit
    }

    /// A fresh pool of the given capacity, with no slot held.
    pub fn new(limit: usize) -> (g: Self)
        ensures
            g.wf(),
            g.limit == limit,
            g.active == 0,
    {
        WorkerPool { active: 0, limit }
    }

    /// Grant a slot exactly when one is free.
    pub fn try_acquire(&mut self) -> (granted: bool)
        requires
            old(self).wf(),
        ensures
            final(self).wf(),
            final(self).limit == old(self).limit,
            granted ==> old(self).active < old(self).limit
                && final(self).active == old(self).active + 1,
            !granted ==> old(self).active == old(self).limit
                && final(self).active == old(self).active,
    {
        if self.active < self.limit {
            self.active = self.active + 1;
            true
        } else {
            false
        }
    }

    /// Hand a slot back.
    pub fn release(&mut self)
        requires
            old(self).wf(),
            old(self).active >= 1,
        ensures
            final(self).wf(),
            final(self).limit == old(self).limit,
            final(self).active == old(self).active - 1,
    {
        self.active = self.active - 1;
    }
}

/// Slots held after a sequence of pool events (true a granted acquire,
/// false a release), starting idle.
pub open spec fn active_after(events: Seq<bool>, limit: int) -> int
    decreases events.len(),
{
    if events.len() == 0 {
        0
    } else {
        let a = active_after(events.drop_last(), limit);
        if events.last() {
            if a < limit {
                a + 1
            } else {
                a
            }
        } else {
            if a > 0 {
                a - 1
            } else {
                0
            }
        }
    }
}

/// However acquires and releases interleave, the number of slots held
/// never exceeds the pool's capacity: at most that many work items are in
/// flight at any moment.
pub proof fn lemma_pool_bounded(events: Seq<bool>, limit: int)
    requires
        limit >= 0,
    ensures
        0 <= active_after(events, limit) <= limit,
    decreases events.len(),
{
    if events.len() > 0 {
        lemma_pool_bounded(events.drop_last(), limit);
    }
}

} // verus!
