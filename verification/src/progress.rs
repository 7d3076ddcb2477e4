use vstd::prelude::*;
use vstd::arithmetic::div_mod::{lemma_div_is_ordered, lemma_div_multiples_vanish, lemma_div_pos_is_pos};
use vstd::arithmetic::mul::{lemma_mul_inequality, lemma_mul_is_commutative};
use crate::paths::{dec_rep, push_char, push_decimal};

verus! {

/// One item that could not be fetched and stored, with the reason.
#[derive(Clone, Debug)]
pub struct FailureRecord {
    pub book_name: String,
    pub chapter: u32,
    pub reason: String,
}

/// Shared progress of a run: how many items resolved well, which failed and
/// why, and the item most recently touched. Workers mutate it only through
/// the record operations below; a display consumer reads it.
#[derive(Clone, Debug)]
pub struct DownloadProgress {
    pub total_files: usize,
    pub downloaded: usize,
    pub current_book: String,
    pub current_chapter: u32,
    pub failed: Vec<FailureRecord>,
}

impl DownloadProgress {
    /// Resolved items never outnumber the planned ones.
    pub open spec fn wf(self) -> bool {
        self.downloaded + self.failed@.len() <= self.total_files
    }

    /// How many items have resolved, well or badly.
    pub open spec fn resolved_spec(self) -> int {
        self.downloaded + self.failed@.len()
    }

    /// Fresh progress for a run of `total_files` items: nothing resolved yet.
    pub fn new(total_files: usize) -> (r: Self)
        ensures
            r.wf(),
            r.total_files == total_files,
            r.downloaded == 0,
            r.failed@.len() == 0,
            r.current_book@ == Seq::<char>::empty(),
            r.current_chapter == 0,
    {
        DownloadProgress {
            total_files,
            downloaded: 0,
            current_book: String::new(),
            current_chapter: 0,
            failed: Vec::new(),
        }
    }

    /// How many items have resolved so far.
    pub fn resolved(&self) -> (n: usize)
        requires
            self.wf(),
        ensures
            n == self.resolved_spec(),
    {
        self.downloaded + self.failed.len()
    }

    /// Whether every planned item has resolved: the display loop's
    /// termination condition.
    pub fn is_complete(&self) -> (b: bool)
        requires
            self.wf(),
        ensures
            b == (self.resolved_spec() >= self.total_files),
    {
        self.downloaded + self.failed.len() >= self.total_files
    }

    /// One more item fetched and stored (or already present): count it and
    /// note it as the current position.
    pub fn record_success(&mut self, book_name: String, chapter: u32)
        requires
            old(self).wf(),
            old(self).resolved_spec() < old(self).total_files,
        ensures
            final(self).wf(),
            final(self).total_files == old(self).total_files,
            final(self).downloaded == old(self).downloaded + 1,
            final(self).failed@ == old(self).failed@,
            final(self).current_book@ == book_name@,
            final(self).current_chapter == chapter,
    {
        self.current_book = book_name;
        self.current_chapter = chapter;
        self.downloaded = self.downloaded + 1;
    }

    /// One more item failed: append its record and note it as the current
    /// position. No record is ever dropped or rewritten.
    pub fn record_failure(&mut self, book_name: String, chapter: u32, reason: String)
        requires
            old(self).wf(),
            old(self).resolved_spec() < old(self).total_files,
        ensures
            final(self).wf(),
            final(self).total_files == old(self).total_files,
            final(self).downloaded == old(self).downloaded,
            final(self).failed@.len() == old(self).failed@.len() + 1,
            final(self).failed@.drop_last() == old(self).failed@,
            final(self).failed@.last().book_name@ == book_name@,
            final(self).failed@.last().chapter == chapter,
            final(self).failed@.last().reason@ == reason@,
            final(self).current_book@ == book_name@,
            final(self).current_chapter == chapter,
    {
        self.current_book = book_name.clone();
        self.current_chapter = chapter;
        self.failed.push(FailureRecord { book_name, chapter, reason });
        proof {
            assert(final(self).failed@.drop_last() =~= old(self).failed@);
        }
    }
}

/// A sequence of `n` copies of one character.
pub open spec fn repeat_char(c: char, n: nat) -> Seq<char> {
    Seq::new(n, |i: int| c)
}

/// Cells of the fifty-cell bar that are filled at `completed` of `total`
/// items done; all of them when there is nothing to do.
pub open spec fn filled_cells(completed: int, total: int) -> int {
    if total == 0 {
        50
    } else if completed * 50 / total > 50 {
        50
    } else {
        completed * 50 / total
    }
}

/// Whole percentage of items done; one hundred when there is nothing to do.
pub open spec fn percent_done(completed: int, total: int) -> int {
    if total == 0 {
        100
    } else {
        completed * 100 / total
    }
}

/// The whole progress line: the fifty-cell proportional fill bar, then the
/// percentage, the resolved counts, the current position and the failure
/// count.
pub open spec fn render_spec(
    total: nat,
    downloaded: nat,
    book: Seq<char>,
    chapter: nat,
    failed_count: nat,
) -> Seq<char> {
    let filled = filled_cells(downloaded as int, total as int);
    "["@ + repeat_char('#', filled as nat) + repeat_char('-', (50 - filled) as nat) + "] "@
        + dec_rep(percent_done(downloaded as int, total as int) as nat) + "% | "@ + dec_rep(
        downloaded,
    ) + seq!['/'] + dec_rep(total) + " files | Current: "@ + book + " Ch."@ + dec_rep(chapter)
        + " | Failed: "@ + dec_rep(failed_count)
}

/// A ratio of a part to its whole, scaled by `k`, never exceeds `k`.
proof fn lemma_ratio_bound(d: int, t: int, k: int)
    requires
        0 <= d <= t,
        0 < t,
        0 <= k,
    ensures
        0 <= d * k / t <= k,
{
    lemma_mul_inequality(d, t, k);
    lemma_div_is_ordered(d * k, t * k, t);
    lemma_div_multiples_vanish(k, t);
    lemma_mul_is_commutative(t, k);
    lemma_div_pos_is_pos(d * k, t);
}

/// Filled cell count of the bar, as `filled_cells` gives it.
fn filled_of(downloaded: usize, total: usize) -> (r: usize)
    requires
        downloaded <= total,
    ensures
        r == filled_cells(downloaded as int, total as int),
        r <= 50,
{
    if total == 0 {
        50
    } else {
        proof {
            lemma_ratio_bound(downloaded as int, total as int, 50);
        }
        let w: u128 = (downloaded as u128) * 50 / (total as u128);
        w as usize
    }
}

/// Whole percentage done, as `percent_done` gives it.
fn percent_of(downloaded: usize, total: usize) -> (r: u64)
    requires
        downloaded <= total,
    ensures
        r == percent_done(downloaded as int, total as int),
        r <= 100,
{
    if total == 0 {
        100
    } else {
        proof {
            lemma_ratio_bound(downloaded as int, total as int, 100);
        }
        let w: u128 = (downloaded as u128) * 100 / (total as u128);
        w as u64
    }
}

fn push_repeat(s: &mut String, c: char, n: usize)
    ensures
        final(s)@ == old(s)@ + repeat_char(c, n as nat),
{
    let mut i: usize = 0;
    while i < n
        invariant
            i <= n,
            s@ =~= old(s)@ + repeat_char(c, i as nat),
        decreases n - i,
    {
        push_char(s, c);
        i = i + 1;
    }
    proof {
        assert(s@ =~= old(s)@ + repeat_char(c, n as nat));
    }
}

/// Render the progress line for a snapshot of the run. Pure formatting: the
/// result is exactly `render_spec` of the snapshot's fields.
pub fn render_line(p: &DownloadProgress) -> (r: String)
    requires
        p.wf(),
    ensures
        r@ == render_spec(
            p.total_files as nat,
            p.downloaded as nat,
            p.current_book@,
            p.current_chapter as nat,
            p.failed@.len(),
        ),
{
    let total = p.total_files;
    let downloaded = p.downloaded;
    let filled: usize = filled_of(downloaded, total);
    let percent: u64 = percent_of(downloaded, total);
    let mut s = String::from_str("[");
    push_repeat(&mut s, '#', filled);
    push_repeat(&mut s, '-', 50 - filled);
    s.append("] ");
    push_decimal(&mut s, percent);
    s.append("% | ");
    push_decimal(&mut s, downloaded as u64);
    push_char(&mut s, '/');
    push_decimal(&mut s, total as u64);
    s.append(" files | Current: ");
    s.append(p.current_book.as_str());
    s.append(" Ch.");
    push_decimal(&mut s, p.current_chapter as u64);
    s.append(" | Failed: ");
    push_decimal(&mut s, p.failed.len() as u64);
    proof {
        assert(s@ =~= render_spec(
            p.total_files as nat,
            p.downloaded as nat,
            p.current_book@,
            p.current_chapter as nat,
            p.failed@.len(),
        ));
    }
    s
}

} // verus!
