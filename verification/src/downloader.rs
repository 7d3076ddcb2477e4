use vstd::prelude::*;
use crate::catalog::{bible_catalog, catalog_wf, total_chapters, BibleBook};
use crate::orchestrator::{items_model, items_of_books, WorkItem};
use crate::paths::url_spec;

verus! {

/// A run's configuration: the remote base address, the output root and the
/// catalog, ascending by book id. The network client and the lock around
/// the shared progress belong to the unverified runner that drives a run
/// with this configuration.
pub struct BibleAudioDownloader {
    pub base_url: String,
    pub output_dir: String,
    pub bible_books: Vec<BibleBook>,
}

impl BibleAudioDownloader {
    /// The catalog is the fixed table, whose chapter counts sum to the
    /// fixed total of files a full run resolves.
    pub open spec fn wf(self) -> bool {
        &&& catalog_wf(self.bible_books@)
        &&& total_chapters(self.bible_books@) == 1189
    }

    /// A downloader aimed at the fixed remote mirror, writing under the
    /// given output root, with the full catalog.
    pub fn new(output_dir: &str) -> (r: Self)
        ensures
            r.wf(),
            r.base_url@ == "https://www.wordproaudio.net/bibles/app/audio/42"@,
            r.output_dir@ == output_dir@,
    {
        BibleAudioDownloader {
            base_url: String::from_str("https://www.wordproaudio.net/bibles/app/audio/42"),
            output_dir: String::from_str(output_dir),
            bible_books: bible_catalog(),
        }
    }

    /// The request target for one chapter of one book under this
    /// downloader's base address.
    pub fn chapter_url(&self, book_id: u32, chapter: u32) -> (r: String)
        ensures
            r@ == url_spec(self.base_url@, book_id as nat, chapter as nat),
    {
        crate::paths::chapter_url(self.base_url.as_str(), book_id, chapter)
    }

    /// How many files a full run resolves: the catalog's fixed total.
    pub fn total_files(&self) -> (n: usize)
        requires
            self.wf(),
        ensures
            n == total_chapters(self.bible_books@),
            n == 1189,
    {
        match crate::catalog::total_files(&self.bible_books) {
            Some(n) => n,
            None => 0,  // unreachable: the catalog's total fits
        }
    }

    /// Every work item of the catalog, ascending by book id and chapter.
    pub fn work_items(&self) -> (r: Vec<WorkItem>)
        requires
            self.wf(),
        ensures
            items_model(r@) == items_of_books(self.bible_books@),
            r@.len() == total_chapters(self.bible_books@),
    {
        proof {
            crate::orchestrator::lemma_items_len(self.bible_books@);
        }
        crate::orchestrator::work_items(&self.bible_books)
    }
}

} // verus!
