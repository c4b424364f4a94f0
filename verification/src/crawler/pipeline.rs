//! The tally of the crawl-and-import pipeline and its unit-based progress.
//!
//! Every word counts for two units of progress: one when its crawl ends and
//! one when its import ends. A word whose crawl failed is never imported, and
//! both of its units are counted at once.
use vstd::prelude::*;

verus! {

/// How the pipeline runs: where to import, and how many workers and queue
/// slots to use.
pub struct PipelineConfig {
    pub anki_url: String,
    pub deck_name: String,
    pub model_name: String,
    pub crawl_concurrency: usize,
    pub import_concurrency: usize,
    pub import_queue_capacity: usize,
}

/// At least one.
pub open spec fn at_least_one(n: usize) -> usize {
    if n == 0 {
        1
    } else {
        n
    }
}

fn max_one(n: usize) -> (r: usize)
    ensures
        r == at_least_one(n),
{
    if n == 0 {
        1
    } else {
        n
    }
}

impl PipelineConfig {
    /// The number of crawl workers: the configured number, at least one.
    pub fn crawl_workers(&self) -> (r: usize)
        ensures
            r == at_least_one(self.crawl_concurrency),
    {
        max_one(self.crawl_concurrency)
    }

    /// The number of import workers: the configured number, at least one.
    pub fn import_workers(&self) -> (r: usize)
        ensures
            r == at_least_one(self.import_concurrency),
    {
        max_one(self.import_concurrency)
    }

    /// The capacity of the queue between the stages, at least one.
    pub fn import_queue_bound(&self) -> (r: usize)
        ensures
            r == at_least_one(self.import_queue_capacity),
    {
        max_one(self.import_queue_capacity)
    }
}

/// A word that was imported, with the id of its new note.
#[derive(Debug, Clone)]
pub struct ImportedWord {
    pub word: String,
    pub note_id: i64,
}

/// A word that failed, the stage it failed in and why.
#[derive(Debug, Clone)]
pub struct FailedWord {
    pub input: String,
    pub stage: String,
    pub error: String,
}

/// The counts of the pipeline and the words it imported or lost.
#[derive(Debug, Clone)]
pub struct PipelineSummary {
    pub total_words: usize,
    pub crawl_success: usize,
    pub crawl_failed: usize,
    pub import_success: usize,
    pub import_failed: usize,
    pub import_skipped: usize,
    pub imported_words: Vec<ImportedWord>,
    pub failed_words: Vec<FailedWord>,
}

/// The progress units of a run over `total_words` words: two per word.
pub open spec fn spec_total_units(total_words: int) -> int {
    2 * total_words
}

/// The progress bar's length for `total_words` words.
pub fn total_units(total_words: usize) -> (r: u64)
    requires
        total_words <= usize::MAX / 2,
    ensures
        r == spec_total_units(total_words as int),
{
    (total_words * 2) as u64
}

impl PipelineSummary {
    /// The units of progress completed: one per ended crawl or import, and
    /// two for a failed crawl (its import is skipped).
    pub open spec fn completed_units(self) -> int {
        self.crawl_success + 2 * self.crawl_failed + self.import_success + self.import_failed
    }

    /// The summary is consistent with some order of crawl and import events:
    /// no more crawls than words, no more imports than successful crawls,
    /// one skipped import per failed crawl, one record per import and per
    /// failure.
    pub open spec fn wf(self) -> bool {
        &&& self.crawl_success + self.crawl_failed <= self.total_words
        &&& self.import_success + self.import_failed <= self.crawl_success
        &&& self.import_skipped == self.crawl_failed
        &&& self.imported_words@.len() == self.import_success
        &&& self.failed_words@.len() == self.crawl_failed + self.import_failed
    }

    /// A word is still waiting for its crawl.
    pub open spec fn crawl_pending(self) -> bool {
        self.crawl_success + self.crawl_failed < self.total_words
    }

    /// A crawled word is still waiting for its import.
    pub open spec fn import_pending(self) -> bool {
        self.import_success + self.import_failed < self.crawl_success
    }

    /// Every word has been crawled and every crawled word imported or failed.
    pub open spec fn finished(self) -> bool {
        &&& self.crawl_success + self.crawl_failed == self.total_words
        &&& self.import_success + self.import_failed == self.crawl_success
    }

    /// The summary of a run over no words.
    pub fn empty() -> (r: Self)
        ensures
            r.total_words == 0,
            r.crawl_success == 0,
            r.crawl_failed == 0,
            r.import_success == 0,
            r.import_failed == 0,
            r.import_skipped == 0,
            r.imported_words@.len() == 0,
            r.failed_words@.len() == 0,
            r.wf(),
            r.finished(),
    {
        PipelineSummary {
            total_words: 0,
            crawl_success: 0,
            crawl_failed: 0,
            import_success: 0,
            import_failed: 0,
            import_skipped: 0,
            imported_words: Vec::new(),
            failed_words: Vec::new(),
        }
    }

    /// The summary at the start of a run over `total_words` words.
    pub fn start(total_words: usize) -> (r: Self)
        ensures
            r.total_words == total_words,
            r.crawl_success == 0,
            r.crawl_failed == 0,
            r.import_success == 0,
            r.import_failed == 0,
            r.import_skipped == 0,
            r.imported_words@.len() == 0,
            r.failed_words@.len() == 0,
            r.wf(),
            r.completed_units() == 0,
    {
        PipelineSummary { total_words, ..Self::empty() }
    }

    /// A crawl ended with an entry: one unit of progress.
    pub fn record_crawl_ok(&mut self) -> (units: u64)
        requires
            old(self).crawl_success < usize::MAX,
        ensures
            units == 1,
            *final(self) == (PipelineSummary {
                crawl_success: (old(self).crawl_success + 1) as usize,
                ..*old(self)
            }),
            final(self).completed_units() == old(self).completed_units() + units,
            old(self).wf() && old(self).crawl_pending() ==> final(self).wf(),
            summary_counts(*final(self)) == step_counts(
                summary_counts(*old(self)),
                ProgressEvent::CrawlOk,
            ),
            units == event_units(ProgressEvent::CrawlOk),
    {
        self.crawl_success = self.crawl_success + 1;
        1
    }

    /// A crawl failed: the word's import is skipped, the failure recorded,
    /// and both of its units of progress are done.
    pub fn record_crawl_failed(&mut self, input: String, error: String) -> (units: u64)
        requires
            old(self).crawl_failed < usize::MAX,
            old(self).import_skipped < usize::MAX,
        ensures
            units == 2,
            final(self).total_words == old(self).total_words,
            final(self).crawl_success == old(self).crawl_success,
            final(self).crawl_failed == old(self).crawl_failed + 1,
            final(self).import_success == old(self).import_success,
            final(self).import_failed == old(self).import_failed,
            final(self).import_skipped == old(self).import_skipped + 1,
            final(self).imported_words@ == old(self).imported_words@,
            final(self).failed_words@.len() == old(self).failed_words@.len() + 1,
            forall|k: int|
                0 <= k < old(self).failed_words@.len() ==> #[trigger] final(self).failed_words@[k]
                    == old(self).failed_words@[k],
            ({
                let f = final(self).failed_words@.last();
                f.input@ == input@ && f.stage@ == "crawl"@ && f.error@ == error@
            }),
            final(self).completed_units() == old(self).completed_units() + units,
            old(self).wf() && old(self).crawl_pending() ==> final(self).wf(),
            summary_counts(*final(self)) == step_counts(
                summary_counts(*old(self)),
                ProgressEvent::CrawlFailed,
            ),
            units == event_units(ProgressEvent::CrawlFailed),
    {
        self.crawl_failed = self.crawl_failed + 1;
        self.import_skipped = self.import_skipped + 1;
        self.failed_words.push(FailedWord { input, stage: "crawl".to_owned(), error });
        2
    }

    /// A crawled entry could not be handed to the import stage: counted as a
    /// failed import, one unit of progress.
    pub fn record_import_queue_closed(&mut self) -> (units: u64)
        requires
            old(self).import_failed < usize::MAX,
        ensures
            units == 1,
            final(self).total_words == old(self).total_words,
            final(self).crawl_success == old(self).crawl_success,
            final(self).crawl_failed == old(self).crawl_failed,
            final(self).import_success == old(self).import_success,
            final(self).import_failed == old(self).import_failed + 1,
            final(self).import_skipped == old(self).import_skipped,
            final(self).imported_words@ == old(self).imported_words@,
            final(self).failed_words@.len() == old(self).failed_words@.len() + 1,
            forall|k: int|
                0 <= k < old(self).failed_words@.len() ==> #[trigger] final(self).failed_words@[k]
                    == old(self).failed_words@[k],
            ({
                let f = final(self).failed_words@.last();
                f.input@ == "<pipeline>"@ && f.stage@ == "import"@ && f.error@
                    == "Import queue closed unexpectedly"@
            }),
            final(self).completed_units() == old(self).completed_units() + units,
            old(self).wf() && old(self).import_pending() ==> final(self).wf(),
            summary_counts(*final(self)) == step_counts(
                summary_counts(*old(self)),
                ProgressEvent::ImportQueueClosed,
            ),
            units == event_units(ProgressEvent::ImportQueueClosed),
    {
        self.import_failed = self.import_failed + 1;
        self.failed_words.push(
            FailedWord {
                input: "<pipeline>".to_owned(),
                stage: "import".to_owned(),
                error: "Import queue closed unexpectedly".to_owned(),
            },
        );
        1
    }

    /// An import ended with a new note: one unit of progress.
    pub fn record_import_ok(&mut self, word: String, note_id: i64) -> (units: u64)
        requires
            old(self).import_success < usize::MAX,
        ensures
            units == 1,
            final(self).total_words == old(self).total_words,
            final(self).crawl_success == old(self).crawl_success,
            final(self).crawl_failed == old(self).crawl_failed,
            final(self).import_success == old(self).import_success + 1,
            final(self).import_failed == old(self).import_failed,
            final(self).import_skipped == old(self).import_skipped,
            final(self).failed_words@ == old(self).failed_words@,
            final(self).imported_words@.len() == old(self).imported_words@.len() + 1,
            forall|k: int|
                0 <= k < old(self).imported_words@.len() ==> #[trigger] final(self).imported_words@[k]
                    == old(self).imported_words@[k],
            final(self).imported_words@.last().word@ == word@,
            final(self).imported_words@.last().note_id == note_id,
            final(self).completed_units() == old(self).completed_units() + units,
            old(self).wf() && old(self).import_pending() ==> final(self).wf(),
            summary_counts(*final(self)) == step_counts(
                summary_counts(*old(self)),
                ProgressEvent::ImportOk,
            ),
            units == event_units(ProgressEvent::ImportOk),
    {
        self.import_success = self.import_success + 1;
        self.imported_words.push(ImportedWord { word, note_id });
        1
    }

    /// An import failed: the failure recorded, one unit of progress.
    pub fn record_import_failed(&mut self, input: String, error: String) -> (units: u64)
        requires
            old(self).import_failed < usize::MAX,
        ensures
            units == 1,
            final(self).total_words == old(self).total_words,
            final(self).crawl_success == old(self).crawl_success,
            final(self).crawl_failed == old(self).crawl_failed,
            final(self).import_success == old(self).import_success,
            final(self).import_failed == old(self).import_failed + 1,
            final(self).import_skipped == old(self).import_skipped,
            final(self).imported_words@ == old(self).imported_words@,
            final(self).failed_words@.len() == old(self).failed_words@.len() + 1,
            forall|k: int|
                0 <= k < old(self).failed_words@.len() ==> #[trigger] final(self).failed_words@[k]
                    == old(self).failed_words@[k],
            ({
                let f = final(self).failed_words@.last();
                f.input@ == input@ && f.stage@ == "import"@ && f.error@ == error@
            }),
            final(self).completed_units() == old(self).completed_units() + units,
            old(self).wf() && old(self).import_pending() ==> final(self).wf(),
            summary_counts(*final(self)) == step_counts(
                summary_counts(*old(self)),
                ProgressEvent::ImportFailed,
            ),
            units == event_units(ProgressEvent::ImportFailed),
    {
        self.import_failed = self.import_failed + 1;
        self.failed_words.push(FailedWord { input, stage: "import".to_owned(), error });
        1
    }
}

/// One thing that happens to a word in the pipeline.
#[derive(Debug, PartialEq, Eq, Clone, Copy)]
pub enum ProgressEvent {
    /// Its crawl ended with an entry.
    CrawlOk,
    /// Its crawl failed; its import is skipped.
    CrawlFailed,
    /// Its entry could not be handed to the import stage.
    ImportQueueClosed,
    /// Its import ended with a note.
    ImportOk,
    /// Its import failed.
    ImportFailed,
}

/// The counts that progress depends on: successful and failed crawls,
/// successful and failed imports.
pub open spec fn summary_counts(s: PipelineSummary) -> (int, int, int, int) {
    (s.crawl_success as int, s.crawl_failed as int, s.import_success as int, s.import_failed as int)
}

/// The units of progress an event adds: two for a failed crawl, one for any
/// other.
pub open spec fn event_units(e: ProgressEvent) -> int {
    match e {
        ProgressEvent::CrawlFailed => 2,
        _ => 1,
    }
}

/// The counts after an event.
pub open spec fn step_counts(c: (int, int, int, int), e: ProgressEvent) -> (int, int, int, int) {
    match e {
        ProgressEvent::CrawlOk => (c.0 + 1, c.1, c.2, c.3),
        ProgressEvent::CrawlFailed => (c.0, c.1 + 1, c.2, c.3),
        ProgressEvent::ImportQueueClosed => (c.0, c.1, c.2, c.3 + 1),
        ProgressEvent::ImportOk => (c.0, c.1, c.2 + 1, c.3),
        ProgressEvent::ImportFailed => (c.0, c.1, c.2, c.3 + 1),
    }
}

/// An event can happen in a run over `n` words: a crawl ends only for a word
/// not crawled yet, an import ends only for a crawled word not imported yet.
pub open spec fn event_allowed(n: int, c: (int, int, int, int), e: ProgressEvent) -> bool {
    match e {
        ProgressEvent::CrawlOk | ProgressEvent::CrawlFailed => c.0 + c.1 < n,
        _ => c.2 + c.3 < c.0,
    }
}

/// The counts after a sequence of events, from the start.
pub open spec fn run_counts(events: Seq<ProgressEvent>) -> (int, int, int, int)
    decreases events.len(),
{
    if events.len() == 0 {
        (0, 0, 0, 0)
    } else {
        step_counts(run_counts(events.drop_last()), events.last())
    }
}

/// The units of progress a sequence of events adds.
pub open spec fn run_units(events: Seq<ProgressEvent>) -> int
    decreases events.len(),
{
    if events.len() == 0 {
        0
    } else {
        run_units(events.drop_last()) + event_units(events.last())
    }
}

/// Every event of the sequence can happen, in order, in a run over `n` words.
pub open spec fn run_allowed(n: int, events: Seq<ProgressEvent>) -> bool {
    forall|k: int|
        0 <= k < events.len() ==> event_allowed(n, run_counts(events.take(k)), #[trigger] events[k])
}

/// Every word has been crawled and every crawled word imported or failed.
pub open spec fn counts_done(n: int, c: (int, int, int, int)) -> bool {
    c.0 + c.1 == n && c.2 + c.3 == c.0
}

/// Over every run of the pipeline on `n` words: progress only grows, never
/// passes 2·n, and reaches 2·n exactly when every word is done (its crawl
/// ended, and its import too unless the crawl failed); a run that has ended,
/// where no further event can happen, has reached 2·n.
pub proof fn lemma_run_progress(n: int, events: Seq<ProgressEvent>)
    requires
        0 <= n,
        run_allowed(n, events),
    ensures
        0 <= run_units(events) <= 2 * n,
        ({
            let c = run_counts(events);
            &&& 0 <= c.2 + c.3 <= c.0
            &&& c.0 + c.1 <= n
            &&& c.1 >= 0
            &&& run_units(events) == c.0 + 2 * c.1 + c.2 + c.3
        }),
        (run_units(events) == 2 * n) == counts_done(n, run_counts(events)),
        (forall|e: ProgressEvent| !#[trigger] event_allowed(n, run_counts(events), e)) ==> run_units(
            events,
        ) == 2 * n,
        forall|k: int| 0 <= k <= events.len() ==> run_units(#[trigger] events.take(k)) <= run_units(events),
    decreases events.len(),
{
    if events.len() > 0 {
        let prev = events.drop_last();
        assert forall|k: int| 0 <= k < prev.len() implies event_allowed(
            n,
            run_counts(prev.take(k)),
            #[trigger] prev[k],
        ) by {
            assert(prev.take(k) =~= events.take(k));
            assert(event_allowed(n, run_counts(events.take(k)), events[k]));
        }
        lemma_run_progress(n, prev);
        let last = events.len() - 1;
        assert(events.take(last) =~= prev);
        assert(event_allowed(n, run_counts(events.take(last)), events[last]));
        assert forall|k: int| 0 <= k <= events.len() implies run_units(#[trigger] events.take(k))
            <= run_units(events) by {
            if k < events.len() {
                assert(events.take(k) =~= prev.take(k));
                let _ = prev.take(k);
            } else {
                assert(events.take(k) =~= events);
            }
        }
    } else {
        assert forall|k: int| 0 <= k <= events.len() implies run_units(#[trigger] events.take(k))
            <= run_units(events) by {
            assert(events.take(k) =~= events);
        }
    }
    let c = run_counts(events);
    if !event_allowed(n, c, ProgressEvent::CrawlOk) && !event_allowed(n, c, ProgressEvent::ImportOk) {
        assert(counts_done(n, c));
    }
}

/// Progress never passes the end: a consistent summary has completed at most
/// the run's units.
pub proof fn lemma_progress_bounded(s: PipelineSummary)
    requires
        s.wf(),
    ensures
        0 <= s.completed_units() <= spec_total_units(s.total_words as int),
{
}

/// When every word has been crawled and every crawled word imported or
/// failed, progress is exactly complete.
pub proof fn lemma_progress_complete(s: PipelineSummary)
    requires
        s.wf(),
        s.finished(),
    ensures
        s.completed_units() == spec_total_units(s.total_words as int),
{
}

/// Progress is complete only when the run is finished.
pub proof fn lemma_progress_complete_only_when_finished(s: PipelineSummary)
    requires
        s.wf(),
        s.completed_units() == spec_total_units(s.total_words as int),
    ensures
        s.finished(),
{
}

} // verus!
