//! The crawl state machine: pages are walked downward from the checkpoint,
//! a fetched page advances the checkpoint, and a run of page-fetch failures
//! aborts the crawl.

use vstd::prelude::*;

verus! {

/// Number of consecutive page-fetch failures that aborts the crawl.
pub const MAX_CONSECUTIVE_FAILURES: u32 = 3;

/// Page index at which a crawl without a stored checkpoint starts.
pub const INITIAL_PAGE: u32 = 889;

/// What the caller does next.
#[derive(Clone, Copy, Debug, PartialEq, Eq, Structural)]
pub enum CrawlAction {
    /// Fetch and process the listing page with this index.
    FetchPage(u32),
    /// Every page down to the first has been processed.
    Done,
    /// Too many consecutive page-fetch failures: stop with a fatal error.
    Abort,
}

/// How the fetch of the current listing page went.
#[derive(Clone, Copy, Debug, PartialEq, Eq, Structural)]
pub enum PageOutcome {
    /// The page was fetched and all its items were processed, each
    /// successfully or with a logged failure.
    Processed,
    /// The listing page itself could not be fetched.
    FetchFailed,
}

/// What the caller carries out after a page outcome.
#[derive(Clone, Copy, Debug, PartialEq, Eq, Structural)]
pub enum StepEffect {
    /// Persist this checkpoint, then wait the short politeness delay.
    WriteCheckpoint(u32),
    /// Wait the longer backoff interval, then retry the same page.
    Backoff,
}

/// The orchestrator's state: the next page to process and the number of
/// consecutive page-fetch failures.
#[derive(Clone, Copy, Debug, PartialEq, Eq, Structural)]
pub struct Crawl {
    pub page: u32,
    pub failures: u32,
}

impl Crawl {
    pub open spec fn wf(&self) -> bool {
        self.failures <= MAX_CONSECUTIVE_FAILURES
    }

    pub open spec fn is_running(&self) -> bool {
        self.page > 0 && self.failures < MAX_CONSECUTIVE_FAILURES
    }

    pub open spec fn is_aborted(&self) -> bool {
        self.failures >= MAX_CONSECUTIVE_FAILURES
    }

    pub open spec fn action_spec(&self) -> CrawlAction {
        if self.is_aborted() {
            CrawlAction::Abort
        } else if self.page == 0 {
            CrawlAction::Done
        } else {
            CrawlAction::FetchPage(self.page)
        }
    }

    /// The state after an outcome on the current page.
    pub open spec fn after(&self, o: PageOutcome) -> Crawl
        recommends
            self.is_running(),
    {
        match o {
            PageOutcome::Processed => Crawl { page: (self.page - 1) as u32, failures: 0 },
            PageOutcome::FetchFailed => Crawl { page: self.page, failures: (self.failures + 1) as u32 },
        }
    }

    /// The effect of an outcome on the current page.
    pub open spec fn effect_spec(&self, o: PageOutcome) -> StepEffect {
        match o {
            PageOutcome::Processed => StepEffect::WriteCheckpoint((self.page - 1) as u32),
            PageOutcome::FetchFailed => StepEffect::Backoff,
        }
    }

    /// Starts a crawl at the stored checkpoint.
    pub fn resume(checkpoint: u32) -> (r: Crawl)
        ensures
            r.page == checkpoint,
            r.failures == 0,
            r.wf(),
    {
        Crawl { page: checkpoint, failures: 0 }
    }

    /// The next thing to do.
    pub fn next_action(&self) -> (r: CrawlAction)
        ensures
            r == self.action_spec(),
    {
        if self.failures >= MAX_CONSECUTIVE_FAILURES {
            CrawlAction::Abort
        } else if self.page == 0 {
            CrawlAction::Done
        } else {
            CrawlAction::FetchPage(self.page)
        }
    }

    /// Records the outcome on the current page: a processed page resets the
    /// failure count and advances the checkpoint to the page below; a failed
    /// fetch counts one more consecutive failure and keeps the page.
    pub fn step(&mut self, o: PageOutcome) -> (r: StepEffect)
        requires
            old(self).is_running(),
        ensures
            *final(self) == old(self).after(o),
            r == old(self).effect_spec(o),
            final(self).wf(),
    {
        match o {
            PageOutcome::Processed => {
                self.page = self.page - 1;
                self.failures = 0;
                StepEffect::WriteCheckpoint(self.page)
            },
            PageOutcome::FetchFailed => {
                self.failures = self.failures + 1;
                StepEffect::Backoff
            },
        }
    }
}

/// What a run of outcomes leads to from state `c`: the state where it stops,
/// the pages processed, and the checkpoints written, in order. The run stops
/// when the outcomes are used up or the crawl is done or aborted.
pub open spec fn run(c: Crawl, outcomes: Seq<PageOutcome>) -> (Crawl, Seq<u32>, Seq<u32>)
    decreases outcomes.len(),
{
    if outcomes.len() == 0 || !c.is_running() {
        (c, Seq::empty(), Seq::empty())
    } else {
        let (f, pages, writes) = run(c.after(outcomes[0]), outcomes.drop_first());
        match outcomes[0] {
            PageOutcome::Processed => (
                f,
                seq![c.page] + pages,
                seq![(c.page - 1) as u32] + writes,
            ),
            PageOutcome::FetchFailed => (f, pages, writes),
        }
    }
}

/// Checkpoint writes strictly decrease over a run, all stay below the page
/// where the run started, and the last one is the page where the run stops.
pub proof fn lemma_checkpoints_decrease(c: Crawl, outcomes: Seq<PageOutcome>)
    requires
        c.wf(),
    ensures
        ({
            let (f, pages, writes) = run(c, outcomes);
            &&& forall|i: int, j: int| 0 <= i < j < writes.len() ==> writes[i] > writes[j]
            &&& forall|i: int| 0 <= i < writes.len() ==> writes[i] < c.page
            &&& writes.len() > 0 ==> f.page == writes.last()
            &&& writes.len() == 0 ==> f.page == c.page
        }),
    decreases outcomes.len(),
{
    if outcomes.len() > 0 && c.is_running() {
        let n = c.after(outcomes[0]);
        lemma_checkpoints_decrease(n, outcomes.drop_first());
        let (f, pages, writes) = run(c, outcomes);
        let (f2, pages2, writes2) = run(n, outcomes.drop_first());
        if outcomes[0] is Processed {
            assert(writes == seq![(c.page - 1) as u32] + writes2);
            assert forall|i: int, j: int| 0 <= i < j < writes.len() implies writes[i] > writes[j] by {
                if i > 0 {
                    assert(writes[i] == writes2[i - 1]);
                }
                assert(writes[j] == writes2[j - 1]);
            }
            assert forall|i: int| 0 <= i < writes.len() implies writes[i] < c.page by {
                if i > 0 {
                    assert(writes[i] == writes2[i - 1]);
                }
            }
            if writes2.len() > 0 {
                assert(writes.last() == writes2.last());
            }
        }
    }
}

/// A crawl resumed at page `P` processes pages `P, P-1, ...` in that order,
/// never a page above `P`, and when it is done it has processed every page
/// from `P` down to 1.
pub proof fn lemma_resume_walks_down(c: Crawl, outcomes: Seq<PageOutcome>)
    requires
        c.wf(),
    ensures
        ({
            let (f, pages, writes) = run(c, outcomes);
            &&& forall|i: int| 0 <= i < pages.len() ==> pages[i] == c.page - i
            &&& f.page + pages.len() == c.page
            &&& f.page == 0 && !f.is_aborted() ==> pages.len() == c.page
        }),
    decreases outcomes.len(),
{
    if outcomes.len() > 0 && c.is_running() {
        let n = c.after(outcomes[0]);
        lemma_resume_walks_down(n, outcomes.drop_first());
        let (f, pages, writes) = run(c, outcomes);
        let (f2, pages2, writes2) = run(n, outcomes.drop_first());
        if outcomes[0] is Processed {
            assert(pages == seq![c.page] + pages2);
            assert forall|i: int| 0 <= i < pages.len() implies pages[i] == c.page - i by {
                if i > 0 {
                    assert(pages[i] == pages2[i - 1]);
                }
            }
        }
    }
}

/// A crawl resumed at page `P` whose pages are all processed without a fetch
/// failure ends done, having processed exactly the pages `P, P-1, ..., 1`.
pub proof fn lemma_resume_completes(c: Crawl, outcomes: Seq<PageOutcome>)
    requires
        c.wf(),
        !c.is_aborted(),
        outcomes.len() >= c.page,
        forall|i: int| 0 <= i < outcomes.len() ==> outcomes[i] == PageOutcome::Processed,
    ensures
        ({
            let (f, pages, writes) = run(c, outcomes);
            &&& f.page == 0
            &&& !f.is_aborted()
            &&& f.action_spec() == CrawlAction::Done
            &&& pages.len() == c.page
            &&& forall|i: int| 0 <= i < pages.len() ==> pages[i] == c.page - i
        }),
    decreases outcomes.len(),
{
    lemma_resume_walks_down(c, outcomes);
    if outcomes.len() > 0 && c.is_running() {
        let rest = outcomes.drop_first();
        assert forall|i: int| 0 <= i < rest.len() implies rest[i] == PageOutcome::Processed by {
            assert(rest[i] == outcomes[i + 1]);
        }
        lemma_resume_completes(c.after(outcomes[0]), rest);
    }
}

/// Three consecutive page-fetch failures on a running crawl abort it without
/// writing a checkpoint and without leaving the page that failed, so the
/// stored checkpoint still names the last page that was completed.
pub proof fn lemma_abort_after_failures(c: Crawl, outcomes: Seq<PageOutcome>)
    requires
        c.wf(),
        c.is_running(),
        outcomes.len() >= MAX_CONSECUTIVE_FAILURES,
        forall|i: int| 0 <= i < MAX_CONSECUTIVE_FAILURES ==> outcomes[i] == PageOutcome::FetchFailed,
    ensures
        ({
            let (f, pages, writes) = run(c, outcomes);
            &&& f.is_aborted()
            &&& f.page == c.page
            &&& pages.len() == 0
            &&& writes.len() == 0
        }),
{
    lemma_failures_keep_page(c, outcomes, 3);
}

proof fn lemma_failures_keep_page(c: Crawl, outcomes: Seq<PageOutcome>, k: int)
    requires
        c.wf(),
        c.page > 0,
        0 <= k <= outcomes.len(),
        c.failures + k >= MAX_CONSECUTIVE_FAILURES,
        forall|i: int| 0 <= i < k ==> outcomes[i] == PageOutcome::FetchFailed,
    ensures
        ({
            let (f, pages, writes) = run(c, outcomes);
            &&& f.is_aborted()
            &&& f.page == c.page
            &&& pages.len() == 0
            &&& writes.len() == 0
        }),
    decreases k,
{
    if c.is_running() {
        let rest = outcomes.drop_first();
        assert forall|i: int| 0 <= i < k - 1 implies rest[i] == PageOutcome::FetchFailed by {
            assert(rest[i] == outcomes[i + 1]);
        }
        lemma_failures_keep_page(c.after(outcomes[0]), rest, k - 1);
    }
}

} // verus!
