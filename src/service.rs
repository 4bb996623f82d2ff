//! The engine instance: configuration, last scan results and the two progress counters.
use vstd::prelude::*;
use crate::config::{AppConfig, ConfigView};
use crate::filter::{entries_view, EntryView, FileEntry};
use crate::scan::{
    admitted_files, admitted_listing, infos_view, scan_category, walked_size, scan_of, FileInfo,
    ScanResult, ScanResultView,
};

verus! {

/// Categories processed out of the categories of the run in flight.
#[derive(Clone, Copy, Debug, PartialEq, Eq, Structural)]
pub struct Progress {
    pub processed: usize,
    pub total: usize,
}

impl Progress {
    pub open spec fn started(total: usize) -> Progress {
        Progress { processed: 0, total }
    }

    pub open spec fn advanced(self) -> Progress {
        Progress { processed: (self.processed + 1) as usize, total: self.total }
    }

    /// A fresh counter for a run over `total` categories.
    pub fn start(total: usize) -> (r: Progress)
        ensures
            r == Progress::started(total),
    {
        Progress { processed: 0, total }
    }

    /// Records one more processed category.
    pub fn advance(&mut self)
        requires
            old(self).processed < old(self).total,
        ensures
            *final(self) == old(self).advanced(),
    {
        self.processed = self.processed + 1;
    }
}

/// The counter after `k` categories of a run over `total`.
pub open spec fn progress_after(total: usize, k: nat) -> Progress
    decreases k,
{
    if k == 0 {
        Progress::started(total)
    } else {
        progress_after(total, (k - 1) as nat).advanced()
    }
}

/// Over a run of `total` categories each step adds one to the count processed against an
/// unchanged total, so the fraction rises by exactly 1/total per step and ends at 1.
pub proof fn lemma_progress_run(total: usize, k: nat)
    requires
        k <= total,
    ensures
        progress_after(total, k) == (Progress { processed: k as usize, total }),
        k < total ==> progress_after(total, k + 1).processed == progress_after(total, k).processed
            + 1 && progress_after(total, k + 1).total == total,
        progress_after(total, total as nat) == (Progress { processed: total, total }),
{
    lemma_progress_after(total, k);
    if k < total {
        lemma_progress_after(total, k + 1);
    }
    lemma_progress_after(total, total as nat);
}

/// After `k` steps the counter stands at `k` of `total`.
proof fn lemma_progress_after(total: usize, k: nat)
    requires
        k <= total,
    ensures
        progress_after(total, k) == (Progress { processed: k as usize, total }),
    decreases k,
{
    if k > 0 {
        lemma_progress_after(total, (k - 1) as nat);
    }
}

/// The scan results over the first `n` categories, one per enabled category, in catalog order.
pub open spec fn scan_run_upto(
    cfg: ConfigView,
    listings: Seq<Seq<EntryView>>,
    now: u64,
    n: nat,
) -> Seq<ScanResultView>
    decreases n,
{
    if n == 0 {
        Seq::empty()
    } else {
        next_results(
            cfg,
            scan_run_upto(cfg, listings, now, (n - 1) as nat),
            n - 1,
            listings[n - 1],
            now,
        )
    }
}

/// The results after scanning category `k` over `entries`, given those before.
pub open spec fn next_results(
    cfg: ConfigView,
    results: Seq<ScanResultView>,
    k: int,
    entries: Seq<EntryView>,
    now: u64,
) -> Seq<ScanResultView> {
    let entry = cfg.categories[k];
    if entry.1.enabled {
        results.push(
            scan_of(entry.0, entries, entry.1, cfg.max_file_size_mb, cfg.excluded_paths, now),
        )
    } else {
        results
    }
}

/// The results of a whole scan run, where `listings[i]` is what the walk of category `i` yielded.
pub open spec fn scan_run(cfg: ConfigView, listings: Seq<Seq<EntryView>>, now: u64) -> Seq<
    ScanResultView,
> {
    scan_run_upto(cfg, listings, now, cfg.categories.len())
}

/// The walk of every enabled category adds up within `u64`.
pub open spec fn totals_fit(cfg: ConfigView, listings: Seq<Seq<EntryView>>) -> bool {
    forall|i: int|
        0 <= i < cfg.categories.len() && (#[trigger] cfg.categories[i]).1.enabled ==> walked_size(
            listings[i],
        ) <= u64::MAX
}

pub open spec fn listings_view(listings: Seq<Vec<FileEntry>>) -> Seq<Seq<EntryView>> {
    listings.map_values(|v: Vec<FileEntry>| entries_view(v@))
}

pub open spec fn results_view(results: Seq<ScanResult>) -> Seq<ScanResultView> {
    results.map_values(|r: ScanResult| r@)
}

/// The scan and clean engine over one configuration.
pub struct CleanerService {
    config: AppConfig,
    scan_progress: Progress,
    clean_progress: Progress,
    scan_results: Vec<ScanResult>,
}

impl CleanerService {
    pub closed spec fn config_view(&self) -> ConfigView {
        self.config@
    }

    pub closed spec fn scan_progress_view(&self) -> Progress {
        self.scan_progress
    }

    pub closed spec fn clean_progress_view(&self) -> Progress {
        self.clean_progress
    }

    pub closed spec fn results(&self) -> Seq<ScanResultView> {
        results_view(self.scan_results@)
    }

    pub open spec fn wf(&self) -> bool {
        crate::config::unique_ids(self.config_view().categories)
    }

    pub fn new(config: AppConfig) -> (r: CleanerService)
        requires
            config.wf(),
        ensures
            r.wf(),
            r.config_view() == config@,
            r.scan_progress_view() == Progress::started(0),
            r.clean_progress_view() == Progress::started(0),
            r.results() == Seq::<ScanResultView>::empty(),
    {
        let r = CleanerService {
            config,
            scan_progress: Progress::start(0),
            clean_progress: Progress::start(0),
            scan_results: Vec::new(),
        };
        assert(r.results() =~= Seq::<ScanResultView>::empty());
        r
    }

    pub fn config(&self) -> (r: &AppConfig)
        ensures
            r@ == self.config_view(),
    {
        &self.config
    }

    /// The results of the last scan run, one per enabled category.
    pub fn scan_results(&self) -> (r: &Vec<ScanResult>)
        ensures
            results_view(r@) == self.results(),
    {
        &self.scan_results
    }

    pub fn get_scan_progress(&self) -> (r: Progress)
        ensures
            r == self.scan_progress_view(),
    {
        self.scan_progress
    }

    pub fn get_clean_progress(&self) -> (r: Progress)
        ensures
            r == self.clean_progress_view(),
    {
        self.clean_progress
    }

    /// Starts a scan run: earlier results are dropped and progress restarts at zero.
    pub fn start_scan(&mut self)
        ensures
            final(self).config_view() == old(self).config_view(),
            final(self).results() == Seq::<ScanResultView>::empty(),
            final(self).scan_progress_view() == Progress::started(
                old(self).config_view().categories.len() as usize,
            ),
            final(self).clean_progress_view() == old(self).clean_progress_view(),
    {
        self.scan_progress = Progress::start(self.config.cleanup_categories.len());
        self.scan_results = Vec::new();
        assert(self.results() =~= Seq::<ScanResultView>::empty());
    }

    /// Scans the next category of the run over what its walk yielded. A disabled category
    /// adds no result but still counts as processed.
    pub fn scan_next(&mut self, entries: &Vec<FileEntry>, now: u64)
        requires
            old(self).scan_progress_view().processed < old(self).scan_progress_view().total,
            old(self).scan_progress_view().total == old(self).config_view().categories.len(),
            old(self).config_view().categories[old(self).scan_progress_view().processed as int].1.enabled
                ==> walked_size(entries_view(entries@)) <= u64::MAX,
        ensures
            final(self).config_view() == old(self).config_view(),
            final(self).scan_progress_view() == old(self).scan_progress_view().advanced(),
            final(self).clean_progress_view() == old(self).clean_progress_view(),
            final(self).results() == next_results(
                old(self).config_view(),
                old(self).results(),
                old(self).scan_progress_view().processed as int,
                entries_view(entries@),
                now,
            ),
    {
        let i = self.scan_progress.processed;
        let ghost prev = self.scan_results@;
        if self.config.cleanup_categories[i].1.enabled {
            let result = scan_category(
                &self.config.cleanup_categories[i].0,
                &self.config.cleanup_categories[i].1,
                entries,
                &self.config,
                now,
            );
            self.scan_results.push(result);
            assert(results_view(self.scan_results@) =~= results_view(prev).push(result@));
        }
        self.scan_progress.advance();
    }

    /// Runs a whole scan: `listings[i]` holds what the walk of the `i`-th category's roots
    /// yielded. Earlier results are dropped; disabled categories count toward progress only.
    pub fn scan_system(&mut self, listings: &Vec<Vec<FileEntry>>, now: u64)
        requires
            old(self).wf(),
            listings.len() == old(self).config_view().categories.len(),
            totals_fit(old(self).config_view(), listings_view(listings@)),
        ensures
            scan_step(*old(self), *final(self), listings_view(listings@), now),
    {
        let n = self.config.cleanup_categories.len();
        self.start_scan();
        let ghost cfg = self.config@;
        let ghost lv = listings_view(listings@);
        let mut i: usize = 0;
        while i < n
            invariant
                i <= n,
                n == cfg.categories.len(),
                listings.len() == n,
                cfg == self.config_view(),
                cfg == old(self).config_view(),
                self.clean_progress_view() == old(self).clean_progress_view(),
                lv == listings_view(listings@),
                totals_fit(cfg, lv),
                self.scan_progress_view() == progress_after(n, i as nat),
                self.results() == scan_run_upto(cfg, lv, now, i as nat),
            decreases n - i,
        {
            proof {
                lemma_progress_run(n, i as nat);
                assert(lv[i as int] == entries_view(listings@[i as int]@));
            }
            self.scan_next(&listings[i], now);
            i = i + 1;
        }
    }

    /// Starts a clean run over `total` requested category identifiers.
    pub fn start_clean(&mut self, total: usize)
        ensures
            final(self).clean_progress_view() == Progress::started(total),
            final(self).config_view() == old(self).config_view(),
            final(self).scan_progress_view() == old(self).scan_progress_view(),
            final(self).results() == old(self).results(),
    {
        self.clean_progress = Progress::start(total);
    }

    /// Records that one requested identifier has been handled, cleaned or dropped.
    pub fn finish_clean_step(&mut self)
        requires
            old(self).clean_progress_view().processed < old(self).clean_progress_view().total,
        ensures
            final(self).clean_progress_view() == old(self).clean_progress_view().advanced(),
            final(self).config_view() == old(self).config_view(),
            final(self).scan_progress_view() == old(self).scan_progress_view(),
            final(self).results() == old(self).results(),
    {
        self.clean_progress.advance();
    }

    /// The catalog position of the enabled category named `id`; `None` when it is unknown or disabled.
    pub fn clean_target(&self, id: &String) -> (r: Option<usize>)
        requires
            self.wf(),
        ensures
            match r {
                Some(i) => i < self.config_view().categories.len() && self.config_view().categories[i as int].0
                    == id@ && self.config_view().categories[i as int].1.enabled,
                None => forall|i: int|
                    0 <= i < self.config_view().categories.len() ==> !((
                    #[trigger] self.config_view().categories[i]).0 == id@
                        && self.config_view().categories[i].1.enabled),
            },
    {
        let mut i: usize = 0;
        while i < self.config.cleanup_categories.len()
            invariant
                i <= self.config.cleanup_categories.len(),
                self.wf(),
                forall|j: int|
                    0 <= j < i ==> (#[trigger] self.config@.categories[j]).0 != id@,
            decreases self.config.cleanup_categories.len() - i,
        {
            if self.config.cleanup_categories[i].0 == *id {
                if self.config.cleanup_categories[i].1.enabled {
                    return Some(i);
                }
                proof {
                    assert forall|j: int|
                        0 <= j < self.config@.categories.len() && j != i implies (
                        #[trigger] self.config@.categories[j]).0 != id@ by {
                        assert(self.config@.categories[j].0 != self.config@.categories[i as int].0);
                    }
                }
                return None;
            }
            i = i + 1;
        }
        None
    }

    /// The files a clean of category `index` attempts to delete, by the scan's own admission rule.
    pub fn files_to_delete(&self, index: usize, entries: &Vec<FileEntry>, now: u64) -> (r: Vec<
        FileInfo,
    >)
        requires
            index < self.config_view().categories.len(),
        ensures
            infos_view(r@) == admitted_listing(
                entries_view(entries@),
                self.config_view().categories[index as int].1,
                self.config_view().max_file_size_mb,
                self.config_view().excluded_paths,
                now,
            ),
    {
        admitted_files(entries, &self.config.cleanup_categories[index].1, &self.config, now)
    }
}

/// `after` is the engine once a scan run over `listings` at `now` has completed on `before`.
pub open spec fn scan_step(
    before: CleanerService,
    after: CleanerService,
    listings: Seq<Seq<EntryView>>,
    now: u64,
) -> bool {
    &&& after.wf()
    &&& after.config_view() == before.config_view()
    &&& after.results() == scan_run(before.config_view(), listings, now)
    &&& after.scan_progress_view() == progress_after(
        before.config_view().categories.len() as usize,
        before.config_view().categories.len(),
    )
    &&& after.clean_progress_view() == before.clean_progress_view()
}

} // verus!
