//! Properties that relate the engine's operations to one another.
use vstd::prelude::*;
use crate::clean::{error_summaries, failure_count, failure_kinds, lemma_failure_kinds, summary_text};
use crate::config::{CategoryView, ConfigView};
use crate::errors::ErrorKind;
use crate::filter::{admits, EntryView};
use crate::scan::{admitted, admitted_listing, info_of, scan_of, FileInfoView, ScanResultView};
use crate::service::{scan_run, scan_run_upto, scan_step, CleanerService};

verus! {

/// No two entries of a walk share a path.
pub open spec fn distinct_paths(entries: Seq<EntryView>) -> bool {
    forall|a: int, b: int|
        0 <= a < entries.len() && 0 <= b < entries.len() && a != b ==> #[trigger] entries[a].path
            != #[trigger] entries[b].path
}

/// A walked file is in a category's scan listing exactly when it passes the admission rule
/// on its own.
pub proof fn lemma_listed_iff_admitted(
    name: Seq<char>,
    entries: Seq<EntryView>,
    cat: CategoryView,
    max_file_size_mb: u64,
    excluded: Seq<Seq<char>>,
    now: u64,
    i: int,
)
    requires
        0 <= i < entries.len(),
        distinct_paths(entries),
    ensures
        scan_of(name, entries, cat, max_file_size_mb, excluded, now).files.contains(
            info_of(entries[i]),
        ) <==> admits(entries[i], cat, max_file_size_mb, excluded, now),
{
    let pred = |e: EntryView| admits(e, cat, max_file_size_mb, excluded, now);
    let adm = admitted(entries, cat, max_file_size_mb, excluded, now);
    let listing = scan_of(name, entries, cat, max_file_size_mb, excluded, now).files;
    assert(adm == entries.filter(pred));
    if admits(entries[i], cat, max_file_size_mb, excluded, now) {
        entries.lemma_filter_contains(pred, i);
        let k = choose|k: int| 0 <= k < adm.len() && adm[k] == entries[i];
        assert(listing[k] == info_of(entries[i]));
    }
    if listing.contains(info_of(entries[i])) {
        let k = choose|k: int| 0 <= k < listing.len() && listing[k] == info_of(entries[i]);
        assert(listing[k] == info_of(adm[k]));
        assert(adm.contains(adm[k]));
        entries.lemma_filter_contains_rev(pred, adm[k]);
        entries.lemma_filter_pred(pred, k);
        let j = choose|j: int| 0 <= j < entries.len() && entries[j] == adm[k];
        assert(entries[j].path == entries[i].path);
    }
}

/// Scanning again with nothing changed on disk and at the same time yields the same results.
pub proof fn lemma_scan_idempotent(
    s0: CleanerService,
    s1: CleanerService,
    s2: CleanerService,
    listings: Seq<Seq<EntryView>>,
    now: u64,
)
    requires
        scan_step(s0, s1, listings, now),
        scan_step(s1, s2, listings, now),
    ensures
        s2.results() == s1.results(),
{
}

/// Each enabled category among the first `n` has its scan result in the run.
pub proof fn lemma_scan_run_has(
    cfg: ConfigView,
    listings: Seq<Seq<EntryView>>,
    now: u64,
    n: nat,
    c: int,
)
    requires
        0 <= c < n <= cfg.categories.len(),
        cfg.categories[c].1.enabled,
    ensures
        scan_run_upto(cfg, listings, now, n).contains(
            scan_of(
                cfg.categories[c].0,
                listings[c],
                cfg.categories[c].1,
                cfg.max_file_size_mb,
                cfg.excluded_paths,
                now,
            ),
        ),
    decreases n,
{
    let prev = scan_run_upto(cfg, listings, now, (n - 1) as nat);
    let r = scan_of(
        cfg.categories[c].0,
        listings[c],
        cfg.categories[c].1,
        cfg.max_file_size_mb,
        cfg.excluded_paths,
        now,
    );
    if c == n - 1 {
        assert(prev.push(r)[prev.len() as int] == r);
    } else {
        lemma_scan_run_has(cfg, listings, now, (n - 1) as nat, c);
        let k = choose|k: int| 0 <= k < prev.len() && prev[k] == r;
        if cfg.categories[n - 1].1.enabled {
            let next = prev.push(
                scan_of(
                    cfg.categories[n - 1].0,
                    listings[n - 1],
                    cfg.categories[n - 1].1,
                    cfg.max_file_size_mb,
                    cfg.excluded_paths,
                    now,
                ),
            );
            assert(next[k] == r);
        }
    }
}

/// A file that a clean deletes, with the walk unchanged and at the scan's time, was listed by
/// the preceding scan under the same category.
pub proof fn lemma_cleaned_were_listed(
    before: CleanerService,
    scanned: CleanerService,
    listings: Seq<Seq<EntryView>>,
    now: u64,
    c: int,
    targets: Seq<FileInfoView>,
    j: int,
)
    requires
        scan_step(before, scanned, listings, now),
        0 <= c < scanned.config_view().categories.len(),
        scanned.config_view().categories[c].1.enabled,
        targets == admitted_listing(
            listings[c],
            scanned.config_view().categories[c].1,
            scanned.config_view().max_file_size_mb,
            scanned.config_view().excluded_paths,
            now,
        ),
        0 <= j < targets.len(),
    ensures
        exists|r: ScanResultView|
            #[trigger] scanned.results().contains(r) && r.category
                == scanned.config_view().categories[c].0 && r.files.contains(targets[j]),
{
    let cfg = scanned.config_view();
    lemma_scan_run_has(cfg, listings, now, cfg.categories.len(), c);
    let r = scan_of(
        cfg.categories[c].0,
        listings[c],
        cfg.categories[c].1,
        cfg.max_file_size_mb,
        cfg.excluded_paths,
        now,
    );
    assert(scan_run(cfg, listings, now).contains(r));
    assert(r.files[j] == targets[j]);
    assert(r.files.contains(targets[j]));
}

/// All failures of one kind collapse into a single error entry: the bare label for one
/// failure, the label with the number of files for more.
pub proof fn lemma_one_entry_per_kind(outs: Seq<Result<(), ErrorKind>>, kind: ErrorKind)
    requires
        failure_count(outs, kind) > 0,
    ensures
        exists|j: int|
            0 <= j < failure_kinds(outs).len() && #[trigger] failure_kinds(outs)[j] == kind
                && error_summaries(outs)[j] == summary_text(kind, failure_count(outs, kind))
                && forall|m: int|
                0 <= m < failure_kinds(outs).len() && #[trigger] failure_kinds(outs)[m] == kind
                    ==> m == j,
{
    lemma_failure_kinds(outs);
    let kinds = failure_kinds(outs);
    assert(kinds.contains(kind));
    let j = choose|j: int| 0 <= j < kinds.len() && kinds[j] == kind;
    assert(error_summaries(outs)[j] == summary_text(kind, failure_count(outs, kind)));
}

} // verus!
