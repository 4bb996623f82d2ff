//! Per-category scan: which walked entries are admitted, and their totals.
use vstd::prelude::*;
use crate::config::{AppConfig, CategoryView, CleanupCategory};
use crate::filter::{admits, admits_entry, entries_view, EntryView, FileEntry};

verus! {

/// One admitted file as reported to callers.
pub struct FileInfo {
    pub path: String,
    pub size: u64,
    /// Seconds since the epoch; zero when unknown.
    pub modified: u64,
    /// Always false for listed entries: only regular files are admitted.
    pub is_directory: bool,
}

pub struct FileInfoView {
    pub path: Seq<char>,
    pub size: u64,
    pub modified: u64,
    pub is_directory: bool,
}

impl View for FileInfo {
    type V = FileInfoView;

    open spec fn view(&self) -> FileInfoView {
        FileInfoView {
            path: self.path@,
            size: self.size,
            modified: self.modified,
            is_directory: self.is_directory,
        }
    }
}

pub open spec fn infos_view(s: Seq<FileInfo>) -> Seq<FileInfoView> {
    s.map_values(|f: FileInfo| f@)
}

/// Totals and listing of one category's admitted files.
pub struct ScanResult {
    pub category: String,
    pub total_files: usize,
    pub total_size: u64,
    pub files: Vec<FileInfo>,
}

pub struct ScanResultView {
    pub category: Seq<char>,
    pub total_files: usize,
    pub total_size: u64,
    pub files: Seq<FileInfoView>,
}

impl View for ScanResult {
    type V = ScanResultView;

    open spec fn view(&self) -> ScanResultView {
        ScanResultView {
            category: self.category@,
            total_files: self.total_files,
            total_size: self.total_size,
            files: infos_view(self.files@),
        }
    }
}

/// The listing record of an admitted entry.
pub open spec fn info_of(e: EntryView) -> FileInfoView {
    FileInfoView {
        path: e.path,
        size: e.meta->0.size,
        modified: match e.meta->0.modified {
            Some(m) => m,
            None => 0,
        },
        is_directory: false,
    }
}

/// The admitted entries, in walk order.
pub open spec fn admitted(
    entries: Seq<EntryView>,
    cat: CategoryView,
    max_file_size_mb: u64,
    excluded: Seq<Seq<char>>,
    now: u64,
) -> Seq<EntryView> {
    entries.filter(|e: EntryView| admits(e, cat, max_file_size_mb, excluded, now))
}

/// The listing a walk yields for a category.
pub open spec fn admitted_listing(
    entries: Seq<EntryView>,
    cat: CategoryView,
    max_file_size_mb: u64,
    excluded: Seq<Seq<char>>,
    now: u64,
) -> Seq<FileInfoView> {
    admitted(entries, cat, max_file_size_mb, excluded, now).map_values(|e: EntryView| info_of(e))
}

/// Sum of the sizes in a listing.
pub open spec fn listing_size(files: Seq<FileInfoView>) -> int
    decreases files.len(),
{
    if files.len() == 0 {
        0
    } else {
        listing_size(files.drop_last()) + files.last().size
    }
}

/// Sum of the sizes of the walked entries whose metadata was read.
pub open spec fn walked_size(entries: Seq<EntryView>) -> int
    decreases entries.len(),
{
    if entries.len() == 0 {
        0
    } else {
        walked_size(entries.drop_last()) + match entries.last().meta {
            Some(m) => m.size as int,
            None => 0,
        }
    }
}

/// The admitted files never weigh more than the walk as a whole.
pub proof fn lemma_listing_within_walk(
    entries: Seq<EntryView>,
    cat: CategoryView,
    max_file_size_mb: u64,
    excluded: Seq<Seq<char>>,
    now: u64,
)
    ensures
        0 <= listing_size(admitted_listing(entries, cat, max_file_size_mb, excluded, now))
            <= walked_size(entries),
    decreases entries.len(),
{
    reveal(Seq::filter);
    if entries.len() > 0 {
        let rest = entries.drop_last();
        lemma_listing_within_walk(rest, cat, max_file_size_mb, excluded, now);
        let pred = |e: EntryView| admits(e, cat, max_file_size_mb, excluded, now);
        let prev = rest.filter(pred);
        assert(admitted(entries, cat, max_file_size_mb, excluded, now) == entries.filter(pred));
        assert(admitted(rest, cat, max_file_size_mb, excluded, now) == prev);
        if pred(entries.last()) {
            let lst = prev.push(entries.last()).map_values(|e: EntryView| info_of(e));
            assert(lst.drop_last() =~= prev.map_values(|e: EntryView| info_of(e)));
        }
    }
}

/// The scan result of a category whose walk yielded `entries`.
pub open spec fn scan_of(
    name: Seq<char>,
    entries: Seq<EntryView>,
    cat: CategoryView,
    max_file_size_mb: u64,
    excluded: Seq<Seq<char>>,
    now: u64,
) -> ScanResultView {
    let files = admitted_listing(entries, cat, max_file_size_mb, excluded, now);
    ScanResultView {
        category: name,
        total_files: files.len() as usize,
        total_size: listing_size(files) as u64,
        files,
    }
}

/// A prefix of a listing never weighs more than the listing.
pub proof fn lemma_listing_size_prefix(files: Seq<FileInfoView>, i: int)
    requires
        0 <= i <= files.len(),
    ensures
        0 <= listing_size(files.take(i)) <= listing_size(files),
    decreases files.len(),
{
    if files.len() > 0 {
        if i == files.len() {
            assert(files.take(i) =~= files);
            lemma_listing_size_prefix(files.drop_last(), 0);
            assert(files.drop_last().take(0) =~= files.take(0));
        } else {
            lemma_listing_size_prefix(files.drop_last(), i);
            assert(files.drop_last().take(i) =~= files.take(i));
        }
    } else {
        assert(files.take(i) =~= files);
    }
}

/// The files of `entries` that `category` admits under the policy of `config`, in order.
pub fn admitted_files(
    entries: &Vec<FileEntry>,
    category: &CleanupCategory,
    config: &AppConfig,
    now: u64,
) -> (r: Vec<FileInfo>)
    ensures
        infos_view(r@) == admitted_listing(
            entries_view(entries@),
            category@,
            config.max_file_size_mb,
            config@.excluded_paths,
            now,
        ),
{
    let ghost ev = entries_view(entries@);
    let ghost pred = |e: EntryView|
        admits(e, category@, config.max_file_size_mb, config@.excluded_paths, now);
    let mut out: Vec<FileInfo> = Vec::new();
    let mut i: usize = 0;
    proof {
        reveal(Seq::filter);
        assert(ev.take(0) =~= Seq::<EntryView>::empty());
        assert(infos_view(out@) =~= ev.take(0).filter(pred).map_values(|e: EntryView| info_of(e)));
    }
    while i < entries.len()
        invariant
            i <= entries.len(),
            ev == entries_view(entries@),
            pred == (|e: EntryView|
                admits(e, category@, config.max_file_size_mb, config@.excluded_paths, now)),
            infos_view(out@) == ev.take(i as int).filter(pred).map_values(
                |e: EntryView| info_of(e),
            ),
        decreases entries.len() - i,
    {
        let entry = &entries[i];
        proof {
            assert(ev.take(i + 1) =~= ev.take(i as int).push(entry@));
            ev.take(i as int).lemma_filter_push(entry@, pred);
        }
        if admits_entry(entry, category, config, now) {
            let meta = entry.meta.unwrap();
            let modified = match meta.modified {
                Some(m) => m,
                None => 0,
            };
            let info = FileInfo {
                path: entry.path.clone(),
                size: meta.size,
                modified,
                is_directory: false,
            };
            let ghost old_out = out@;
            out.push(info);
            proof {
                assert(infos_view(out@) =~= infos_view(old_out).push(info_of(entry@)));
                assert(ev.take(i as int).filter(pred).push(entry@).map_values(
                    |e: EntryView| info_of(e),
                ) =~= ev.take(i as int).filter(pred).map_values(|e: EntryView| info_of(e)).push(
                    info_of(entry@),
                ));
            }
        }
        i = i + 1;
    }
    assert(ev.take(entries.len() as int) =~= ev);
    out
}

/// Scans one category over the entries its walk produced.
pub fn scan_category(
    category_name: &String,
    category: &CleanupCategory,
    entries: &Vec<FileEntry>,
    config: &AppConfig,
    now: u64,
) -> (r: ScanResult)
    requires
        walked_size(entries_view(entries@)) <= u64::MAX,
    ensures
        r@ == scan_of(
            category_name@,
            entries_view(entries@),
            category@,
            config.max_file_size_mb,
            config@.excluded_paths,
            now,
        ),
{
    let files = admitted_files(entries, category, config, now);
    proof {
        lemma_listing_within_walk(
            entries_view(entries@),
            category@,
            config.max_file_size_mb,
            config@.excluded_paths,
            now,
        );
    }
    let ghost fv = infos_view(files@);
    let mut total_size: u64 = 0;
    let mut i: usize = 0;
    while i < files.len()
        invariant
            i <= files.len(),
            fv == infos_view(files@),
            listing_size(fv) <= u64::MAX,
            total_size == listing_size(fv.take(i as int)),
        decreases files.len() - i,
    {
        proof {
            assert(fv.take(i + 1).drop_last() =~= fv.take(i as int));
            lemma_listing_size_prefix(fv, i + 1);
        }
        total_size = total_size + files[i].size;
        i = i + 1;
    }
    assert(fv.take(files.len() as int) =~= fv);
    ScanResult { category: category_name.clone(), total_files: files.len(), total_size, files }
}

} // verus!
