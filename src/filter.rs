//! The admission rule applied to every entry a category walk produces.
use vstd::prelude::*;
use crate::config::{AppConfig, CategoryView, CleanupCategory};
use crate::glob::{matches_pattern, patterns_match};

verus! {

pub const SECONDS_PER_DAY: u64 = 86400;

pub const BYTES_PER_MIB: u64 = 1048576;

/// Metadata read for one walked entry.
#[derive(Clone, Copy, Debug, PartialEq, Eq, Structural)]
pub struct FileMeta {
    pub is_file: bool,
    pub size: u64,
    /// Seconds since the epoch; `None` when the time could not be read.
    pub modified: Option<u64>,
}

/// One entry produced by walking a category root.
pub struct FileEntry {
    pub path: String,
    /// The last component of `path`.
    pub name: String,
    /// `None` when the entry's metadata could not be read.
    pub meta: Option<FileMeta>,
}

pub struct EntryView {
    pub path: Seq<char>,
    pub name: Seq<char>,
    pub meta: Option<FileMeta>,
}

impl View for FileEntry {
    type V = EntryView;

    open spec fn view(&self) -> EntryView {
        EntryView { path: self.path@, name: self.name@, meta: self.meta }
    }
}

pub open spec fn entries_view(s: Seq<FileEntry>) -> Seq<EntryView> {
    s.map_values(|e: FileEntry| e@)
}

/// Whether `path` lies at or below `base`, compared component by component under the
/// path rules of the platform the crate is built for.
pub uninterp spec fn path_within(path: Seq<char>, base: Seq<char>) -> bool;

/// Relies on std::path::Path::starts_with: whole-component prefix test of two paths.
#[verifier::external_body]
fn path_starts_with(path: &str, base: &str) -> (r: bool)
    ensures
        r == path_within(path@, base@),
{
    std::path::Path::new(path).starts_with(base)
}

pub open spec fn excluded_by(path: Seq<char>, excluded: Seq<Seq<char>>) -> bool {
    exists|i: int| 0 <= i < excluded.len() && path_within(path, #[trigger] excluded[i])
}

/// Age rule: no filter at zero days; otherwise the modification time must be
/// known and at or before `now` minus the minimum age.
pub open spec fn old_enough(modified: Option<u64>, min_age_days: u32, now: u64) -> bool {
    min_age_days == 0 || (modified is Some && modified->0 + min_age_days * SECONDS_PER_DAY
        <= now)
}

pub open spec fn size_allowed(size: u64, max_file_size_mb: u64) -> bool {
    size <= max_file_size_mb * BYTES_PER_MIB
}

/// The admission predicate shared by scanning and cleaning.
pub open spec fn admits(
    e: EntryView,
    cat: CategoryView,
    max_file_size_mb: u64,
    excluded: Seq<Seq<char>>,
    now: u64,
) -> bool {
    &&& !excluded_by(e.path, excluded)
    &&& patterns_match(e.name, cat.file_patterns)
    &&& e.meta is Some
    &&& old_enough(e.meta->0.modified, cat.min_age_days, now)
    &&& size_allowed(e.meta->0.size, max_file_size_mb)
    &&& e.meta->0.is_file
}

/// Whether `path` lies under one of the excluded paths.
pub fn is_excluded(path: &str, excluded: &Vec<String>) -> (r: bool)
    ensures
        r == excluded_by(path@, excluded.deep_view()),
{
    let mut i: usize = 0;
    while i < excluded.len()
        invariant
            i <= excluded.len(),
            forall|j: int| 0 <= j < i ==> !path_within(path@, #[trigger] excluded.deep_view()[j]),
        decreases excluded.len() - i,
    {
        if path_starts_with(path, excluded[i].as_str()) {
            assert(path_within(path@, excluded.deep_view()[i as int]));
            return true;
        }
        i = i + 1;
    }
    false
}

/// Whether a file modified at `modified` is at least `min_age_days` old at `now`.
pub fn is_old_enough(modified: Option<u64>, min_age_days: u32, now: u64) -> (r: bool)
    ensures
        r == old_enough(modified, min_age_days, now),
{
    if min_age_days == 0 {
        return true;
    }
    match modified {
        None => false,
        Some(m) => {
            let min_age = min_age_days as u64 * SECONDS_PER_DAY;
            if now < min_age {
                false
            } else {
                m <= now - min_age
            }
        },
    }
}

/// Whether `size` bytes stay within a limit of `max_file_size_mb` mebibytes.
pub fn within_size_limit(size: u64, max_file_size_mb: u64) -> (r: bool)
    ensures
        r == size_allowed(size, max_file_size_mb),
{
    if max_file_size_mb >= 17592186044416 {
        assert(size < max_file_size_mb * BYTES_PER_MIB) by (nonlinear_arith)
            requires
                max_file_size_mb >= 17592186044416,
                size <= u64::MAX,
        ;
        return true;
    }
    assert(max_file_size_mb * BYTES_PER_MIB <= u64::MAX) by (nonlinear_arith)
        requires
            max_file_size_mb < 17592186044416,
    ;
    size <= max_file_size_mb * BYTES_PER_MIB
}

/// Decides whether one walked entry belongs to `category` under the global policy.
pub fn admits_entry(entry: &FileEntry, category: &CleanupCategory, config: &AppConfig, now: u64) -> (r: bool)
    ensures
        r == admits(entry@, category@, config.max_file_size_mb, config@.excluded_paths, now),
{
    if is_excluded(entry.path.as_str(), &config.excluded_paths) {
        return false;
    }
    if !matches_pattern(entry.name.as_str(), &category.file_patterns) {
        return false;
    }
    match entry.meta {
        None => false,
        Some(meta) => {
            is_old_enough(meta.modified, category.min_age_days, now) && within_size_limit(
                meta.size,
                config.max_file_size_mb,
            ) && meta.is_file
        },
    }
}

} // verus!
