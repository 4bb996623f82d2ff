//! The engine's configuration: global policy and the category catalog.
use vstd::prelude::*;

verus! {

/// A named cleanup target: its roots, name patterns and minimum age.
pub struct CleanupCategory {
    pub enabled: bool,
    pub paths: Vec<String>,
    /// Empty means every name matches.
    pub file_patterns: Vec<String>,
    /// Zero means no age filter.
    pub min_age_days: u32,
}

pub struct CategoryView {
    pub enabled: bool,
    pub paths: Seq<Seq<char>>,
    pub file_patterns: Seq<Seq<char>>,
    pub min_age_days: u32,
}

impl View for CleanupCategory {
    type V = CategoryView;

    open spec fn view(&self) -> CategoryView {
        CategoryView {
            enabled: self.enabled,
            paths: self.paths.deep_view(),
            file_patterns: self.file_patterns.deep_view(),
            min_age_days: self.min_age_days,
        }
    }
}

/// Global policy plus the catalog of categories, each keyed by a unique identifier.
pub struct AppConfig {
    pub safe_mode: bool,
    pub backup_enabled: bool,
    pub max_file_size_mb: u64,
    /// Files under any of these paths are never admitted.
    pub excluded_paths: Vec<String>,
    pub cleanup_categories: Vec<(String, CleanupCategory)>,
}

pub struct ConfigView {
    pub safe_mode: bool,
    pub backup_enabled: bool,
    pub max_file_size_mb: u64,
    pub excluded_paths: Seq<Seq<char>>,
    pub categories: Seq<(Seq<char>, CategoryView)>,
}

impl View for AppConfig {
    type V = ConfigView;

    open spec fn view(&self) -> ConfigView {
        ConfigView {
            safe_mode: self.safe_mode,
            backup_enabled: self.backup_enabled,
            max_file_size_mb: self.max_file_size_mb,
            excluded_paths: self.excluded_paths.deep_view(),
            categories: self.cleanup_categories@.map_values(
                |p: (String, CleanupCategory)| (p.0@, p.1@),
            ),
        }
    }
}

/// No two categories share an identifier.
pub open spec fn unique_ids(cats: Seq<(Seq<char>, CategoryView)>) -> bool {
    forall|i: int, j: int|
        0 <= i < cats.len() && 0 <= j < cats.len() && i != j ==> #[trigger] cats[i].0
            != #[trigger] cats[j].0
}

impl AppConfig {
    pub open spec fn wf(&self) -> bool {
        unique_ids(self@.categories)
    }
}

/// Root of the recycle bin on the system drive.
pub fn get_recycle_bin_paths() -> (r: Vec<String>)
    ensures
        r.deep_view() == seq!["C:\\$Recycle.Bin"@],
{
    let r = vec![String::from_str("C:\\$Recycle.Bin")];
    assert(r.deep_view() =~= seq!["C:\\$Recycle.Bin"@]);
    r
}

/// Directories where the system keeps downloaded updates and their logs.
pub fn get_windows_update_paths() -> (r: Vec<String>)
    ensures
        r.deep_view() == seq![
            "C:\\Windows\\SoftwareDistribution\\Download"@,
            "C:\\Windows\\SoftwareDistribution\\DataStore"@,
            "C:\\Windows\\Logs\\WindowsUpdate"@,
        ],
{
    let r = vec![
        String::from_str("C:\\Windows\\SoftwareDistribution\\Download"),
        String::from_str("C:\\Windows\\SoftwareDistribution\\DataStore"),
        String::from_str("C:\\Windows\\Logs\\WindowsUpdate"),
    ];
    assert(r.deep_view() =~= seq![
        "C:\\Windows\\SoftwareDistribution\\Download"@,
        "C:\\Windows\\SoftwareDistribution\\DataStore"@,
        "C:\\Windows\\Logs\\WindowsUpdate"@,
    ]);
    r
}

} // verus!
