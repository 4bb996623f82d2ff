use cleaner::clean::{clean_category, error_summary};
use cleaner::config::{get_recycle_bin_paths, get_windows_update_paths, AppConfig, CleanupCategory};
use cleaner::errors::{classify_error, kind_for_code, translate_error, ErrorKind, OsError};
use cleaner::filter::{admits_entry, is_excluded, is_old_enough, within_size_limit, FileEntry, FileMeta};
use cleaner::glob::{matches_glob, matches_pattern};
use cleaner::scan::{admitted_files, scan_category, FileInfo};
use cleaner::service::{CleanerService, Progress};

const DAY: u64 = 86400;
const NOW: u64 = 1_700_000_000;

fn strings(items: &[&str]) -> Vec<String> {
    items.iter().map(|s| s.to_string()).collect()
}

fn category(patterns: &[&str], min_age_days: u32) -> CleanupCategory {
    CleanupCategory {
        enabled: true,
        paths: strings(&["/data"]),
        file_patterns: strings(patterns),
        min_age_days,
    }
}

fn config(max_file_size_mb: u64, excluded: &[&str], cats: Vec<(&str, CleanupCategory)>) -> AppConfig {
    AppConfig {
        safe_mode: true,
        backup_enabled: false,
        max_file_size_mb,
        excluded_paths: strings(excluded),
        cleanup_categories: cats.into_iter().map(|(n, c)| (n.to_string(), c)).collect(),
    }
}

fn file(path: &str, size: u64, modified: u64) -> FileEntry {
    let name = path.rsplit('/').next().unwrap().to_string();
    FileEntry {
        path: path.to_string(),
        name,
        meta: Some(FileMeta { is_file: true, size, modified: Some(modified) }),
    }
}

fn dir(path: &str) -> FileEntry {
    let name = path.rsplit('/').next().unwrap().to_string();
    FileEntry {
        path: path.to_string(),
        name,
        meta: Some(FileMeta { is_file: false, size: 0, modified: Some(0) }),
    }
}

fn info(path: &str, size: u64) -> FileInfo {
    FileInfo { path: path.to_string(), size, modified: 0, is_directory: false }
}

#[test]
fn glob_star_matches_everything() {
    assert!(matches_glob("anything.bin", "*"));
    assert!(matches_glob("", "*"));
}

#[test]
fn glob_suffix_pattern() {
    assert!(matches_glob("a.tmp", "*.tmp"));
    assert!(matches_glob("tmp", "*.tmp"));
    assert!(!matches_glob("a.tmpx", "*.tmp"));
    assert!(!matches_glob("a.log.1", "*.log.*"));
    assert!(matches_glob("a.log.*", "*.log.*"));
}

#[test]
fn glob_exact_name() {
    assert!(matches_glob("thumbs.db", "thumbs.db"));
    assert!(!matches_glob("thumbs.db2", "thumbs.db"));
    assert!(!matches_glob("a.tmp", "a.tm"));
}

#[test]
fn empty_pattern_set_matches_all() {
    assert!(matches_pattern("whatever", &Vec::new()));
    assert!(matches_pattern("x.bak", &strings(&["*.tmp", "*.bak"])));
    assert!(!matches_pattern("x.log", &strings(&["*.tmp", "*.bak"])));
}

#[test]
fn age_filter() {
    assert!(is_old_enough(None, 0, NOW));
    assert!(!is_old_enough(None, 7, NOW));
    assert!(is_old_enough(Some(NOW - 7 * DAY), 7, NOW));
    assert!(!is_old_enough(Some(NOW - 7 * DAY + 1), 7, NOW));
    assert!(!is_old_enough(Some(0), 7, 3 * DAY));
}

#[test]
fn size_limit() {
    assert!(within_size_limit(1048576, 1));
    assert!(!within_size_limit(1048577, 1));
    assert!(within_size_limit(0, 0));
    assert!(!within_size_limit(1, 0));
    assert!(within_size_limit(u64::MAX, u64::MAX));
}

#[test]
fn exclusion_is_by_path_component() {
    let excluded = strings(&["/protected"]);
    assert!(is_excluded("/protected/tmp/x.tmp", &excluded));
    assert!(is_excluded("/protected", &excluded));
    assert!(!is_excluded("/protectedness/x.tmp", &excluded));
    assert!(!is_excluded("/other/x.tmp", &excluded));
}

#[test]
fn scan_scenario_pattern() {
    let cat = category(&["*.tmp"], 0);
    let cfg = config(100, &[], vec![]);
    let entries = vec![file("/data/a.tmp", 500, 0), file("/data/b.log", 10, 0)];
    let r = scan_category(&"temp_files".to_string(), &cat, &entries, &cfg, NOW);
    assert_eq!(r.category, "temp_files");
    assert_eq!(r.total_files, 1);
    assert_eq!(r.total_size, 500);
    assert_eq!(r.files.len(), 1);
    assert_eq!(r.files[0].path, "/data/a.tmp");
    assert_eq!(r.files[0].size, 500);
    assert!(!r.files[0].is_directory);
}

#[test]
fn scan_scenario_size_limit() {
    let cat = category(&[], 0);
    let cfg = config(1, &[], vec![]);
    let entries = vec![file("/data/big.bin", 2 * 1048576, 0), file("/data/small.bin", 500 * 1024, 0)];
    let r = scan_category(&"c".to_string(), &cat, &entries, &cfg, NOW);
    assert_eq!(r.total_files, 1);
    assert_eq!(r.total_size, 500 * 1024);
    assert_eq!(r.files[0].path, "/data/small.bin");
}

#[test]
fn scan_scenario_excluded_prefix() {
    let cat = category(&["*.tmp"], 0);
    let cfg = config(100, &["/protected"], vec![("c", category(&["*.tmp"], 0))]);
    let entries = vec![file("/protected/tmp/x.tmp", 10, 0)];
    let r = scan_category(&"c".to_string(), &cat, &entries, &cfg, NOW);
    assert_eq!(r.total_files, 0);
    assert!(admitted_files(&entries, &cat, &cfg, NOW).is_empty());
    let svc = CleanerService::new(cfg);
    assert!(svc.files_to_delete(0, &entries, NOW).is_empty());
}

#[test]
fn scan_skips_directories_and_unreadable() {
    let cat = category(&[], 0);
    let cfg = config(100, &[], vec![]);
    let unreadable = FileEntry { path: "/data/u".to_string(), name: "u".to_string(), meta: None };
    let entries = vec![dir("/data/sub"), unreadable, file("/data/sub/f", 3, 5)];
    let r = scan_category(&"c".to_string(), &cat, &entries, &cfg, NOW);
    assert_eq!(r.total_files, 1);
    assert_eq!(r.files[0].path, "/data/sub/f");
    assert_eq!(r.files[0].modified, 5);
}

#[test]
fn scan_unknown_modification_time() {
    let cfg = config(100, &[], vec![]);
    let e = FileEntry {
        path: "/data/f".to_string(),
        name: "f".to_string(),
        meta: Some(FileMeta { is_file: true, size: 1, modified: None }),
    };
    assert!(admits_entry(&e, &category(&[], 0), &cfg, NOW));
    assert!(!admits_entry(&e, &category(&[], 1), &cfg, NOW));
    let r = scan_category(&"c".to_string(), &category(&[], 0), &vec![e], &cfg, NOW);
    assert_eq!(r.files[0].modified, 0);
}

#[test]
fn scan_empty_walk() {
    let cfg = config(100, &[], vec![]);
    let r = scan_category(&"c".to_string(), &category(&[], 0), &Vec::new(), &cfg, NOW);
    assert_eq!(r.total_files, 0);
    assert_eq!(r.total_size, 0);
    assert!(r.files.is_empty());
}

#[test]
fn listing_matches_admission() {
    let cat = category(&["*.tmp"], 7);
    let cfg = config(1, &["/data/keep"], vec![]);
    let entries = vec![
        file("/data/old.tmp", 10, NOW - 8 * DAY),
        file("/data/new.tmp", 10, NOW - DAY),
        file("/data/keep/old.tmp", 10, NOW - 8 * DAY),
        file("/data/old.txt", 10, NOW - 8 * DAY),
        file("/data/huge.tmp", 2 * 1048576, NOW - 8 * DAY),
    ];
    let r = scan_category(&"c".to_string(), &cat, &entries, &cfg, NOW);
    for e in &entries {
        let listed = r.files.iter().any(|f| f.path == e.path);
        assert_eq!(listed, admits_entry(e, &cat, &cfg, NOW));
    }
    assert_eq!(r.total_files, 1);
}

#[test]
fn scan_twice_same_results() {
    let cfg = config(100, &[], vec![("a", category(&["*.tmp"], 0)), ("b", category(&[], 0))]);
    let listings = vec![
        vec![file("/data/a.tmp", 5, 0), file("/data/b.log", 6, 0)],
        vec![file("/data/c", 7, 0)],
    ];
    let mut svc = CleanerService::new(cfg);
    svc.scan_system(&listings, NOW);
    let first: Vec<(String, usize, u64)> =
        svc.scan_results().iter().map(|r| (r.category.clone(), r.total_files, r.total_size)).collect();
    svc.scan_system(&listings, NOW);
    let second: Vec<(String, usize, u64)> =
        svc.scan_results().iter().map(|r| (r.category.clone(), r.total_files, r.total_size)).collect();
    assert_eq!(first, second);
    assert_eq!(first, vec![("a".to_string(), 1, 5), ("b".to_string(), 1, 7)]);
}

#[test]
fn scan_skips_disabled_but_counts_progress() {
    let mut off = category(&[], 0);
    off.enabled = false;
    let cfg = config(100, &[], vec![("on", category(&[], 0)), ("off", off), ("on2", category(&[], 0))]);
    let listings = vec![vec![file("/data/x", 1, 0)], vec![file("/data/y", 2, 0)], vec![]];
    let mut svc = CleanerService::new(cfg);
    assert_eq!(svc.get_scan_progress(), Progress { processed: 0, total: 0 });
    svc.scan_system(&listings, NOW);
    assert_eq!(svc.scan_results().len(), 2);
    assert_eq!(svc.scan_results()[0].category, "on");
    assert_eq!(svc.scan_results()[1].category, "on2");
    assert_eq!(svc.get_scan_progress(), Progress { processed: 3, total: 3 });
}

#[test]
fn progress_steps_by_one() {
    let mut p = Progress::start(4);
    assert_eq!(p, Progress { processed: 0, total: 4 });
    for k in 1..=4 {
        p.advance();
        assert_eq!(p, Progress { processed: k, total: 4 });
    }
}

#[test]
fn clean_progress_counts_dropped_ids() {
    let mut off = category(&[], 0);
    off.enabled = false;
    let cfg = config(100, &[], vec![("on", category(&[], 0)), ("off", off)]);
    let mut svc = CleanerService::new(cfg);
    let ids = strings(&["on", "off", "missing"]);
    svc.start_clean(ids.len());
    let mut targets = Vec::new();
    for id in &ids {
        targets.push(svc.clean_target(id));
        svc.finish_clean_step();
    }
    assert_eq!(targets, vec![Some(0), None, None]);
    assert_eq!(svc.get_clean_progress(), Progress { processed: 3, total: 3 });
}

#[test]
fn clean_targets_equal_scan_listing() {
    let cfg = config(100, &[], vec![("t", category(&["*.tmp"], 0))]);
    let listings = vec![vec![file("/data/a.tmp", 5, 0), file("/data/b.log", 6, 0), file("/data/c.tmp", 7, 0)]];
    let mut svc = CleanerService::new(cfg);
    svc.scan_system(&listings, NOW);
    let del = svc.files_to_delete(0, &listings[0], NOW);
    let listed: Vec<String> = svc.scan_results()[0].files.iter().map(|f| f.path.clone()).collect();
    let targeted: Vec<String> = del.iter().map(|f| f.path.clone()).collect();
    assert_eq!(listed, targeted);
}

#[test]
fn clean_scenario_partial_failure() {
    let targets = vec![info("/d/a", 100 * 1024), info("/d/b", 200 * 1024), info("/d/c", 50)];
    let outcomes = vec![Ok(()), Ok(()), Err(ErrorKind::AccessDenied)];
    let r = clean_category(&"c".to_string(), &targets, &outcomes);
    assert_eq!(r.category, "c");
    assert_eq!(r.files_removed, 2);
    assert_eq!(r.space_freed, 300 * 1024);
    assert_eq!(r.errors, vec!["Access denied".to_string()]);
}

#[test]
fn clean_aggregates_errors_per_kind() {
    let targets = vec![info("/d/a", 1), info("/d/b", 2), info("/d/c", 3), info("/d/d", 4), info("/d/e", 5)];
    let outcomes = vec![
        Err(ErrorKind::InUse),
        Err(ErrorKind::AccessDenied),
        Err(ErrorKind::InUse),
        Ok(()),
        Err(ErrorKind::InUse),
    ];
    let r = clean_category(&"c".to_string(), &targets, &outcomes);
    assert_eq!(r.files_removed, 1);
    assert_eq!(r.space_freed, 4);
    assert_eq!(r.errors, vec!["File in use (3 files)".to_string(), "Access denied".to_string()]);
}

#[test]
fn clean_all_failed_is_a_result() {
    let targets = vec![info("/d/a", 1), info("/d/b", 2)];
    let outcomes = vec![Err(ErrorKind::NotFound), Err(ErrorKind::NotFound)];
    let r = clean_category(&"c".to_string(), &targets, &outcomes);
    assert_eq!(r.files_removed, 0);
    assert_eq!(r.space_freed, 0);
    assert_eq!(r.errors, vec!["File not found (2 files)".to_string()]);
}

#[test]
fn clean_nothing_to_do() {
    let r = clean_category(&"c".to_string(), &Vec::new(), &Vec::new());
    assert_eq!(r.files_removed, 0);
    assert!(r.errors.is_empty());
}

#[test]
fn summary_counts_in_decimal() {
    assert_eq!(error_summary(ErrorKind::DiskFull, 1), "Disk full");
    assert_eq!(error_summary(ErrorKind::DiskFull, 12), "Disk full (12 files)");
    assert_eq!(error_summary(ErrorKind::Other, 1000), "Other error (1000 files)");
}

#[test]
fn labels_of_every_kind() {
    let all = [
        (ErrorKind::InUse, "File in use"),
        (ErrorKind::AccessDenied, "Access denied"),
        (ErrorKind::NotFound, "File not found"),
        (ErrorKind::PathTooLong, "Path too long"),
        (ErrorKind::DiskFull, "Disk full"),
        (ErrorKind::InvalidName, "Invalid name"),
        (ErrorKind::DirectoryNotEmpty, "Directory not empty"),
        (ErrorKind::ReadOnly, "Read-only file"),
        (ErrorKind::Other, "Other error"),
    ];
    for (k, l) in all {
        assert_eq!(k.label(), l);
    }
}

#[test]
fn known_codes_classify() {
    assert_eq!(kind_for_code(32), Some(ErrorKind::InUse));
    assert_eq!(kind_for_code(5), Some(ErrorKind::AccessDenied));
    assert_eq!(kind_for_code(13), Some(ErrorKind::AccessDenied));
    assert_eq!(kind_for_code(2), Some(ErrorKind::NotFound));
    assert_eq!(kind_for_code(3), Some(ErrorKind::NotFound));
    assert_eq!(kind_for_code(206), Some(ErrorKind::PathTooLong));
    assert_eq!(kind_for_code(112), Some(ErrorKind::DiskFull));
    assert_eq!(kind_for_code(123), Some(ErrorKind::InvalidName));
    assert_eq!(kind_for_code(145), Some(ErrorKind::DirectoryNotEmpty));
    assert_eq!(kind_for_code(87), Some(ErrorKind::Other));
    assert_eq!(kind_for_code(9999), None);
}

#[test]
fn messages_classify_when_code_unknown() {
    assert_eq!(classify_error(None, "permission denied (os error)"), ErrorKind::AccessDenied);
    assert_eq!(classify_error(Some(9999), "access denied"), ErrorKind::AccessDenied);
    assert_eq!(classify_error(None, "file not found"), ErrorKind::NotFound);
    assert_eq!(classify_error(None, "directory not empty"), ErrorKind::DirectoryNotEmpty);
    assert_eq!(classify_error(None, "no space left on device"), ErrorKind::DiskFull);
    assert_eq!(classify_error(None, "read-only file system"), ErrorKind::ReadOnly);
    assert_eq!(
        classify_error(None, "it is being used by another process"),
        ErrorKind::InUse
    );
    assert_eq!(classify_error(None, "something odd"), ErrorKind::Other);
    assert_eq!(classify_error(Some(32), "no space left"), ErrorKind::InUse);
}

#[test]
fn translate_error_ignores_case() {
    let e = OsError { code: None, message: "Permission Denied".to_string() };
    assert_eq!(translate_error(&e), ErrorKind::AccessDenied);
    let e = OsError { code: Some(1), message: "Read-Only File System".to_string() };
    assert_eq!(translate_error(&e), ErrorKind::ReadOnly);
    let e = OsError { code: Some(145), message: "whatever".to_string() };
    assert_eq!(translate_error(&e), ErrorKind::DirectoryNotEmpty);
}

#[test]
fn catalog_fixed_paths() {
    assert_eq!(get_recycle_bin_paths(), vec!["C:\\$Recycle.Bin".to_string()]);
    assert_eq!(get_windows_update_paths().len(), 3);
    assert_eq!(get_windows_update_paths()[2], "C:\\Windows\\Logs\\WindowsUpdate");
}

#[test]
fn scan_steps_advance_progress() {
    let mut off = category(&[], 0);
    off.enabled = false;
    let cfg = config(100, &[], vec![("a", category(&[], 0)), ("b", off), ("c", category(&["*.tmp"], 0))]);
    let mut svc = CleanerService::new(cfg);
    svc.scan_system(&vec![vec![file("/data/old", 1, 0)], vec![], vec![]], NOW);
    svc.start_scan();
    assert!(svc.scan_results().is_empty());
    assert_eq!(svc.get_scan_progress(), Progress { processed: 0, total: 3 });
    svc.scan_next(&vec![file("/data/x", 4, 0)], NOW);
    assert_eq!(svc.get_scan_progress(), Progress { processed: 1, total: 3 });
    assert_eq!(svc.scan_results().len(), 1);
    svc.scan_next(&vec![file("/data/y", 4, 0)], NOW);
    assert_eq!(svc.get_scan_progress(), Progress { processed: 2, total: 3 });
    assert_eq!(svc.scan_results().len(), 1);
    svc.scan_next(&vec![file("/data/z.tmp", 9, 0), file("/data/w", 1, 0)], NOW);
    assert_eq!(svc.get_scan_progress(), Progress { processed: 3, total: 3 });
    assert_eq!(svc.scan_results()[1].category, "c");
    assert_eq!(svc.scan_results()[1].total_size, 9);
}
