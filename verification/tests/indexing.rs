use local_file_intelligence::crawler::{crawled_file, file_time, is_excluded};
use local_file_intelligence::db::{default_exclusions, needs_default_exclusions};
use local_file_intelligence::fingerprint::{
    compute_fingerprint, fingerprint_error_message, FingerprintError,
};
use local_file_intelligence::indexer::{
    content_for_index, scan_batches, single_file_unchanged, unchanged_by_fingerprint,
    unchanged_by_metadata, use_inserted_rowid, StoredFileState,
};
use local_file_intelligence::models::{get_status_snapshot, BatchTally, IndexStatus, MAX_ERRORS};

fn strings(items: &[&str]) -> Vec<String> {
    items.iter().map(|s| s.to_string()).collect()
}

#[test]
fn fingerprint_of_empty_file() {
    assert_eq!(compute_fingerprint(0, 1700000000, b""), "0:1700000000:e3b0c44298fc1c14");
}

#[test]
fn fingerprint_of_small_file() {
    assert_eq!(compute_fingerprint(3, 5, b"abc"), "3:5:ba7816bf8f01cfea");
}

#[test]
fn fingerprint_hashes_only_the_first_64_kb() {
    let mut long = vec![7u8; 65536];
    let short = long.clone();
    long.extend_from_slice(&[1, 2, 3]);
    assert_eq!(compute_fingerprint(9, 9, &long), compute_fingerprint(9, 9, &short));
    assert_ne!(compute_fingerprint(9, 9, &short), compute_fingerprint(9, 9, &short[..65535]));
}

#[test]
fn fingerprint_error_messages() {
    let m = fingerprint_error_message(FingerprintError::Read("eof".to_string()));
    assert_eq!(m, "read error: eof");
    let m = fingerprint_error_message(FingerprintError::Metadata("gone".to_string()));
    assert_eq!(m, "metadata error: gone");
}

#[test]
fn crawled_file_lowercases_extension_and_formats_times() {
    let f = crawled_file(
        "C:\\docs\\Report.PDF".to_string(),
        "Report.PDF".to_string(),
        Some("PDF".to_string()),
        1234,
        Some(0),
        Some(1700000000),
    );
    assert_eq!(f.path, "C:\\docs\\Report.PDF");
    assert_eq!(f.filename, "Report.PDF");
    assert_eq!(f.extension.as_deref(), Some("pdf"));
    assert_eq!(f.size_bytes, 1234);
    assert_eq!(f.created_at.as_deref(), Some("1970-01-01 00:00:00"));
    assert_eq!(f.modified_at.as_deref(), Some("2023-11-14 22:13:20"));
}

#[test]
fn missing_times_stay_missing() {
    let f = crawled_file("a".to_string(), "a".to_string(), None, 0, None, None);
    assert!(f.extension.is_none());
    assert!(f.created_at.is_none());
    assert!(f.modified_at.is_none());
    assert_eq!(file_time(Some(86400)).as_deref(), Some("1970-01-02 00:00:00"));
}

#[test]
fn out_of_range_time_formats_empty() {
    assert_eq!(file_time(Some(u64::MAX / 2)).as_deref(), Some(""));
}

#[test]
fn excluded_by_component() {
    let exclusions = default_exclusions();
    let comps = strings(&["C:\\", "proj", "node_modules", "x.js"]);
    assert!(is_excluded(&comps, "C:\\proj\\node_modules\\x.js", &exclusions));
    let comps = strings(&["C:\\", "proj", "node_modules_backup", "x.js"]);
    assert!(!is_excluded(&comps, "C:\\proj\\node_modules_backup\\x.js", &exclusions));
}

#[test]
fn excluded_by_sub_path() {
    let exclusions = default_exclusions();
    let comps = strings(&["C:\\", "Users", "me", "AppData", "Local", "Temp", "f.txt"]);
    assert!(is_excluded(&comps, "C:\\Users\\me\\AppData\\Local\\Temp\\f.txt", &exclusions));
    let comps = strings(&["home", "me", "AppData", "Local", "Temp"]);
    assert!(!is_excluded(&comps, "/home/me/AppData/Local/Temp", &exclusions));
    let slash = strings(&["build/out"]);
    let comps = strings(&["/", "repo", "build", "out", "a.o"]);
    assert!(is_excluded(&comps, "/repo/build/out/a.o", &slash));
}

#[test]
fn plain_patterns_do_not_match_inside_components() {
    let exclusions = strings(&["dist"]);
    let comps = strings(&["/", "home", "distribution", "f"]);
    assert!(!is_excluded(&comps, "/home/distribution/f", &exclusions));
    assert!(!is_excluded(&comps, "/home/distribution/f", &vec![]));
}

#[test]
fn default_exclusions_are_inserted_into_empty_table() {
    let d = default_exclusions();
    assert_eq!(d.len(), 13);
    assert_eq!(d[0], "node_modules");
    assert_eq!(d[8], "AppData\\Local\\Temp");
    assert_eq!(d[12], ".DS_Store");
    assert!(needs_default_exclusions(0));
    assert!(!needs_default_exclusions(4));
}

#[test]
fn status_lifecycle() {
    let mut status = IndexStatus::default();
    assert!(!status.is_running);
    status.errors.push("old".to_string());
    status.processed_files = 3;
    status.begin_scan();
    assert!(status.is_running);
    assert_eq!(status.processed_files, 0);
    assert!(status.errors.is_empty());
    status.set_total(250);
    let mut tally = BatchTally::new();
    tally.record_failure("a.pdf", "broken");
    tally.record_processed();
    tally.record_processed();
    status.apply_batch(tally, Some("b.txt".to_string()));
    assert_eq!(status.total_files, 250);
    assert_eq!(status.processed_files, 2);
    assert_eq!(status.failed_files, 1);
    assert_eq!(status.errors, vec!["a.pdf: broken".to_string()]);
    assert_eq!(status.current_file.as_deref(), Some("b.txt"));
    let snap = get_status_snapshot(&status);
    assert_eq!(snap.processed_files, 2);
    assert_eq!(snap.errors, status.errors);
    assert_eq!(snap.current_file, status.current_file);
    status.finish_scan();
    assert!(!status.is_running);
    assert!(status.current_file.is_none());
    assert_eq!(status.processed_files, 2);
}

#[test]
fn errors_are_capped_per_batch_and_per_run() {
    let mut tally = BatchTally::new();
    for i in 0..60 {
        tally.record_failure(&format!("f{}", i), "e");
    }
    assert_eq!(tally.failed, 60);
    assert_eq!(tally.errors.len(), MAX_ERRORS);
    let mut status = IndexStatus::default();
    status.apply_batch(tally, None);
    let mut second = BatchTally::new();
    second.record_failure("late", "e");
    status.apply_batch(second, None);
    assert_eq!(status.failed_files, 61);
    assert_eq!(status.errors.len(), MAX_ERRORS);
    assert_eq!(status.errors[49], "f49: e");
}

#[test]
fn skip_files_with_same_size_and_time() {
    let stored = Some(StoredFileState {
        size_bytes: 10,
        modified_at: Some("2024-01-01 00:00:00".to_string()),
        fingerprint: Some("10:1:abc".to_string()),
    });
    assert!(unchanged_by_metadata(&stored, 10, &Some("2024-01-01 00:00:00".to_string())));
    assert!(!unchanged_by_metadata(&stored, 11, &Some("2024-01-01 00:00:00".to_string())));
    assert!(!unchanged_by_metadata(&stored, 10, &None));
    assert!(!unchanged_by_metadata(&None, 10, &None));
    let untimed = Some(StoredFileState { size_bytes: 0, modified_at: None, fingerprint: None });
    assert!(unchanged_by_metadata(&untimed, 0, &None));
}

#[test]
fn fingerprint_match_avoids_reextraction() {
    let stored = Some(StoredFileState {
        size_bytes: 10,
        modified_at: None,
        fingerprint: Some("10:1:abc".to_string()),
    });
    assert!(unchanged_by_fingerprint(&stored, "10:1:abc"));
    assert!(!unchanged_by_fingerprint(&stored, "10:2:abc"));
    let unprinted = Some(StoredFileState { size_bytes: 10, modified_at: None, fingerprint: None });
    assert!(!unchanged_by_fingerprint(&unprinted, ""));
    assert!(single_file_unchanged(&Some("x".to_string()), "x"));
    assert!(!single_file_unchanged(&None, "x"));
}

#[test]
fn content_and_status_for_index() {
    let (c, s) = content_for_index(Ok("text".to_string()));
    assert_eq!((c.as_str(), s), ("text", "ok"));
    let (c, s) = content_for_index(Err("bad".to_string()));
    assert_eq!((c.as_str(), s), ("", "error"));
}

#[test]
fn inserted_rowid_only_for_new_files() {
    assert!(use_inserted_rowid(1, false));
    assert!(!use_inserted_rowid(1, true));
    assert!(!use_inserted_rowid(0, false));
}

#[test]
fn batches_of_one_hundred() {
    assert_eq!(scan_batches(250), vec![(0, 100), (100, 200), (200, 250)]);
    assert_eq!(scan_batches(100), vec![(0, 100)]);
    assert_eq!(scan_batches(1), vec![(0, 1)]);
    assert!(scan_batches(0).is_empty());
}

#[test]
fn everything_below_an_excluded_folder_is_excluded() {
    let exclusions = default_exclusions();
    let folder = strings(&["C:\\", "proj", "node_modules"]);
    assert!(is_excluded(&folder, "C:\\proj\\node_modules", &exclusions));
    let below = strings(&["C:\\", "proj", "node_modules", "pkg", "lib", "index.js"]);
    assert!(is_excluded(&below, "C:\\proj\\node_modules\\pkg\\lib\\index.js", &exclusions));
    let sub = strings(&["build/out"]);
    let folder = strings(&["/", "repo", "build", "out"]);
    assert!(is_excluded(&folder, "/repo/build/out", &sub));
    let below = strings(&["/", "repo", "build", "out", "deep", "a.o"]);
    assert!(is_excluded(&below, "/repo/build/out/deep/a.o", &sub));
}
