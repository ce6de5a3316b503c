use local_file_intelligence::indexer::{FileScan, FileScanAction, FileScanEvent, StoredFileState};
use local_file_intelligence::models::BatchTally;

fn stored(size: i64, time: Option<&str>, fp: Option<&str>) -> Option<StoredFileState> {
    Some(StoredFileState {
        size_bytes: size,
        modified_at: time.map(|s| s.to_string()),
        fingerprint: fp.map(|s| s.to_string()),
    })
}

#[test]
fn unchanged_file_is_marked_seen() {
    let mut scan = FileScan::new();
    let mut tally = BatchTally::new();
    let time = Some("2024-01-01 00:00:00".to_string());
    let a = scan.step(
        FileScanEvent::Stored(stored(5, Some("2024-01-01 00:00:00"), Some("fp"))),
        5,
        &time,
        "a.txt",
        &mut tally,
    );
    assert!(matches!(a, FileScanAction::MarkSeen));
    assert!(matches!(scan, FileScan::Finished));
    assert_eq!(tally.processed, 1);
    let again = scan.step(FileScanEvent::Fingerprint("x".to_string()), 5, &time, "a.txt", &mut tally);
    assert!(matches!(again, FileScanAction::Ignore));
    assert_eq!(tally.processed, 1);
}

#[test]
fn touched_file_with_same_content_refreshes_metadata() {
    let mut scan = FileScan::new();
    let mut tally = BatchTally::new();
    let time = Some("2024-02-02 00:00:00".to_string());
    let a = scan.step(FileScanEvent::Stored(stored(5, Some("2024-01-01 00:00:00"), Some("5:1:ab"))), 5, &time, "a", &mut tally);
    assert!(matches!(a, FileScanAction::ComputeFingerprint));
    assert_eq!(tally.processed, 0);
    let b = scan.step(FileScanEvent::Fingerprint("5:1:ab".to_string()), 5, &time, "a", &mut tally);
    assert!(matches!(b, FileScanAction::RefreshMetadata));
    assert_eq!(tally.processed, 1);
}

#[test]
fn new_file_is_extracted_stored_and_indexed() {
    let mut scan = FileScan::new();
    let mut tally = BatchTally::new();
    let a = scan.step(FileScanEvent::Stored(None), 9, &None, "n.md", &mut tally);
    assert!(matches!(a, FileScanAction::ComputeFingerprint));
    let b = scan.step(FileScanEvent::Fingerprint("9:1:cd".to_string()), 9, &None, "n.md", &mut tally);
    assert!(matches!(b, FileScanAction::ExtractContent));
    let c = scan.step(FileScanEvent::Extraction(Ok("# notes".to_string())), 9, &None, "n.md", &mut tally);
    match c {
        FileScanAction::Upsert { content, parser_status } => {
            assert_eq!(content, "# notes");
            assert_eq!(parser_status, "ok");
        }
        _ => panic!("expected an upsert"),
    }
    let d = scan.step(FileScanEvent::Upsert(Ok(1)), 9, &None, "n.md", &mut tally);
    assert!(matches!(d, FileScanAction::UseInsertedRowId));
    assert_eq!(tally.processed, 1);
    assert_eq!(tally.failed, 0);
}

#[test]
fn changed_file_with_failed_extraction_is_stored_with_error_status() {
    let mut scan = FileScan::new();
    let mut tally = BatchTally::new();
    scan.step(FileScanEvent::Stored(stored(1, None, Some("old"))), 2, &None, "b.pdf", &mut tally);
    scan.step(FileScanEvent::Fingerprint("new".to_string()), 2, &None, "b.pdf", &mut tally);
    let c = scan.step(FileScanEvent::Extraction(Err("PDF extraction error: x".to_string())), 2, &None, "b.pdf", &mut tally);
    match c {
        FileScanAction::Upsert { content, parser_status } => {
            assert_eq!(content, "");
            assert_eq!(parser_status, "error");
        }
        _ => panic!("expected an upsert"),
    }
    assert_eq!(tally.failed, 1);
    assert_eq!(tally.errors, vec!["b.pdf: PDF extraction error: x".to_string()]);
    let d = scan.step(FileScanEvent::Upsert(Ok(1)), 2, &None, "b.pdf", &mut tally);
    assert!(matches!(d, FileScanAction::LookUpFileId));
    let e = scan.step(FileScanEvent::FileId(Ok(42)), 2, &None, "b.pdf", &mut tally);
    assert!(matches!(e, FileScanAction::ReplaceContent(42)));
    assert_eq!(tally.processed, 1);
}

#[test]
fn failed_upsert_abandons_the_file() {
    let mut scan = FileScan::new();
    let mut tally = BatchTally::new();
    scan.step(FileScanEvent::Stored(None), 1, &None, "c", &mut tally);
    scan.step(FileScanEvent::Fingerprint(String::new()), 1, &None, "c", &mut tally);
    scan.step(FileScanEvent::Extraction(Ok(String::new())), 1, &None, "c", &mut tally);
    let d = scan.step(FileScanEvent::Upsert(Err("locked".to_string())), 1, &None, "c", &mut tally);
    assert!(matches!(d, FileScanAction::Abandon));
    assert_eq!(tally.processed, 1);
}

#[test]
fn out_of_order_report_is_ignored() {
    let mut scan = FileScan::new();
    let mut tally = BatchTally::new();
    let a = scan.step(FileScanEvent::FileId(Ok(3)), 1, &None, "d", &mut tally);
    assert!(matches!(a, FileScanAction::Ignore));
    assert!(matches!(scan, FileScan::Start));
    assert_eq!(tally.processed, 0);
}
