use sentra_fim::audit::AuditKind;
use sentra_fim::{hash_bytes, BaselineStore, FileRecord, HashAlg};

fn mem_store() -> BaselineStore {
    BaselineStore::open(&":memory:".to_string()).unwrap()
}

fn rec(path: &str, content: &[u8], mtime: u64) -> FileRecord {
    FileRecord {
        path: path.to_string(),
        hash: hash_bytes(HashAlg::Blake3, content),
        size: content.len() as u64,
        modified_at: mtime,
    }
}

#[test]
fn scan_unchanged_twice_is_idempotent() {
    let mut store = mem_store();
    let records = vec![rec("a", b"1", 1), rec("b", b"2", 2)];
    store.rebuild(&records).unwrap();

    let first = store.scan_classify(&records, 500).unwrap();
    let second = store.scan_classify(&records, 500).unwrap();
    assert_eq!(first.added, 0);
    assert_eq!(first.changed, 0);
    assert_eq!(first.missing, 0);
    assert_eq!(first.events.len(), 0);
    assert_eq!(first.render_jsonl(), second.render_jsonl());
    assert_eq!(first.summary_line(), second.summary_line());
    assert_eq!(first.summary_line(), "Summary -> added: 0, changed: 0, missing: 0");
}

#[test]
fn scan_modified_file_reports_one_changed() {
    let mut store = mem_store();
    let before = rec("a.txt", b"hello\n", 1);
    store.rebuild(&vec![before.clone(), rec("b.txt", b"same", 2)]).unwrap();

    let after = rec("a.txt", b"hello\nworld\n", 3);
    let observed = vec![after.clone(), rec("b.txt", b"same", 2)];
    let report = store.scan_classify(&observed, 900).unwrap();

    assert_eq!(report.changed, 1);
    assert_eq!(report.added, 0);
    assert_eq!(report.missing, 0);
    assert_eq!(report.events.len(), 1);
    let ev = &report.events[0];
    assert!(ev.kind == AuditKind::Changed);
    assert_eq!(ev.path, "a.txt");
    assert_eq!(ev.old_hash.as_ref().unwrap(), &before.hash);
    assert_eq!(ev.new_hash.as_ref().unwrap(), &after.hash);
    assert_ne!(ev.old_hash, ev.new_hash);
}

#[test]
fn scan_deleted_file_reports_one_missing() {
    let mut store = mem_store();
    store.rebuild(&vec![rec("a", b"1", 1), rec("b", b"2", 2)]).unwrap();

    let observed = vec![rec("b", b"2", 2)];
    let report = store.scan_classify(&observed, 900).unwrap();

    assert_eq!(report.missing, 1);
    assert_eq!(report.added, 0);
    assert_eq!(report.changed, 0);
    assert_eq!(report.events.len(), 1);
    let ev = &report.events[0];
    assert!(ev.kind == AuditKind::Missing);
    assert_eq!(ev.path, "a");
    assert!(ev.old_hash.is_none() && ev.new_hash.is_none());
}

#[test]
fn scan_new_file_reports_one_added_without_old_hash() {
    let mut store = mem_store();
    store.rebuild(&vec![rec("a", b"1", 1)]).unwrap();

    let fresh = rec("new.bin", b"fresh", 5);
    let observed = vec![rec("a", b"1", 1), fresh.clone()];
    let report = store.scan_classify(&observed, 900).unwrap();

    assert_eq!(report.added, 1);
    assert_eq!(report.changed, 0);
    assert_eq!(report.missing, 0);
    assert_eq!(report.events.len(), 1);
    let ev = &report.events[0];
    assert!(ev.kind == AuditKind::Added);
    assert_eq!(ev.path, "new.bin");
    assert!(ev.old_hash.is_none());
    assert_eq!(ev.new_hash.as_ref().unwrap(), &fresh.hash);
    let line = &report.render_jsonl()[0];
    assert!(line.contains("\"kind\":\"added\""));
    assert!(!line.contains("old_hash"));
}

#[test]
fn scan_offline_rename_reports_missing_plus_added() {
    // A rename that no live dispatcher saw: the old path is gone, the new
    // path holds the same content. Reconciliation reports the pair, not a
    // rename: that asymmetry is by design.
    let mut store = mem_store();
    store.rebuild(&vec![rec("old.txt", b"payload", 1)]).unwrap();

    let observed = vec![rec("new.txt", b"payload", 1)];
    let report = store.scan_classify(&observed, 900).unwrap();

    assert_eq!(report.added, 1);
    assert_eq!(report.missing, 1);
    assert_eq!(report.changed, 0);
    assert_eq!(report.events.len(), 2);
    assert!(report.events[0].kind == AuditKind::Added);
    assert_eq!(report.events[0].path, "new.txt");
    assert!(report.events[1].kind == AuditKind::Missing);
    assert_eq!(report.events[1].path, "old.txt");
}

#[test]
fn scan_human_lines_and_summary() {
    let mut store = mem_store();
    store.rebuild(&vec![rec("gone", b"1", 1)]).unwrap();
    let observed = vec![rec("fresh", b"2", 2)];
    let report = store.scan_classify(&observed, 900).unwrap();
    let human = report.render_human();
    assert_eq!(human.len(), 2);
    assert_eq!(human[0], "ADDED: fresh");
    assert_eq!(human[1], "MISSING: gone");
    assert_eq!(report.summary_line(), "Summary -> added: 1, changed: 0, missing: 1");
}

#[test]
fn scan_metadata_only_difference_is_changed() {
    // same bytes, different recorded mtime: still a changed finding,
    // since hash, size and mtime must all agree
    let mut store = mem_store();
    store.rebuild(&vec![rec("a", b"same", 1)]).unwrap();
    let observed = vec![rec("a", b"same", 99)];
    let report = store.scan_classify(&observed, 900).unwrap();
    assert_eq!(report.changed, 1);
    assert_eq!(report.added, 0);
    assert_eq!(report.missing, 0);
    // the hashes are equal, and both are still reported
    let ev = &report.events[0];
    assert_eq!(ev.old_hash, ev.new_hash);
}

#[test]
fn scan_empty_tree_and_empty_baseline() {
    let store = mem_store();
    let report = store.scan_classify(&vec![], 900).unwrap();
    assert_eq!(report.events.len(), 0);
    assert_eq!(report.summary_line(), "Summary -> added: 0, changed: 0, missing: 0");
}
