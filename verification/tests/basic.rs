use sentra_fim::{hash_bytes, BaselineStore, FileRecord, HashAlg};

fn mem_store() -> BaselineStore {
    BaselineStore::open(&":memory:".to_string()).unwrap()
}

fn rec(path: &str, content: &[u8], mtime: u64) -> FileRecord {
    FileRecord {
        path: path.to_string(),
        hash: hash_bytes(HashAlg::Blake3, content),
        size: content.len() as u64,
        modified_at: mtime,
    }
}

#[test]
fn baseline_and_scan_jsonl() {
    // baseline a tree holding a.txt = "hello\n"
    let mut store = mem_store();
    let baseline = vec![rec("a.txt", b"hello\n", 10)];
    store.rebuild(&baseline).unwrap();

    // the file then grows by "world\n"
    let observed = vec![rec("a.txt", b"hello\nworld\n", 11)];

    // scan with a diff destination
    let report = store.scan_classify(&observed, 1000).unwrap();
    let lines = report.render_jsonl();
    let content = lines.join("\n");
    assert!(content.contains("\"kind\":\"changed\"") || content.contains("\"kind\":\"added\""));
}

#[test]
fn rebuild_then_lookup_returns_computed_hash() {
    let mut store = mem_store();
    let records = vec![rec("a.txt", b"hello\n", 1), rec("b.txt", b"other\n", 2)];
    let n = store.rebuild(&records).unwrap();
    assert_eq!(n, 2);
    for r in &records {
        let found = store.lookup(&r.path).unwrap().unwrap();
        assert_eq!(found.hash, r.hash);
        assert_eq!(found.size, r.size);
        assert_eq!(found.modified_at, r.modified_at);
        // the stored hash equals the digest recomputed from the bytes
        let again = if r.path == "a.txt" {
            hash_bytes(HashAlg::Blake3, b"hello\n")
        } else {
            hash_bytes(HashAlg::Blake3, b"other\n")
        };
        assert_eq!(found.hash, again);
    }
    assert_eq!(store.count().unwrap(), 2);
}

#[test]
fn rebuild_replaces_whole_set() {
    let mut store = mem_store();
    store.rebuild(&vec![rec("a", b"1", 1), rec("b", b"2", 2)]).unwrap();
    store.rebuild(&vec![rec("c", b"3", 3)]).unwrap();
    assert!(store.lookup(&"a".to_string()).unwrap().is_none());
    assert!(store.lookup(&"b".to_string()).unwrap().is_none());
    assert!(store.lookup(&"c".to_string()).unwrap().is_some());
    assert_eq!(store.count().unwrap(), 1);
}

#[test]
fn upsert_reports_prior_existence() {
    let mut store = mem_store();
    let first = rec("a", b"one", 1);
    assert_eq!(store.upsert(&first).unwrap(), false);
    let second = rec("a", b"two", 2);
    assert_eq!(store.upsert(&second).unwrap(), true);
    let found = store.lookup(&"a".to_string()).unwrap().unwrap();
    assert_eq!(found.hash, second.hash);
    assert_eq!(store.count().unwrap(), 1);
}

#[test]
fn delete_reports_existence() {
    let mut store = mem_store();
    store.upsert(&rec("a", b"x", 1)).unwrap();
    assert_eq!(store.delete(&"a".to_string()).unwrap(), true);
    assert_eq!(store.delete(&"a".to_string()).unwrap(), false);
    assert!(store.lookup(&"a".to_string()).unwrap().is_none());
}

#[test]
fn rename_preserves_record() {
    let mut store = mem_store();
    let original = rec("old.txt", b"payload", 7);
    store.upsert(&original).unwrap();
    assert_eq!(store.rename(&"old.txt".to_string(), &"new.txt".to_string()).unwrap(), true);
    assert!(store.lookup(&"old.txt".to_string()).unwrap().is_none());
    let moved = store.lookup(&"new.txt".to_string()).unwrap().unwrap();
    assert_eq!(moved.hash, original.hash);
    assert_eq!(moved.size, original.size);
    assert_eq!(moved.modified_at, original.modified_at);
}

#[test]
fn rename_without_source_reports_false() {
    let mut store = mem_store();
    assert_eq!(store.rename(&"nope".to_string(), &"other".to_string()).unwrap(), false);
    assert_eq!(store.count().unwrap(), 0);
}

#[test]
fn rename_onto_existing_target_fails_and_changes_nothing() {
    let mut store = mem_store();
    store.upsert(&rec("a", b"1", 1)).unwrap();
    store.upsert(&rec("b", b"2", 2)).unwrap();
    assert!(store.rename(&"a".to_string(), &"b".to_string()).is_err());
    assert!(store.lookup(&"a".to_string()).unwrap().is_some());
    assert!(store.lookup(&"b".to_string()).unwrap().is_some());
}

#[test]
fn enumerate_returns_every_record() {
    let mut store = mem_store();
    store.rebuild(&vec![rec("a", b"1", 1), rec("b", b"2", 2), rec("c", b"3", 3)]).unwrap();
    let mut all = store.enumerate().unwrap();
    assert_eq!(all.len(), 3);
    all.sort_by(|x, y| x.path.cmp(&y.path));
    assert_eq!(all[0].path, "a");
    assert_eq!(all[1].path, "b");
    assert_eq!(all[2].path, "c");
}
