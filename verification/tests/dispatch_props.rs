use sentra_fim::{
    admit_path, debounce_hit, hash_bytes, plan_event, process_delete, process_rename,
    process_upsert, BaselineStore, DebounceMap, ExcludeError, ExclusionSet, FileRecord, FsEvent,
    FsEventKind, HashAlg, Metrics, PlannedAction,
};

fn mem_store() -> BaselineStore {
    BaselineStore::open(&":memory:".to_string()).unwrap()
}

fn rec(path: &str, content: &[u8], mtime: u64) -> FileRecord {
    FileRecord {
        path: path.to_string(),
        hash: hash_bytes(HashAlg::Blake3, content),
        size: content.len() as u64,
        modified_at: mtime,
    }
}

fn no_exclusions() -> ExclusionSet {
    ExclusionSet::compile(&vec![]).unwrap()
}

#[test]
fn debounce_window_suppresses_second_event() {
    let mut deb = DebounceMap::new();
    let p = "a.txt".to_string();
    // first event at t=1000 is fresh
    assert_eq!(debounce_hit(&mut deb, &p, 1000, 250), false);
    // a second one 100 ms later is a hit and is suppressed
    assert_eq!(debounce_hit(&mut deb, &p, 1100, 250), true);
    // a hit does not refresh the timestamp: 300 ms after the first
    // processed event the path is fresh again
    assert_eq!(debounce_hit(&mut deb, &p, 1300, 250), false);
    // a different path is independent
    assert_eq!(debounce_hit(&mut deb, &"b.txt".to_string(), 1100, 250), false);
}

#[test]
fn two_notifications_in_window_yield_one_upsert() {
    let mut deb = DebounceMap::new();
    let excl = no_exclusions();
    let ev = FsEvent { kind: FsEventKind::Modify, paths: vec!["a.txt".to_string()] };
    let first = plan_event(&mut deb, &excl, &ev, 1000, 250);
    assert_eq!(first.len(), 1);
    assert!(matches!(&first[0], PlannedAction::Upsert(p) if p == "a.txt"));
    // same path again within the window: nothing is planned
    let second = plan_event(&mut deb, &excl, &ev, 1100, 250);
    assert_eq!(second.len(), 0);
}

#[test]
fn excluded_paths_are_dropped_before_any_work() {
    let mut deb = DebounceMap::new();
    let excl = ExclusionSet::compile(&vec!["*.log".to_string()]).unwrap();
    assert!(excl.is_excluded(&"noise.log".to_string()));
    assert!(!excl.is_excluded(&"data.txt".to_string()));
    assert_eq!(admit_path(&mut deb, &excl, &"noise.log".to_string(), 1000, 250), false);
    assert_eq!(admit_path(&mut deb, &excl, &"data.txt".to_string(), 1000, 250), true);
}

#[test]
fn empty_exclusion_list_matches_nothing() {
    let excl = no_exclusions();
    assert!(!excl.is_excluded(&"anything".to_string()));
    assert!(!excl.is_excluded(&"".to_string()));
}

#[test]
fn malformed_glob_is_refused() {
    let result = ExclusionSet::compile(&vec!["a[".to_string()]);
    match result {
        Err(ExcludeError::Malformed { pattern }) => assert_eq!(pattern, "a["),
        Err(ExcludeError::SetRefused) => panic!("single bad pattern misreported as a set refusal"),
        Ok(_) => panic!("malformed glob was accepted"),
    }
}

#[test]
fn remove_event_plans_deletes() {
    let mut deb = DebounceMap::new();
    let excl = no_exclusions();
    let ev = FsEvent {
        kind: FsEventKind::Remove,
        paths: vec!["x".to_string(), "y".to_string()],
    };
    let plan = plan_event(&mut deb, &excl, &ev, 1000, 250);
    assert_eq!(plan.len(), 2);
    assert!(matches!(&plan[0], PlannedAction::Delete(p) if p == "x"));
    assert!(matches!(&plan[1], PlannedAction::Delete(p) if p == "y"));
}

#[test]
fn rename_event_plans_pair_and_degraded_rename_plans_nothing() {
    let mut deb = DebounceMap::new();
    let excl = no_exclusions();
    let ev = FsEvent {
        kind: FsEventKind::Rename,
        paths: vec!["old".to_string(), "new".to_string()],
    };
    let plan = plan_event(&mut deb, &excl, &ev, 1000, 250);
    assert_eq!(plan.len(), 1);
    assert!(matches!(&plan[0], PlannedAction::RenamePair(f, t) if f == "old" && t == "new"));

    // a rename segment carrying a single path is filtered but never acted on
    let degraded = FsEvent { kind: FsEventKind::Rename, paths: vec!["lone".to_string()] };
    let plan2 = plan_event(&mut deb, &excl, &degraded, 2000, 250);
    assert_eq!(plan2.len(), 0);
}

#[test]
fn rename_suppressed_only_when_both_endpoints_hit() {
    let mut deb = DebounceMap::new();
    let excl = no_exclusions();
    // seed both endpoints at t=1000
    assert!(!debounce_hit(&mut deb, &"old".to_string(), 1000, 250));
    assert!(!debounce_hit(&mut deb, &"new".to_string(), 1000, 250));
    let ev = FsEvent {
        kind: FsEventKind::Rename,
        paths: vec!["old".to_string(), "new".to_string()],
    };
    // both within the window: suppressed
    let plan = plan_event(&mut deb, &excl, &ev, 1100, 250);
    assert_eq!(plan.len(), 0);
    // only "old" within its window (its stamp is still 1000): admitted
    let plan2 = plan_event(&mut deb, &excl, &ev, 1300, 250);
    assert_eq!(plan2.len(), 1);
}

#[test]
fn upsert_procedure_create_modify_refresh() {
    let mut store = mem_store();
    let mut metrics = Metrics::new();

    // untracked path: create event, counters move
    let first = rec("a.txt", b"one", 1);
    let line = process_upsert(&mut store, &mut metrics, &first, 100).unwrap().unwrap();
    assert!(line.contains("\"kind\":\"create\""));
    assert!(line.contains("\"new_hash\":"));
    assert!(!line.contains("old_hash"));
    assert_eq!(metrics.created, 1);
    assert_eq!(metrics.tracked_files, 1);

    // same content again: silent metadata refresh
    let refresh = rec("a.txt", b"one", 2);
    let none = process_upsert(&mut store, &mut metrics, &refresh, 200).unwrap();
    assert!(none.is_none());
    assert_eq!(metrics.created, 1);
    assert_eq!(metrics.modified, 0);

    // changed content: modify event carrying both hashes
    let second = rec("a.txt", b"two", 3);
    let line2 = process_upsert(&mut store, &mut metrics, &second, 300).unwrap().unwrap();
    assert!(line2.contains("\"kind\":\"modify\""));
    assert!(line2.contains(&format!("\"old_hash\":\"{}\"", first.hash)));
    assert!(line2.contains(&format!("\"new_hash\":\"{}\"", second.hash)));
    assert_eq!(metrics.modified, 1);
    assert_eq!(metrics.tracked_files, 1);
}

#[test]
fn delete_procedure_only_fires_for_tracked_paths() {
    let mut store = mem_store();
    let mut metrics = Metrics::new();
    process_upsert(&mut store, &mut metrics, &rec("a", b"1", 1), 100).unwrap();

    let line = process_delete(&mut store, &mut metrics, &"a".to_string(), 200).unwrap().unwrap();
    assert!(line.contains("\"kind\":\"delete\""));
    assert_eq!(metrics.deleted, 1);
    assert_eq!(metrics.tracked_files, 0);

    let none = process_delete(&mut store, &mut metrics, &"a".to_string(), 300).unwrap();
    assert!(none.is_none());
    assert_eq!(metrics.deleted, 1);
}

#[test]
fn live_rename_preserves_hash_and_emits_one_rename_line() {
    let mut store = mem_store();
    let mut metrics = Metrics::new();
    let original = rec("old.txt", b"payload", 7);
    process_upsert(&mut store, &mut metrics, &original, 100).unwrap();

    let (need_insert, line) =
        process_rename(&mut store, &"old.txt".to_string(), &"new.txt".to_string(), 200).unwrap();
    assert!(!need_insert);
    assert!(line.contains("\"kind\":\"rename\""));
    assert!(line.contains("\"path\":\"new.txt\""));
    assert!(line.contains("\"old_path\":\"old.txt\""));

    let moved = store.lookup(&"new.txt".to_string()).unwrap().unwrap();
    assert_eq!(moved.hash, original.hash);
    assert!(store.lookup(&"old.txt".to_string()).unwrap().is_none());

    // a later scan of the renamed tree finds nothing: no added + missing pair
    let observed = vec![rec("new.txt", b"payload", 7)];
    let report = store.scan_classify(&observed, 900).unwrap();
    assert_eq!(report.events.len(), 0);
}

#[test]
fn rename_without_record_asks_for_fresh_insert() {
    let mut store = mem_store();
    let (need_insert, line) =
        process_rename(&mut store, &"a".to_string(), &"b".to_string(), 100).unwrap();
    assert!(need_insert);
    assert!(line.contains("\"kind\":\"rename\""));
    // the event is emitted even though the store had nothing to retarget
    assert_eq!(store.count().unwrap(), 0);
}

#[test]
fn metrics_counters_saturate() {
    let mut m = Metrics {
        created: u64::MAX,
        modified: 0,
        deleted: 0,
        tracked_files: i64::MIN,
    };
    m.inc_created();
    assert_eq!(m.created, u64::MAX);
    m.dec_tracked();
    assert_eq!(m.tracked_files, i64::MIN);
    m.set_tracked(42);
    assert_eq!(m.tracked_files, 42);
}

#[test]
fn excluded_rename_endpoint_drops_event_without_debounce_update() {
    let mut deb = DebounceMap::new();
    let excl = ExclusionSet::compile(&vec!["*.tmp".to_string()]).unwrap();
    let ev = FsEvent {
        kind: FsEventKind::Rename,
        paths: vec!["keep.txt".to_string(), "gone.tmp".to_string()],
    };
    assert_eq!(plan_event(&mut deb, &excl, &ev, 1000, 250).len(), 0);
    // the drop happened before the debounce test: the non-excluded
    // endpoint is still fresh for a later event
    assert!(!debounce_hit(&mut deb, &"keep.txt".to_string(), 1001, 250));
}

#[test]
fn mixed_paths_filtered_independently() {
    let mut deb = DebounceMap::new();
    let excl = ExclusionSet::compile(&vec!["*.log".to_string()]).unwrap();
    let ev = FsEvent {
        kind: FsEventKind::Create,
        paths: vec!["a.txt".to_string(), "b.log".to_string(), "c.txt".to_string()],
    };
    let plan = plan_event(&mut deb, &excl, &ev, 1000, 250);
    assert_eq!(plan.len(), 2);
    assert!(matches!(&plan[0], PlannedAction::Upsert(p) if p == "a.txt"));
    assert!(matches!(&plan[1], PlannedAction::Upsert(p) if p == "c.txt"));
}

#[test]
fn compile_succeeds_exactly_when_all_patterns_are_well_formed() {
    // every pattern well-formed: compiles
    let ok = ExclusionSet::compile(&vec!["*.log".to_string(), "tmp/**".to_string()]);
    assert!(ok.is_ok());
    // one malformed pattern anywhere: refused, and the fault is named
    let bad = ExclusionSet::compile(&vec![
        "*.log".to_string(),
        "b[".to_string(),
        "*.tmp".to_string(),
    ]);
    match bad {
        Err(ExcludeError::Malformed { pattern }) => assert_eq!(pattern, "b["),
        Err(ExcludeError::SetRefused) => panic!("bad pattern misreported as a set refusal"),
        Ok(_) => panic!("malformed glob was accepted"),
    }
}
