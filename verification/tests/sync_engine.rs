use oh_updater::SyncError;
use oh_updater::machine::{RunState, BuildFilePusher, build_plan, confirmation_accepted};
use oh_updater::records::RecordStore;
use oh_updater::resolve::{base_name, find_device_path};
use oh_updater::scan::{ScannedFile, max_mtime, select_new_files};

fn file(path: &[u8], mtime: i64) -> ScannedFile {
    ScannedFile { path: path.to_vec(), mtime }
}

fn entries(list: &[(&str, &str)]) -> Vec<(String, String)> {
    list.iter().map(|(k, d)| (k.to_string(), d.to_string())).collect()
}

#[test]
fn base_name_splits_at_last_slash() {
    assert_eq!(base_name(&b"pkg/bin/foo.so".to_vec()), b"foo.so".to_vec());
    assert_eq!(base_name(&b"foo.so".to_vec()), b"foo.so".to_vec());
    assert_eq!(base_name(&b"".to_vec()), b"".to_vec());
    assert_eq!(base_name(&b"dir/".to_vec()), b"".to_vec());
}

#[test]
fn resolver_returns_relative_path() {
    let mirror = vec![b"bin/foo.so".to_vec(), b"lib/bar.so".to_vec()];
    let r = find_device_path(&b"foo.so".to_vec(), &mirror);
    assert_eq!(r, vec![b"bin/foo.so".to_vec()]);
}

#[test]
fn resolver_no_match_is_empty() {
    let mirror = vec![b"bin/other.so".to_vec()];
    let r = find_device_path(&b"foo.so".to_vec(), &mirror);
    assert!(r.is_empty());
}

#[test]
fn plan_drops_unresolved_files() {
    let mirror = vec![b"bin/foo.so".to_vec()];
    let selected = vec![file(b"out/foo.so", 3), file(b"out/stray.o", 4)];
    let plan = build_plan(&selected, &mirror).unwrap();
    assert_eq!(plan.len(), 1);
    assert_eq!(plan[0].build_file, b"out/foo.so".to_vec());
    assert_eq!(plan[0].device_path, b"bin/foo.so".to_vec());
}

#[test]
fn plan_rejects_ambiguous_resolution() {
    let mirror = vec![b"bin/foo.so".to_vec(), b"lib64/foo.so".to_vec()];
    let selected = vec![file(b"out/foo.so", 3)];
    let r = build_plan(&selected, &mirror);
    match r {
        Err(SyncError::AmbiguousDevicePath(name)) => assert_eq!(name, b"foo.so".to_vec()),
        _ => panic!("ambiguity must be an error"),
    }
}

#[test]
fn boundary_mtime_excluded_strict_included_forced() {
    let files = vec![file(b"out/a", 5)];
    let strict = select_new_files(&files, Some(5), false);
    assert!(strict.is_empty());
    let forced = select_new_files(&files, Some(5), true);
    assert_eq!(forced.len(), 1);
    assert_eq!(forced[0].path, b"out/a".to_vec());
}

#[test]
fn selection_keeps_scan_order_and_max() {
    let files = vec![file(b"out/a", 9), file(b"out/b", 2), file(b"out/c", 7)];
    let sel = select_new_files(&files, Some(3), false);
    assert_eq!(sel.len(), 2);
    assert_eq!(sel[0].path, b"out/a".to_vec());
    assert_eq!(sel[1].path, b"out/c".to_vec());
    assert_eq!(max_mtime(&sel), Some(9));
    assert_eq!(max_mtime(&Vec::new()), None);
}

#[test]
fn store_parses_and_rewrites_rfc3339() {
    let stored = entries(&[
        ("devA", "1970-01-01T00:00:01+00:00"),
        ("devB", "1970-01-01T00:00:02.5+00:00"),
    ]);
    let store = RecordStore::from_entries(&stored).unwrap();
    assert_eq!(store.records.len(), 2);
    assert_eq!(store.records[0].connectkey, "devA");
    assert_eq!(store.records[0].watermark, 1_000_000_000);
    assert_eq!(store.records[1].watermark, 2_500_000_000);
    let out = store.to_entries();
    assert_eq!(out[0], ("devA".to_string(), "1970-01-01T00:00:01+00:00".to_string()));
    let again = RecordStore::from_entries(&out).unwrap();
    assert_eq!(again.records[0].watermark, 1_000_000_000);
    assert_eq!(again.records[1].watermark, 2_500_000_000);
    assert_eq!(again.records[1].connectkey, "devB");
}

#[test]
fn store_rejects_bad_date() {
    let stored = entries(&[("devA", "yesterday")]);
    assert!(matches!(RecordStore::from_entries(&stored), Err(SyncError::CorruptRecord)));
}

#[test]
fn store_rejects_duplicate_key() {
    let stored = entries(&[
        ("devA", "1970-01-01T00:00:01+00:00"),
        ("devA", "1970-01-01T00:00:02+00:00"),
    ]);
    assert!(matches!(RecordStore::from_entries(&stored), Err(SyncError::CorruptRecord)));
}

#[test]
fn record_entry_lookup_and_upsert() {
    let mut store = RecordStore::new();
    let key = "dev-1".to_string();
    assert!(!store.record_entry_exists(&key));
    assert!(store.record_entry(&key).is_none());
    assert!(store.record_entry_mut(&key).is_none());
    store.upsert(&key, 42);
    assert!(store.record_entry_exists(&key));
    assert_eq!(store.record_entry(&key).unwrap().watermark, 42);
    let idx = store.record_entry_mut(&key).unwrap();
    assert_eq!(store.records[idx].connectkey, "dev-1");
    store.upsert(&key, 43);
    assert_eq!(store.records.len(), 1);
    assert_eq!(store.record_entry(&key).unwrap().watermark, 43);
    let other = "dev-2".to_string();
    store.upsert(&other, 7);
    assert_eq!(store.records.len(), 2);
    assert_eq!(store.record_entry(&key).unwrap().watermark, 43);
}

#[test]
fn confirmation_default_yes_and_explicit_no() {
    assert!(confirmation_accepted(&b"".to_vec()));
    assert!(confirmation_accepted(&b"\n".to_vec()));
    assert!(confirmation_accepted(&b"y\n".to_vec()));
    assert!(confirmation_accepted(&b"Y".to_vec()));
    assert!(confirmation_accepted(&b"  y  \r\n".to_vec()));
    assert!(!confirmation_accepted(&b"n\n".to_vec()));
    assert!(!confirmation_accepted(&b"yes\n".to_vec()));
    assert!(!confirmation_accepted(&b"q".to_vec()));
}

fn first_run(files: Vec<ScannedFile>, mirror: &Vec<Vec<u8>>) -> BuildFilePusher {
    let mut m = BuildFilePusher::new("dev-new".to_string(), false, false, RecordStore::new());
    m.on_scanned(files);
    m.filter_changed();
    m.map_to_device(mirror).unwrap();
    m
}

#[test]
fn first_run_never_prompts_never_sends_writes_baseline() {
    let mirror = vec![b"bin/a".to_vec(), b"bin/b".to_vec()];
    let files = vec![
        file(b"out/a", 10),
        file(b"out/b", 30),
        file(b"out/c", 20),
        file(b"out/d", 5),
        file(b"out/e", 25),
    ];
    let mut m = first_run(files, &mirror);
    assert_eq!(m.selected.len(), 5);
    assert!(!m.needs_prompt());
    m.decide(false);
    assert!(!m.send);
    m.skip();
    m.update_record();
    assert!(m.mutated);
    let key = "dev-new".to_string();
    let rec = m.store.record_entry(&key).unwrap();
    assert_eq!(rec.watermark, 30);
}

#[test]
fn first_run_empty_scan_records_minimal_watermark() {
    let mirror: Vec<Vec<u8>> = Vec::new();
    let mut m = first_run(Vec::new(), &mirror);
    m.decide(false);
    m.skip();
    m.update_record();
    assert!(m.mutated);
    let key = "dev-new".to_string();
    assert_eq!(m.store.record_entry(&key).unwrap().watermark, i64::MIN);
    let flushed = m.store.to_entries();
    let reloaded = RecordStore::from_entries(&flushed).unwrap();
    assert_eq!(reloaded.record_entry(&key).unwrap().watermark, i64::MIN);
}

fn unchanged_tree() -> Vec<ScannedFile> {
    vec![file(b"out/a", 10), file(b"out/b", 30)]
}

#[test]
fn second_run_with_no_changes_selects_nothing_and_keeps_store() {
    let mirror = vec![b"bin/a".to_vec()];

    let mut m = first_run(unchanged_tree(), &mirror);
    m.decide(false);
    m.skip();
    m.update_record();
    let store = m.store;

    let mut m2 = BuildFilePusher::new("dev-new".to_string(), false, false, store);
    m2.on_scanned(unchanged_tree());
    m2.filter_changed();
    assert_eq!(m2.selected.len(), 0);
    m2.map_to_device(&mirror).unwrap();
    assert!(m2.plan.is_empty());
    assert!(!m2.needs_prompt());
    m2.decide(true);
    assert!(!m2.send);
    m2.skip();
    m2.update_record();
    assert!(!m2.mutated);
    let key = "dev-new".to_string();
    assert_eq!(m2.store.record_entry(&key).unwrap().watermark, 30);
}

#[test]
fn send_advances_watermark_monotonically() {
    let mirror = vec![b"bin/a".to_vec()];
    let mut store = RecordStore::new();
    let key = "dev-old".to_string();
    store.upsert(&key, 15);

    let mut m = BuildFilePusher::new(key.clone(), false, false, store);
    m.on_scanned(vec![file(b"out/a", 40), file(b"out/ignored", 12)]);
    m.filter_changed();
    assert_eq!(m.selected.len(), 1);
    m.map_to_device(&mirror).unwrap();
    assert_eq!(m.plan.len(), 1);
    assert!(m.needs_prompt());
    m.decide(true);
    assert!(m.send);
    m.on_remount(true).unwrap();
    let entry = m.next_transfer().unwrap();
    assert_eq!(entry.build_file, b"out/a".to_vec());
    assert_eq!(entry.device_path, b"bin/a".to_vec());
    m.on_transfer(true).unwrap();
    assert!(m.next_transfer().is_none());
    assert!(matches!(m.state, RunState::Sent));
    m.update_record();
    assert!(m.mutated);
    let after = m.store.record_entry(&key).unwrap().watermark;
    assert!(after > 15);
    assert_eq!(after, 40);
}

#[test]
fn declined_confirmation_keeps_watermark() {
    let mirror = vec![b"bin/a".to_vec()];
    let mut store = RecordStore::new();
    let key = "dev-old".to_string();
    store.upsert(&key, 15);

    let mut m = BuildFilePusher::new(key.clone(), false, false, store);
    m.on_scanned(vec![file(b"out/a", 40)]);
    m.filter_changed();
    m.map_to_device(&mirror).unwrap();
    assert!(m.needs_prompt());
    m.decide(false);
    assert!(!m.send);
    m.skip();
    m.update_record();
    assert!(!m.mutated);
    assert_eq!(m.store.record_entry(&key).unwrap().watermark, 15);
}

#[test]
fn transfer_failure_is_fatal_and_watermark_stays() {
    let mirror = vec![
        b"bin/a".to_vec(),
        b"bin/b".to_vec(),
        b"bin/c".to_vec(),
        b"bin/d".to_vec(),
        b"bin/e".to_vec(),
    ];
    let mut store = RecordStore::new();
    let key = "dev-old".to_string();
    store.upsert(&key, 1);

    let mut m = BuildFilePusher::new(key.clone(), false, true, store);
    m.on_scanned(vec![
        file(b"out/a", 10),
        file(b"out/b", 11),
        file(b"out/c", 12),
        file(b"out/d", 13),
        file(b"out/e", 14),
    ]);
    m.filter_changed();
    m.map_to_device(&mirror).unwrap();
    m.decide(false);
    assert!(m.send);
    m.on_remount(true).unwrap();
    m.on_transfer(true).unwrap();
    m.on_transfer(true).unwrap();
    let failed = m.next_transfer().unwrap().build_file.clone();
    let r = m.on_transfer(false);
    match r {
        Err(SyncError::TransferFailed(p)) => assert_eq!(p, failed),
        _ => panic!("a failed transfer must abort the run"),
    }
    assert!(matches!(m.state, RunState::Failed));
    assert_eq!(m.store.record_entry(&key).unwrap().watermark, 1);
}

#[test]
fn remount_failure_is_fatal() {
    let mirror = vec![b"bin/a".to_vec()];
    let mut store = RecordStore::new();
    let key = "dev-old".to_string();
    store.upsert(&key, 1);

    let mut m = BuildFilePusher::new(key.clone(), false, true, store);
    m.on_scanned(vec![file(b"out/a", 10)]);
    m.filter_changed();
    m.map_to_device(&mirror).unwrap();
    m.decide(false);
    let r = m.on_remount(false);
    assert!(matches!(r, Err(SyncError::RemountFailed)));
    assert!(matches!(m.state, RunState::Failed));
    assert_eq!(m.store.record_entry(&key).unwrap().watermark, 1);
}

#[test]
fn force_mode_reselects_boundary_file() {
    let mirror = vec![b"bin/a".to_vec()];
    let mut store = RecordStore::new();
    let key = "dev-old".to_string();
    store.upsert(&key, 40);

    let mut m = BuildFilePusher::new(key.clone(), true, true, store);
    m.on_scanned(vec![file(b"out/a", 40)]);
    m.filter_changed();
    assert_eq!(m.selected.len(), 1);
    m.map_to_device(&mirror).unwrap();
    m.decide(false);
    assert!(m.send);
    m.on_remount(true).unwrap();
    m.on_transfer(true).unwrap();
    m.update_record();
    assert_eq!(m.store.record_entry(&key).unwrap().watermark, 40);
}
