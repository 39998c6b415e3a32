use deno_core::{
    js_check, poll_outcome, termination_steps, Bootstrap, CoreError, DynImports, ErrorKind, HeapLimits,
    IdMap, IsolateSetup, NearHeapLimit, OwnedScript, PollOutcome, Script, Snapshot, SnapshotLifecycle,
    StartupData, StartupOptions,
};

#[test]
fn js_check_returns_the_value() {
    assert_eq!(js_check::<u32>(Ok(3)), 3);
}

#[test]
fn error_message() {
    let e = CoreError::new(ErrorKind::Terminated, "Uncaught Error: execution terminated".to_string());
    assert_eq!(e.to_string(), "Uncaught Error: execution terminated");
    assert_eq!(e.kind, ErrorKind::Terminated);
}

#[test]
fn ready_only_without_reffed_work() {
    assert_eq!(poll_outcome(false, false, false, true), PollOutcome::Ready);
    assert_eq!(poll_outcome(true, false, false, false), PollOutcome::Pending { wake: false });
    assert_eq!(poll_outcome(false, true, false, true), PollOutcome::Pending { wake: true });
    assert_eq!(poll_outcome(false, false, true, false), PollOutcome::Pending { wake: false });
}

#[test]
fn termination_is_kept_in_effect() {
    let s = termination_steps(true, true);
    assert!(s.cancel_first && s.synthesize_error && s.terminate_again);
    let s = termination_steps(true, false);
    assert!(s.cancel_first && !s.synthesize_error && s.terminate_again);
    let s = termination_steps(false, true);
    assert!(!s.cancel_first && !s.synthesize_error && !s.terminate_again);
}

#[test]
fn dyn_imports_get_fresh_ids_and_clear() {
    let mut d: DynImports<&str> = DynImports::new();
    let a = d.begin("a").unwrap();
    let b = d.begin("b").unwrap();
    assert_ne!(a, b);
    assert_eq!(d.resolvers.len(), 2);
    assert_eq!(d.finish(a), Some("a"));
    assert_eq!(d.finish(a), None);
    assert_eq!(d.finish(b), Some("b"));
    assert!(d.resolvers.is_empty());
    let c = d.mint_load_id().unwrap();
    assert!(c > b);
}

#[test]
fn dyn_import_ids_run_out() {
    let mut d: DynImports<u8> = DynImports::new();
    d.next_load_id = i32::MAX - 1;
    assert_eq!(d.begin(1), Ok(i32::MAX - 1));
    assert_eq!(d.begin(2), Err(2));
    assert_eq!(d.mint_load_id(), None);
}

#[test]
fn pending_rejections_are_taken_one_at_a_time() {
    let mut m: IdMap<&str> = IdMap::new();
    m.insert(5, "first");
    m.insert(9, "second");
    m.insert(5, "again");
    assert_eq!(m.len(), 2);
    assert!(m.contains_key(9));
    assert_eq!(m.remove(9), Some("second"));
    assert_eq!(m.take_first(), Some((5, "again")));
    assert_eq!(m.take_first(), None);
    assert!(m.is_empty());
}

#[test]
fn startup_data_splits() {
    let data = StartupData::Script(Script { source: "a = 1 + 2", filename: "a.js" });
    let (script, snapshot) = data.into_options();
    let script = script.unwrap();
    assert_eq!(script.source, "a = 1 + 2");
    assert_eq!(script.filename, "a.js");
    assert!(snapshot.is_none());

    let (script, snapshot) = StartupData::Snapshot(Snapshot::Boxed(vec![1, 2].into_boxed_slice())).into_options();
    assert!(script.is_none());
    assert!(matches!(snapshot, Some(Snapshot::Boxed(_))));

    let (script, snapshot) = StartupData::Empty.into_options();
    assert!(script.is_none() && snapshot.is_none());
}

#[test]
fn isolate_setups() {
    let o = StartupOptions::new(StartupData::Empty, true);
    assert_eq!(o.isolate_setup(), IsolateSetup::SnapshotCreator);
    let o = StartupOptions::new(StartupData::Snapshot(Snapshot::Static(&[0u8; 4])), false);
    assert_eq!(o.isolate_setup(), IsolateSetup::FromSnapshot);
    let o = StartupOptions::with_heap_limits(StartupData::Empty, HeapLimits { initial: 0, max: 20 * 1024 });
    assert!(!o.will_snapshot);
    assert_eq!(o.heap_limits.as_ref().map(|h| h.max), Some(20 * 1024));
    assert_eq!(o.isolate_setup(), IsolateSetup::Fresh);
}

#[test]
fn bootstrap_runs_once() {
    let script = OwnedScript::from(Script { source: "x", filename: "s.js" });
    let mut b = Bootstrap::new(Some(script));
    let first = b.begin();
    assert_eq!(first.unwrap().unwrap().filename, "s.js");
    assert!(b.begin().is_none());
    let mut empty = Bootstrap::new(None);
    assert!(matches!(empty.begin(), Some(None)));
}

#[test]
fn snapshot_builder_is_dropped_only_after_a_snapshot() {
    let mut s = SnapshotLifecycle::new(true);
    let t = s.teardown();
    assert!(t.leak_isolate && !t.drop_creator);
    s.mark_snapshotted();
    let t = s.teardown();
    assert!(t.leak_isolate && t.drop_creator);
    let plain = SnapshotLifecycle::new(false).teardown();
    assert!(!plain.leak_isolate && !plain.drop_creator);
}

#[test]
fn heap_limit_callback_is_replaced_and_removed() {
    let mut h: NearHeapLimit<u8> = NearHeapLimit::new();
    assert_eq!(h.add(1), None);
    assert_eq!(h.add(2), Some(1));
    assert_eq!(h.remove(), Some(2));
    assert!(h.callback.is_none());
    assert_eq!(h.remove(), None);
}
