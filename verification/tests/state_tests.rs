use jsonp_runtime::state::{LoadEvent, LoadState, LoadTable};

fn seeded(ids: &[&str]) -> LoadTable {
    let v: Vec<String> = ids.iter().map(|s| s.to_string()).collect();
    LoadTable::seed(&v)
}

#[test]
fn seeding_marks_initial_chunks_loaded() {
    let t = seeded(&["main", "runtime"]);
    assert_eq!(t.lookup(&"main".to_string()), LoadState::Loaded);
    assert_eq!(t.lookup(&"runtime".to_string()), LoadState::Loaded);
    assert_eq!(t.lookup(&"lazy".to_string()), LoadState::NotLoaded);
}

#[test]
fn seeding_tolerates_a_repeated_id() {
    let t = seeded(&["main", "main"]);
    assert_eq!(t.lookup(&"main".to_string()), LoadState::Loaded);
}

#[test]
fn seeded_chunk_never_transitions_through_loading() {
    let mut t = seeded(&["main"]);
    let id = "main".to_string();
    t.step(&LoadEvent::Hint(id.clone()));
    assert_eq!(t.lookup(&id), LoadState::Loaded);
    t.step(&LoadEvent::Ensure(id.clone(), 1));
    assert_eq!(t.lookup(&id), LoadState::Loaded);
    t.step(&LoadEvent::Resolve(id.clone()));
    assert_eq!(t.lookup(&id), LoadState::Loaded);
    t.step(&LoadEvent::Reject(id.clone()));
    assert_eq!(t.lookup(&id), LoadState::Loaded);
}

#[test]
fn invalidation_clears_a_loaded_chunk() {
    let mut t = seeded(&["main"]);
    let id = "main".to_string();
    t.step(&LoadEvent::Invalidate(id.clone()));
    assert_eq!(t.lookup(&id), LoadState::NotLoaded);
    // after the HMR invalidation a fresh load is a new loading transition
    t.step(&LoadEvent::Ensure(id.clone(), 2));
    assert_eq!(t.lookup(&id), LoadState::Loading(2));
    t.step(&LoadEvent::Resolve(id.clone()));
    assert_eq!(t.lookup(&id), LoadState::Loaded);
}

#[test]
fn untouched_chunk_walks_the_full_lifecycle() {
    let mut t = seeded(&[]);
    let id = "lazy".to_string();
    assert_eq!(t.lookup(&id), LoadState::NotLoaded);
    t.step(&LoadEvent::Hint(id.clone()));
    assert_eq!(t.lookup(&id), LoadState::Preloaded);
    t.step(&LoadEvent::Hint(id.clone()));
    assert_eq!(t.lookup(&id), LoadState::Preloaded);
    t.step(&LoadEvent::Ensure(id.clone(), 7));
    assert_eq!(t.lookup(&id), LoadState::Loading(7));
    // a second ensure keeps the pending handle
    t.step(&LoadEvent::Ensure(id.clone(), 8));
    assert_eq!(t.lookup(&id), LoadState::Loading(7));
    t.step(&LoadEvent::Resolve(id.clone()));
    assert_eq!(t.lookup(&id), LoadState::Loaded);
}

#[test]
fn rejection_removes_the_chunk_and_a_retry_is_fresh() {
    let mut t = seeded(&[]);
    let id = "lazy".to_string();
    t.step(&LoadEvent::Ensure(id.clone(), 3));
    assert_eq!(t.lookup(&id), LoadState::Loading(3));
    t.step(&LoadEvent::Reject(id.clone()));
    assert_eq!(t.lookup(&id), LoadState::NotLoaded);
    t.step(&LoadEvent::Ensure(id.clone(), 4));
    assert_eq!(t.lookup(&id), LoadState::Loading(4));
}

#[test]
fn events_do_not_disturb_other_chunks() {
    let mut t = seeded(&["main"]);
    t.step(&LoadEvent::Ensure("lazy".to_string(), 5));
    assert_eq!(t.lookup(&"main".to_string()), LoadState::Loaded);
    assert_eq!(t.lookup(&"lazy".to_string()), LoadState::Loading(5));
    t.step(&LoadEvent::Reject("lazy".to_string()));
    assert_eq!(t.lookup(&"main".to_string()), LoadState::Loaded);
    assert_eq!(t.lookup(&"lazy".to_string()), LoadState::NotLoaded);
}

#[test]
fn resolve_and_reject_touch_only_in_flight_loads() {
    let mut t = seeded(&[]);
    let id = "lazy".to_string();
    t.step(&LoadEvent::Resolve(id.clone()));
    assert_eq!(t.lookup(&id), LoadState::NotLoaded);
    t.step(&LoadEvent::Hint(id.clone()));
    t.step(&LoadEvent::Reject(id.clone()));
    assert_eq!(t.lookup(&id), LoadState::Preloaded);
}
