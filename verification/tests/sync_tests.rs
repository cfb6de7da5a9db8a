use kyudo_track::model::Shot;
use kyudo_track::state::State;
use kyudo_track::store::MemStore;
use kyudo_track::sync::{begin_save, load, run_save, step_save, SaveAction, SaveTask, StoreReply};
use kyudo_track::doc::to_doc;

#[test]
fn save_then_load_returns_the_saved_state() {
    let mut store = MemStore::new();
    let mut state = State::empty();
    state.record_shots(vec![Shot::Hit, Shot::Miss, Shot::Hit, Shot::Hit]);
    assert!(run_save(&mut state, &mut store));
    let id = state.doc_id.clone().unwrap();
    let loaded = load(&store, &id);
    assert_eq!(loaded, state);
}

#[test]
fn loading_twice_from_unchanged_store_is_idempotent() {
    let mut store = MemStore::new();
    let mut state = State::empty();
    state.record_shots(vec![Shot::Shitsu, Shot::Hit]);
    assert!(run_save(&mut state, &mut store));
    let id = state.doc_id.clone().unwrap();
    let first = load(&store, &id);
    let second = load(&store, &id);
    assert_eq!(first, second);
}

#[test]
fn load_from_empty_store_yields_empty_unidentified_state() {
    let store = MemStore::new();
    let loaded = load(&store, &String::from("mydoc"));
    assert_eq!(loaded, State::empty());
    assert!(loaded.doc_id.is_none());
    assert!(loaded.doc_rev.is_none());
}

#[test]
fn first_save_takes_the_create_branch_once() {
    let state = State::empty();
    let (task, action) = begin_save(&state);
    // No identity: no fetch against a document that cannot exist, straight
    // to a single create.
    assert_eq!(task, SaveTask::Creating);
    assert!(matches!(action, SaveAction::Create { .. }));

    let mut store = MemStore::new();
    let mut state = State::empty();
    state.record_shots(vec![Shot::Hit]);
    assert!(run_save(&mut state, &mut store));
    assert!(state.doc_id.is_some());
    assert!(state.doc_rev.is_some());
    assert_eq!(store.docs.len(), 1);
}

#[test]
fn second_save_updates_in_place() {
    let mut store = MemStore::new();
    let mut state = State::empty();
    state.record_shots(vec![Shot::Hit]);
    assert!(run_save(&mut state, &mut store));
    let id1 = state.doc_id.clone().unwrap();
    let rev1 = state.doc_rev.clone().unwrap();
    state.record_shots(vec![Shot::Miss]);
    assert!(run_save(&mut state, &mut store));
    let id2 = state.doc_id.clone().unwrap();
    let rev2 = state.doc_rev.clone().unwrap();
    assert_eq!(id1, id2);
    assert_ne!(rev1, rev2);
    assert_eq!(store.docs.len(), 1);
    let loaded = load(&store, &id2);
    assert_eq!(loaded, state);
}

#[test]
fn save_with_identity_fetches_first() {
    let mut store = MemStore::new();
    let mut state = State::empty();
    assert!(run_save(&mut state, &mut store));
    let (task, action) = begin_save(&state);
    assert_eq!(task, SaveTask::Fetching);
    match action {
        SaveAction::Fetch { id } => assert_eq!(Some(id), state.doc_id),
        _ => panic!("a save with a known identity must fetch the revision first"),
    }
}

#[test]
fn stale_update_is_rejected_by_the_store() {
    let mut store = MemStore::new();
    let mut state = State::empty();
    state.record_shots(vec![Shot::Hit]);
    assert!(run_save(&mut state, &mut store));
    let id = state.doc_id.clone().unwrap();
    let stale_rev = state.doc_rev.clone().unwrap();
    // A second save moves the stored revision on.
    state.record_shots(vec![Shot::Miss]);
    assert!(run_save(&mut state, &mut store));
    // An update that still expects the old token is rejected.
    let rejected = store.put(&id, &stale_rev, to_doc(&state));
    assert!(rejected.is_none());
    // With the current token it goes through.
    let current_rev = state.doc_rev.clone().unwrap();
    let accepted = store.put(&id, &current_rev, to_doc(&state));
    assert!(accepted.is_some());
}

#[test]
fn conflict_falls_back_to_create_with_fresh_identity() {
    let mut store = MemStore::new();
    let mut state = State::empty();
    state.record_shots(vec![Shot::Hit, Shot::Hit]);
    assert!(run_save(&mut state, &mut store));
    let id = state.doc_id.clone().unwrap();
    let stale_rev = state.doc_rev.clone().unwrap();
    // Another writer moves the document on, so our token goes stale.
    let mut other = load(&store, &id);
    other.record_shots(vec![Shot::Miss]);
    assert!(run_save(&mut other, &mut store));

    // Drive one save by hand: the fetch of this save raced the other writer
    // and saw the old token.
    let (task, action) = begin_save(&state);
    assert_eq!(task, SaveTask::Fetching);
    assert!(matches!(action, SaveAction::Fetch { .. }));
    let (task, action) = step_save(task, &mut state, StoreReply::Found { rev: stale_rev });
    assert_eq!(task, SaveTask::Updating);
    let (uid, expected_rev, doc) = match action {
        Some(SaveAction::Update { id, expected_rev, doc }) => (id, expected_rev, doc),
        _ => panic!("a found revision must lead to an update"),
    };
    // The store rejects the stale update ...
    assert!(store.put(&uid, &expected_rev, doc).is_none());
    // ... and the engine falls back to a create rather than failing outright.
    let (task, action) = step_save(task, &mut state, StoreReply::Rejected);
    assert_eq!(task, SaveTask::Creating);
    let doc = match action {
        Some(SaveAction::Create { doc }) => doc,
        _ => panic!("a rejected update must fall back to a create"),
    };
    let (new_id, new_rev) = store.post(doc);
    let (task, action) = step_save(
        task,
        &mut state,
        StoreReply::Written { id: new_id.clone(), rev: new_rev.clone() },
    );
    assert_eq!(task, SaveTask::Done { ok: true });
    assert!(action.is_none());
    // The in-memory identity now points at the new document.
    assert_eq!(state.doc_id, Some(new_id.clone()));
    assert_eq!(state.doc_rev, Some(new_rev));
    assert_ne!(Some(new_id.clone()), Some(id));
    // The new document holds this writer's history.
    let reloaded = load(&store, &new_id);
    assert_eq!(reloaded, state);
    assert_eq!(store.docs.len(), 2);
}

#[test]
fn rejected_create_ends_the_save_as_failed() {
    let mut state = State::empty();
    state.record_shots(vec![Shot::Hit]);
    let before = state.clone();
    let (task, _action) = begin_save(&state);
    assert_eq!(task, SaveTask::Creating);
    let (task, action) = step_save(task, &mut state, StoreReply::Rejected);
    assert_eq!(task, SaveTask::Done { ok: false });
    assert!(action.is_none());
    assert_eq!(state, before);
}

#[test]
fn missing_document_on_fetch_leads_to_create() {
    let mut store = MemStore::new();
    let mut state = State::empty();
    assert!(run_save(&mut state, &mut store));
    // Point the identity at a document the store does not hold.
    state.doc_id = Some(String::from("gone"));
    let (task, _action) = begin_save(&state);
    let (task, action) = step_save(task, &mut state, StoreReply::Missing);
    assert_eq!(task, SaveTask::Creating);
    assert!(matches!(action, Some(SaveAction::Create { .. })));
}
