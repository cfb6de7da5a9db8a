use kyudo_track::model::{Shot, ShotSet, Session};
use kyudo_track::state::State;

#[test]
fn set_counts_mixed() {
    let set = ShotSet::record_set(vec![Shot::Hit, Shot::Hit, Shot::Miss, Shot::Hit]);
    assert_eq!(set.hit_count(), 3);
    assert_eq!(set.miss_count(), 1);
    assert_eq!(set.number_of_shots(), 4);
    assert!(!set.had_shitsu());
}

#[test]
fn set_counts_with_shitsu() {
    let set = ShotSet::record_set(vec![Shot::Miss, Shot::Miss, Shot::Shitsu, Shot::Hit]);
    assert_eq!(set.hit_count(), 1);
    assert_eq!(set.miss_count(), 2);
    assert_eq!(set.number_of_shots(), 4);
    assert!(set.had_shitsu());
}

#[test]
fn empty_set_is_legal() {
    let set = ShotSet::record_set(vec![]);
    assert_eq!(set.hit_count(), 0);
    assert_eq!(set.miss_count(), 0);
    assert_eq!(set.number_of_shots(), 0);
    assert!(!set.had_shitsu());
}

#[test]
fn session_totals_aggregate_sets() {
    let session = Session {
        sets: vec![
            ShotSet::record_set(vec![Shot::Hit, Shot::Hit, Shot::Miss, Shot::Hit]),
            ShotSet::record_set(vec![Shot::Miss, Shot::Miss, Shot::Shitsu, Shot::Hit]),
        ],
    };
    assert_eq!(session.shots(), 8);
    assert_eq!(session.hits(), 4);
    assert_eq!(session.misses(), 3);
}

#[test]
fn statistics_partition_on_example() {
    // A shitsu counts in the total but in neither the hits nor the misses,
    // so the shortfall of hits + misses against the total is the shitsu count.
    let mut state = State::empty();
    state.record_shots(vec![Shot::Hit, Shot::Hit, Shot::Miss, Shot::Hit]);
    state.record_shots(vec![Shot::Miss, Shot::Miss, Shot::Shitsu, Shot::Hit]);
    let stats = state.current_statistics();
    assert_eq!(stats.total - stats.hits - stats.misses, 1);
}

#[test]
fn two_recorded_sets_scenario() {
    let mut state = State::empty();
    state.record_shots(vec![Shot::Hit, Shot::Hit, Shot::Miss, Shot::Hit]);
    state.record_shots(vec![Shot::Miss, Shot::Miss, Shot::Shitsu, Shot::Hit]);
    let stats = state.current_statistics();
    assert_eq!(stats.total, 8);
    assert_eq!(stats.hits, 4);
    assert_eq!(stats.misses, 3);
    let (hits, total) = stats.hit_rate().unwrap();
    assert_eq!((hits, total), (4, 8));
    assert_eq!(hits as f64 / total as f64, 0.5);
}

#[test]
fn zero_shots_has_no_rate() {
    let state = State::empty();
    let stats = state.current_statistics();
    assert_eq!(stats.total, 0);
    assert!(stats.hit_rate().is_none());
}

#[test]
fn record_shots_appends_in_order() {
    let mut state = State::empty();
    state.record_shots(vec![Shot::Hit]);
    state.record_shots(vec![Shot::Miss, Shot::Shitsu]);
    assert_eq!(state.current.sets.len(), 2);
    assert_eq!(state.current.sets[0].hits, vec![Shot::Hit]);
    assert_eq!(state.current.sets[1].hits, vec![Shot::Miss, Shot::Shitsu]);
    assert!(state.past.is_empty());
    assert!(state.doc_id.is_none());
    assert!(state.doc_rev.is_none());
}

#[test]
fn snapshot_is_the_aggregate_itself() {
    let mut state = State::empty();
    state.record_shots(vec![Shot::Hit, Shot::Miss]);
    let snap = state.snapshot();
    assert_eq!(*snap, state);
}

#[test]
fn default_state_is_empty() {
    let state = State::default();
    assert_eq!(state, State::empty());
}
