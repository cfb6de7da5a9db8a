use kyudo_track::doc::{DocValue, export_documents, from_doc, to_doc};
use kyudo_track::model::{Shot, ShotSet, Session};
use kyudo_track::state::State;

fn sample_state() -> State {
    State {
        past: vec![
            Session { sets: vec![ShotSet::record_set(vec![Shot::Hit, Shot::Miss])] },
            Session {
                sets: vec![
                    ShotSet::record_set(vec![Shot::Shitsu]),
                    ShotSet::record_set(vec![Shot::Hit, Shot::Hit, Shot::Hit, Shot::Miss]),
                ],
            },
        ],
        current: Session { sets: vec![ShotSet::record_set(vec![Shot::Miss, Shot::Hit])] },
        doc_id: Some(String::from("mydoc")),
        doc_rev: Some(String::from("r..")),
    }
}

#[test]
fn round_trip_empty_state() {
    let state = State::empty();
    let doc = to_doc(&state);
    let back = from_doc(&doc).unwrap();
    assert_eq!(back, state);
}

#[test]
fn round_trip_full_state() {
    let state = sample_state();
    let doc = to_doc(&state);
    let back = from_doc(&doc).unwrap();
    assert_eq!(back, state);
}

#[test]
fn round_trip_without_identity() {
    let mut state = sample_state();
    state.doc_id = None;
    state.doc_rev = None;
    let doc = to_doc(&state);
    let back = from_doc(&doc).unwrap();
    assert_eq!(back, state);
    assert!(back.doc_id.is_none());
    assert!(back.doc_rev.is_none());
}

#[test]
fn round_trip_with_id_only() {
    let mut state = sample_state();
    state.doc_rev = None;
    let doc = to_doc(&state);
    let back = from_doc(&doc).unwrap();
    assert_eq!(back, state);
}

#[test]
fn round_trip_with_rev_only() {
    let mut state = sample_state();
    state.doc_id = None;
    let doc = to_doc(&state);
    let back = from_doc(&doc).unwrap();
    assert_eq!(back, state);
}

#[test]
fn document_shape_and_tag_spelling() {
    let mut state = State::empty();
    state.record_shots(vec![Shot::Hit, Shot::Miss, Shot::Shitsu]);
    let doc = to_doc(&state);
    let entries = match doc {
        DocValue::Record(entries) => entries,
        _ => panic!("state document must be a record"),
    };
    assert_eq!(entries.len(), 2);
    assert_eq!(entries[0].0, "past");
    assert_eq!(entries[1].0, "current");
    let sets = match &entries[1].1 {
        DocValue::Record(session_entries) => {
            assert_eq!(session_entries.len(), 1);
            assert_eq!(session_entries[0].0, "sets");
            match &session_entries[0].1 {
                DocValue::List(sets) => sets,
                _ => panic!("sets must be a list"),
            }
        },
        _ => panic!("session must be a record"),
    };
    assert_eq!(sets.len(), 1);
    let shots = match &sets[0] {
        DocValue::Record(set_entries) => {
            assert_eq!(set_entries[0].0, "hits");
            match &set_entries[0].1 {
                DocValue::List(shots) => shots,
                _ => panic!("hits must be a list"),
            }
        },
        _ => panic!("set must be a record"),
    };
    let tags: Vec<&str> = shots
        .iter()
        .map(|s| match s {
            DocValue::Text(t) => t.as_str(),
            _ => panic!("shot must be a text tag"),
        })
        .collect();
    assert_eq!(tags, vec!["Hit", "Miss", "Shitsu"]);
}

#[test]
fn identity_fields_precede_the_body() {
    let state = sample_state();
    let doc = to_doc(&state);
    match doc {
        DocValue::Record(entries) => {
            assert_eq!(entries.len(), 4);
            assert_eq!(entries[0].0, "_id");
            assert_eq!(entries[1].0, "_rev");
            assert_eq!(entries[2].0, "past");
            assert_eq!(entries[3].0, "current");
        },
        _ => panic!("state document must be a record"),
    }
}

#[test]
fn unknown_tag_fails_to_deserialize() {
    let doc = DocValue::Record(vec![
        (String::from("past"), DocValue::List(vec![])),
        (
            String::from("current"),
            DocValue::Record(vec![(
                String::from("sets"),
                DocValue::List(vec![DocValue::Record(vec![(
                    String::from("hits"),
                    DocValue::List(vec![DocValue::Text(String::from("Banzai"))]),
                )])]),
            )]),
        ),
    ]);
    assert!(from_doc(&doc).is_none());
}

#[test]
fn wrong_shape_fails_to_deserialize() {
    assert!(from_doc(&DocValue::Text(String::from("Hit"))).is_none());
    assert!(from_doc(&DocValue::Record(vec![])).is_none());
    let missing_current = DocValue::Record(vec![(String::from("past"), DocValue::List(vec![]))]);
    assert!(from_doc(&missing_current).is_none());
}

#[test]
fn bulk_export_lists_current_then_history() {
    let state = sample_state();
    let docs = export_documents(&state);
    assert_eq!(docs.len(), 3);
    // The first document is the running session: one set of two shots.
    match &docs[0] {
        DocValue::Record(entries) => {
            assert_eq!(entries[0].0, "sets");
            match &entries[0].1 {
                DocValue::List(sets) => assert_eq!(sets.len(), 1),
                _ => panic!("sets must be a list"),
            }
        },
        _ => panic!("session must be a record"),
    }
    // The second is the first historical session.
    match &docs[1] {
        DocValue::Record(entries) => match &entries[0].1 {
            DocValue::List(sets) => assert_eq!(sets.len(), 1),
            _ => panic!("sets must be a list"),
        },
        _ => panic!("session must be a record"),
    }
    match &docs[2] {
        DocValue::Record(entries) => match &entries[0].1 {
            DocValue::List(sets) => assert_eq!(sets.len(), 2),
            _ => panic!("sets must be a list"),
        },
        _ => panic!("session must be a record"),
    }
}
