//! The synchronization engine: an optimistic-concurrency save protocol and
//! the startup load. A save resolves the current remote revision (or takes
//! the create branch when no identity is known yet), writes the full current
//! snapshot, and on a rejected update falls back once to creating a new
//! document — last local write wins under a new identity. The engine is a
//! pure step function from task state and store reply to the next action, so
//! any store that speaks the protocol can drive it.

use vstd::prelude::*;
use crate::doc::{DocValue, DocModel, encode_state, decode_state, to_doc, from_doc};
use crate::state::{State, StateModel, empty_state_model};
use crate::store::MemStore;
use vstd::pervasive::unreached;

verus! {

/// What the engine asks its driver to do next against the store.
pub enum SaveAction {
    Fetch { id: String },
    Update { id: String, expected_rev: String, doc: DocValue },
    Create { doc: DocValue },
}

/// What the store answered to the previous action.
pub enum StoreReply {
    Found { rev: String },
    Missing,
    Written { id: String, rev: String },
    Rejected,
}

/// Where a save stands.
#[derive(Clone, Copy, Debug, PartialEq, Eq, Structural)]
pub enum SaveTask {
    Fetching,
    Updating,
    Creating,
    Done { ok: bool },
}

/// Starts a save. With a known identity the engine first fetches the current
/// remote revision; with none it takes the create branch at once — exactly
/// once, with no fetch attempted against a document that cannot exist.
pub fn begin_save(state: &State) -> (r: (SaveTask, SaveAction))
    ensures
        state@.doc_id matches Some(i) ==> r.0 is Fetching && (r.1 matches SaveAction::Fetch {
            id,
        } && id@ == i),
        state@.doc_id is None ==> r.0 is Creating && (r.1 matches SaveAction::Create { doc }
            && doc@ == encode_state(state@)),
        r.1 is Fetch ==> state@.doc_id is Some,
        !(r.1 is Update),
{
    match &state.doc_id {
        Some(id) => (SaveTask::Fetching, SaveAction::Fetch { id: id.clone() }),
        None => (SaveTask::Creating, SaveAction::Create { doc: to_doc(state) }),
    }
}

/// One step of the save protocol. The document handed to a write action is
/// built from the state as it is now, so a save always carries the current
/// snapshot, never a stale one. On a successful write the identity is
/// chained to the returned id and token; on a rejected update the engine
/// falls back to the create branch; a rejected create ends the save as
/// failed, with the state untouched.
pub fn step_save(task: SaveTask, state: &mut State, reply: StoreReply) -> (r: (
    SaveTask,
    Option<SaveAction>,
))
    requires
        task is Fetching ==> (reply is Found || reply is Missing) && old(state)@.doc_id is Some,
        task is Updating || task is Creating ==> (reply is Written || reply is Rejected),
        !(task is Done),
    ensures
        task is Fetching ==> (reply matches StoreReply::Found { rev } ==> r.0 is Updating
            && *final(state) == *old(state)
            && (r.1 matches Some(SaveAction::Update { id, expected_rev, doc })
            && id@ == old(state)@.doc_id.unwrap() && expected_rev@ == rev@ && doc@
            == encode_state(old(state)@))),
        task is Fetching && reply is Missing ==> r.0 is Creating && *final(state) == *old(state)
            && (r.1 matches Some(SaveAction::Create { doc }) && doc@ == encode_state(
            old(state)@,
        )),
        task is Updating || task is Creating ==> (reply matches StoreReply::Written { id, rev }
            ==> r.0 == (SaveTask::Done { ok: true }) && r.1 is None && final(state)@ == (StateModel {
            past: old(state)@.past,
            current: old(state)@.current,
            doc_id: Some(id@),
            doc_rev: Some(rev@),
        })),
        task is Updating && reply is Rejected ==> r.0 is Creating && *final(state) == *old(state)
            && (r.1 matches Some(SaveAction::Create { doc }) && doc@ == encode_state(
            old(state)@,
        )),
        task is Creating && reply is Rejected ==> r.0 == (SaveTask::Done { ok: false }) && r.1
            is None && *final(state) == *old(state),
{
    match task {
        SaveTask::Fetching => {
            match reply {
                StoreReply::Found { rev } => {
                    let id = match &state.doc_id {
                        Some(i) => i.clone(),
                        None => unreached(),
                    };
                    let doc = to_doc(state);
                    (SaveTask::Updating, Some(SaveAction::Update { id, expected_rev: rev, doc }))
                },
                StoreReply::Missing => {
                    let doc = to_doc(state);
                    (SaveTask::Creating, Some(SaveAction::Create { doc }))
                },
                _ => unreached(),
            }
        },
        SaveTask::Updating => {
            match reply {
                StoreReply::Written { id, rev } => {
                    state.doc_id = Some(id);
                    state.doc_rev = Some(rev);
                    (SaveTask::Done { ok: true }, None)
                },
                StoreReply::Rejected => {
                    let doc = to_doc(state);
                    (SaveTask::Creating, Some(SaveAction::Create { doc }))
                },
                _ => unreached(),
            }
        },
        SaveTask::Creating => {
            match reply {
                StoreReply::Written { id, rev } => {
                    state.doc_id = Some(id);
                    state.doc_rev = Some(rev);
                    (SaveTask::Done { ok: true }, None)
                },
                StoreReply::Rejected => (SaveTask::Done { ok: false }, None),
                _ => unreached(),
            }
        },
        SaveTask::Done { .. } => unreached(),
    }
}

/// Runs one whole save against the in-memory store. Against this store a
/// save always ends in success: a fetched revision is current by the time of
/// the write, and the create fallback cannot be refused. Afterwards the
/// aggregate's sessions are untouched, its identity points at the written
/// document, and the store holds the snapshot that was current when the save
/// began under exactly that identity.
pub fn run_save(state: &mut State, store: &mut MemStore) -> (ok: bool)
    requires
        old(store).wf(),
        old(store).counter < u64::MAX - 2,
    ensures
        final(store).wf(),
        ok == true,
        final(state)@.past == old(state)@.past,
        final(state)@.current == old(state)@.current,
        final(state)@.doc_id matches Some(i) && final(state)@.doc_rev matches Some(rv)
            && final(store)@.contains_key(i)
            && final(store)@[i] == (rv, encode_state(old(state)@)),
{
    let (task, action) = begin_save(state);
    match action {
        SaveAction::Fetch { id } => {
            let reply = match store.get(&id) {
                Some(d) => StoreReply::Found { rev: d.rev.clone() },
                None => StoreReply::Missing,
            };
            let (task2, act2) = step_save(task, state, reply);
            match act2 {
                Some(SaveAction::Update { id: uid, expected_rev, doc }) => {
                    match store.put(&uid, &expected_rev, doc) {
                        Some(new_rev) => {
                            let (_t3, _a3) = step_save(
                                task2,
                                state,
                                StoreReply::Written { id: uid, rev: new_rev },
                            );
                            true
                        },
                        None => {
                            let (t3, a3) = step_save(task2, state, StoreReply::Rejected);
                            match a3 {
                                Some(SaveAction::Create { doc }) => {
                                    let (nid, nrev) = store.post(doc);
                                    let (_t4, _a4) = step_save(
                                        t3,
                                        state,
                                        StoreReply::Written { id: nid, rev: nrev },
                                    );
                                    true
                                },
                                _ => unreached(),
                            }
                        },
                    }
                },
                Some(SaveAction::Create { doc }) => {
                    let (nid, nrev) = store.post(doc);
                    let (_t3, _a3) = step_save(
                        task2,
                        state,
                        StoreReply::Written { id: nid, rev: nrev },
                    );
                    true
                },
                _ => unreached(),
            }
        },
        SaveAction::Create { doc } => {
            let (nid, nrev) = store.post(doc);
            let (_t2, _a2) = step_save(task, state, StoreReply::Written { id: nid, rev: nrev });
            true
        },
        SaveAction::Update { .. } => unreached(),
    }
}

/// What loading yields, as a function of the store's contents: the decoded
/// document under the id, its identity taken from the store's answer; an
/// absent or undeserializable document falls back to the empty, unidentified
/// aggregate. That the result is a function of the contents alone is the
/// whole statement: loading twice from an unchanged store gives equal
/// aggregates.
pub open spec fn load_model(
    m: Map<Seq<char>, (Seq<char>, DocModel)>,
    id: Seq<char>,
) -> StateModel {
    if m.contains_key(id) && decode_state(m[id].1) is Some {
        let w = decode_state(m[id].1).unwrap();
        StateModel { past: w.past, current: w.current, doc_id: Some(id), doc_rev: Some(m[id].0) }
    } else {
        empty_state_model()
    }
}

/// Startup load: get by id, decode, record the store's identity. Any
/// failure — absent document, wrong shape, unknown tag — yields the empty,
/// unidentified aggregate, so the next save takes the create branch.
pub fn load(store: &MemStore, id: &String) -> (r: State)
    requires
        store.wf(),
    ensures
        r@ == load_model(store@, id@),
{
    match store.get(id) {
        Some(d) => {
            match from_doc(&d.body) {
                Some(mut st) => {
                    st.doc_id = Some(id.clone());
                    st.doc_rev = Some(d.rev.clone());
                    st
                },
                None => State::empty(),
            }
        },
        None => State::empty(),
    }
}

/// Loading is deterministic in the store: two loads of the same id from the
/// same contents yield the same aggregate.
pub proof fn lemma_load_idempotent(
    m: Map<Seq<char>, (Seq<char>, DocModel)>,
    id: Seq<char>,
    r1: StateModel,
    r2: StateModel,
)
    requires
        r1 == load_model(m, id),
        r2 == load_model(m, id),
    ensures
        r1 == r2,
{
}

/// Save-then-load: after a successful save — the store holds, under the
/// recorded identity, the document written from the pre-save snapshot, and
/// the in-memory aggregate carries that identity over unchanged sessions,
/// exactly what `run_save` ensures — a load of that id returns the saved
/// aggregate. No field is lost: the sessions round-trip through the
/// document, and the identity is the one the save recorded.
pub proof fn lemma_save_then_load(
    m: Map<Seq<char>, (Seq<char>, DocModel)>,
    before: StateModel,
    saved: StateModel,
    id: Seq<char>,
    rev: Seq<char>,
)
    requires
        saved.past == before.past,
        saved.current == before.current,
        saved.doc_id == Some(id),
        saved.doc_rev == Some(rev),
        m.contains_key(id),
        m[id] == (rev, encode_state(before)),
    ensures
        load_model(m, id) == saved,
{
    crate::doc::lemma_state_round_trip(before);
}

} // verus!
