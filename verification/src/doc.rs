//! The persisted document shape and its codec. The store speaks structured
//! documents (text leaves, lists, keyed records); the aggregate serializes to
//! `{ _id?, _rev?, past: [...], current: {...} }` with shots written as the
//! tag texts `"Hit"`, `"Miss"`, `"Shitsu"` — the spelling is part of the
//! stored format and is preserved for documents already on disk.

use vstd::prelude::*;
use crate::model::{Shot, ShotSet, Session};
use crate::state::{State, StateModel};
use vstd::string::StringExecFns;

verus! {

broadcast use vstd::std_specs::vec::group_vec_axioms;

/// Mathematical model of a document value.
pub ghost enum DocModel {
    Text(Seq<char>),
    List(Seq<DocModel>),
    Record(Seq<(Seq<char>, DocModel)>),
}

/// A structured document value, as the store holds it.
pub enum DocValue {
    Text(String),
    List(Vec<DocValue>),
    Record(Vec<(String, DocValue)>),
}

impl View for DocValue {
    type V = DocModel;

    open spec fn view(&self) -> DocModel
        decreases self,
    {
        match self {
            DocValue::Text(s) => DocModel::Text(s@),
            DocValue::List(v) => DocModel::List(
                Seq::new(
                    v@.len(),
                    |i: int|
                        if 0 <= i < v@.len() {
                            v@[i]@
                        } else {
                            DocModel::Text(Seq::empty())
                        },
                ),
            ),
            DocValue::Record(v) => DocModel::Record(
                Seq::new(
                    v@.len(),
                    |i: int|
                        if 0 <= i < v@.len() {
                            (v@[i].0@, v@[i].1@)
                        } else {
                            (Seq::empty(), DocModel::Text(Seq::empty()))
                        },
                ),
            ),
        }
    }
}

/// How one shot is written: its tag text.
pub open spec fn encode_shot(s: Shot) -> DocModel {
    match s {
        Shot::Hit => DocModel::Text("Hit"@),
        Shot::Miss => DocModel::Text("Miss"@),
        Shot::Shitsu => DocModel::Text("Shitsu"@),
    }
}

/// How one set is written: `{ hits: [shot, ...] }`.
pub open spec fn encode_set(shots: Seq<Shot>) -> DocModel {
    DocModel::Record(
        seq![("hits"@, DocModel::List(shots.map_values(|s: Shot| encode_shot(s))))],
    )
}

/// How one session is written: `{ sets: [set, ...] }`.
pub open spec fn encode_session(sets: Seq<Seq<Shot>>) -> DocModel {
    DocModel::Record(
        seq![("sets"@, DocModel::List(sets.map_values(|v: Seq<Shot>| encode_set(v))))],
    )
}

/// The identity prefix of the state record: present fields only.
pub open spec fn identity_entries(sm: StateModel) -> Seq<(Seq<char>, DocModel)> {
    (match sm.doc_id {
        Some(id) => seq![("_id"@, DocModel::Text(id))],
        None => Seq::empty(),
    }) + (match sm.doc_rev {
        Some(rv) => seq![("_rev"@, DocModel::Text(rv))],
        None => Seq::empty(),
    })
}

/// How the whole aggregate is written:
/// `{ _id?, _rev?, past: [session, ...], current: session }`.
pub open spec fn encode_state(sm: StateModel) -> DocModel {
    DocModel::Record(
        identity_entries(sm) + seq![
            ("past"@, DocModel::List(sm.past.map_values(|s: Seq<Seq<Shot>>| encode_session(s)))),
            ("current"@, encode_session(sm.current)),
        ],
    )
}

/// Reading one shot back: exactly the three known tags; anything else is
/// undeserializable.
pub open spec fn decode_shot(d: DocModel) -> Option<Shot> {
    match d {
        DocModel::Text(t) => if t == "Hit"@ {
            Some(Shot::Hit)
        } else if t == "Miss"@ {
            Some(Shot::Miss)
        } else if t == "Shitsu"@ {
            Some(Shot::Shitsu)
        } else {
            None
        },
        _ => None,
    }
}

/// Reading a list of shots back: all elements must decode.
pub open spec fn decode_shots(elems: Seq<DocModel>) -> Option<Seq<Shot>> {
    if forall|j: int| 0 <= j < elems.len() ==> decode_shot(elems[j]) is Some {
        Some(Seq::new(elems.len(), |j: int| decode_shot(elems[j]).unwrap()))
    } else {
        None
    }
}

/// Reading one set back: a record with the single key `hits`.
pub open spec fn decode_set(d: DocModel) -> Option<Seq<Shot>> {
    match d {
        DocModel::Record(es) => if es.len() == 1 && es[0].0 == "hits"@ {
            match es[0].1 {
                DocModel::List(elems) => decode_shots(elems),
                _ => None,
            }
        } else {
            None
        },
        _ => None,
    }
}

/// Reading a list of sets back: all elements must decode.
pub open spec fn decode_sets(elems: Seq<DocModel>) -> Option<Seq<Seq<Shot>>> {
    if forall|j: int| 0 <= j < elems.len() ==> decode_set(elems[j]) is Some {
        Some(Seq::new(elems.len(), |j: int| decode_set(elems[j]).unwrap()))
    } else {
        None
    }
}

/// Reading one session back: a record with the single key `sets`.
pub open spec fn decode_session(d: DocModel) -> Option<Seq<Seq<Shot>>> {
    match d {
        DocModel::Record(es) => if es.len() == 1 && es[0].0 == "sets"@ {
            match es[0].1 {
                DocModel::List(elems) => decode_sets(elems),
                _ => None,
            }
        } else {
            None
        },
        _ => None,
    }
}

/// Reading a list of sessions back: all elements must decode.
pub open spec fn decode_sessions(elems: Seq<DocModel>) -> Option<Seq<Seq<Seq<Shot>>>> {
    if forall|j: int| 0 <= j < elems.len() ==> decode_session(elems[j]) is Some {
        Some(Seq::new(elems.len(), |j: int| decode_session(elems[j]).unwrap()))
    } else {
        None
    }
}

/// Reading the mandatory tail of the state record: `past` then `current`.
pub open spec fn decode_main(
    es: Seq<(Seq<char>, DocModel)>,
    id: Option<Seq<char>>,
    rev: Option<Seq<char>>,
) -> Option<StateModel> {
    if es.len() == 2 && es[0].0 == "past"@ && es[1].0 == "current"@ {
        match es[0].1 {
            DocModel::List(ss) => match (decode_sessions(ss), decode_session(es[1].1)) {
                (Some(p), Some(c)) => Some(
                    StateModel { past: p, current: c, doc_id: id, doc_rev: rev },
                ),
                _ => None,
            },
            _ => None,
        }
    } else {
        None
    }
}

/// Reading the optional `_rev` entry, then the tail.
pub open spec fn decode_after_id(
    es: Seq<(Seq<char>, DocModel)>,
    id: Option<Seq<char>>,
) -> Option<StateModel> {
    if es.len() > 0 && es[0].0 == "_rev"@ {
        match es[0].1 {
            DocModel::Text(rv) => decode_main(es.skip(1), id, Some(rv)),
            _ => None,
        }
    } else {
        decode_main(es, id, None)
    }
}

/// Reading the optional `_id` entry, then the rest. A missing identity
/// deserializes to "not yet persisted".
pub open spec fn decode_top(es: Seq<(Seq<char>, DocModel)>) -> Option<StateModel> {
    if es.len() > 0 && es[0].0 == "_id"@ {
        match es[0].1 {
            DocModel::Text(idv) => decode_after_id(es.skip(1), Some(idv)),
            _ => None,
        }
    } else {
        decode_after_id(es, None)
    }
}

/// Reading a whole aggregate back from a document.
pub open spec fn decode_state(d: DocModel) -> Option<StateModel> {
    match d {
        DocModel::Record(es) => decode_top(es),
        _ => None,
    }
}

fn shot_to_doc(s: Shot) -> (r: DocValue)
    ensures
        r@ == encode_shot(s),
{
    match s {
        Shot::Hit => DocValue::Text(String::from_str("Hit")),
        Shot::Miss => DocValue::Text(String::from_str("Miss")),
        Shot::Shitsu => DocValue::Text(String::from_str("Shitsu")),
    }
}

fn set_to_doc(set: &ShotSet) -> (r: DocValue)
    ensures
        r@ == encode_set(set@),
{
    let mut shots: Vec<DocValue> = Vec::new();
    let mut i: usize = 0;
    while i < set.hits.len()
        invariant
            0 <= i <= set.hits.len(),
            shots@.len() == i,
            forall|j: int| 0 <= j < i ==> shots@[j]@ == encode_shot(set.hits@[j]),
        decreases set.hits.len() - i,
    {
        shots.push(shot_to_doc(set.hits[i]));
        i = i + 1;
    }
    let mut entries: Vec<(String, DocValue)> = Vec::new();
    let list = DocValue::List(shots);
    proof {
        let inner = list@->List_0;
        assert(inner =~= set@.map_values(|s: Shot| encode_shot(s)));
    }
    entries.push((String::from_str("hits"), list));
    let r = DocValue::Record(entries);
    proof {
        assert(r@->Record_0 =~= encode_set(set@)->Record_0);
    }
    r
}

fn session_to_doc(sess: &Session) -> (r: DocValue)
    ensures
        r@ == encode_session(sess@),
{
    let mut sets: Vec<DocValue> = Vec::new();
    let mut i: usize = 0;
    while i < sess.sets.len()
        invariant
            0 <= i <= sess.sets.len(),
            sets@.len() == i,
            forall|j: int| 0 <= j < i ==> sets@[j]@ == encode_set(sess.sets@[j]@),
        decreases sess.sets.len() - i,
    {
        sets.push(set_to_doc(&sess.sets[i]));
        i = i + 1;
    }
    let mut entries: Vec<(String, DocValue)> = Vec::new();
    let list = DocValue::List(sets);
    proof {
        let inner = list@->List_0;
        assert(inner =~= sess@.map_values(|v: Seq<Shot>| encode_set(v)));
    }
    entries.push((String::from_str("sets"), list));
    let r = DocValue::Record(entries);
    proof {
        assert(r@->Record_0 =~= encode_session(sess@)->Record_0);
    }
    r
}

/// Writes the aggregate as the document the store will hold.
pub fn to_doc(s: &State) -> (r: DocValue)
    ensures
        r@ == encode_state(s@),
{
    let mut entries: Vec<(String, DocValue)> = Vec::new();
    match &s.doc_id {
        Some(id) => {
            entries.push((String::from_str("_id"), DocValue::Text(id.clone())));
        },
        None => {},
    }
    match &s.doc_rev {
        Some(rv) => {
            entries.push((String::from_str("_rev"), DocValue::Text(rv.clone())));
        },
        None => {},
    }
    proof {
        let ide = identity_entries(s@);
        assert(entries@.len() == ide.len());
        assert(forall|j: int|
            0 <= j < entries@.len() ==> (entries@[j].0@, entries@[j].1@) == ide[j]);
    }
    let ghost pre = entries@;
    let mut sessions: Vec<DocValue> = Vec::new();
    let mut i: usize = 0;
    while i < s.past.len()
        invariant
            0 <= i <= s.past.len(),
            sessions@.len() == i,
            forall|j: int| 0 <= j < i ==> sessions@[j]@ == encode_session(s.past@[j]@),
        decreases s.past.len() - i,
    {
        sessions.push(session_to_doc(&s.past[i]));
        i = i + 1;
    }
    let plist = DocValue::List(sessions);
    proof {
        let inner = plist@->List_0;
        assert(inner =~= s@.past.map_values(|v: Seq<Seq<Shot>>| encode_session(v)));
    }
    entries.push((String::from_str("past"), plist));
    entries.push((String::from_str("current"), session_to_doc(&s.current)));
    let ghost fin = entries@;
    let r = DocValue::Record(entries);
    proof {
        reveal_with_fuel(<DocValue as View>::view, 2);
        let ide = identity_entries(s@);
        let target = encode_state(s@)->Record_0;
        let got = r@->Record_0;
        assert(fin.len() == ide.len() + 2);
        assert(r@ is Record);
        assert(got.len() == fin.len());
        assert forall|j: int| 0 <= j < got.len() implies got[j] == target[j] by {
            assert(got[j] == (fin[j].0@, fin[j].1@));
            if j < ide.len() {
                assert(fin[j] == pre[j]);
            } else if j == ide.len() {
                assert(fin[j].1@ == plist@);
            }
        }
        assert(got =~= target);
    }
    r
}

fn shot_from_doc(d: &DocValue) -> (r: Option<Shot>)
    ensures
        r == decode_shot(d@),
{
    proof {
        reveal_with_fuel(<DocValue as View>::view, 2);
    }
    match d {
        DocValue::Text(s) => {
            if *s == String::from_str("Hit") {
                Some(Shot::Hit)
            } else if *s == String::from_str("Miss") {
                Some(Shot::Miss)
            } else if *s == String::from_str("Shitsu") {
                Some(Shot::Shitsu)
            } else {
                None
            }
        },
        _ => None,
    }
}

fn set_from_doc(d: &DocValue) -> (r: Option<ShotSet>)
    ensures
        decode_set(d@) matches Some(v) ==> (r matches Some(ss) && ss@ == v),
        decode_set(d@) is None ==> r is None,
{
    proof {
        reveal_with_fuel(<DocValue as View>::view, 2);
    }
    match d {
        DocValue::Record(entries) => {
            if entries.len() != 1 {
                return None;
            }
            let p = &entries[0];
            if !(p.0 == String::from_str("hits")) {
                return None;
            }
            match &p.1 {
                DocValue::List(elems) => {
                    let ghost em = d@->Record_0[0].1->List_0;
                    proof {
                        assert(em.len() == elems@.len());
                        assert(forall|j: int| 0 <= j < em.len() ==> em[j] == elems@[j]@);
                    }
                    proof {
                        assert(decode_set(d@) == decode_shots(em));
                    }
                    let mut shots: Vec<Shot> = Vec::new();
                    let mut i: usize = 0;
                    while i < elems.len()
                        invariant
                            0 <= i <= elems.len(),
                            shots@.len() == i,
                            em.len() == elems@.len(),
                            decode_set(d@) == decode_shots(em),
                            forall|j: int| 0 <= j < em.len() ==> em[j] == elems@[j]@,
                            forall|j: int| 0 <= j < i ==> decode_shot(em[j]) == Some(shots@[j]),
                        decreases elems.len() - i,
                    {
                        match shot_from_doc(&elems[i]) {
                            Some(sh) => {
                                proof {
                                    assert(em[i as int] == elems@[i as int]@);
                                }
                                shots.push(sh);
                            },
                            None => {
                                proof {
                                    assert(decode_shot(em[i as int]) is None);
                                    assert(!(forall|j: int|
                                        0 <= j < em.len() ==> decode_shot(em[j]) is Some));
                                }
                                return None;
                            },
                        }
                        i = i + 1;
                    }
                    proof {
                        assert(decode_shots(em) matches Some(v) && v =~= shots@);
                    }
                    Some(ShotSet { hits: shots })
                },
                _ => None,
            }
        },
        _ => None,
    }
}

fn session_from_doc(d: &DocValue) -> (r: Option<Session>)
    ensures
        decode_session(d@) matches Some(v) ==> (r matches Some(ss) && ss@ == v),
        decode_session(d@) is None ==> r is None,
{
    proof {
        reveal_with_fuel(<DocValue as View>::view, 2);
    }
    match d {
        DocValue::Record(entries) => {
            if entries.len() != 1 {
                return None;
            }
            let p = &entries[0];
            if !(p.0 == String::from_str("sets")) {
                return None;
            }
            match &p.1 {
                DocValue::List(elems) => {
                    let ghost em = d@->Record_0[0].1->List_0;
                    proof {
                        assert(em.len() == elems@.len());
                        assert(forall|j: int| 0 <= j < em.len() ==> em[j] == elems@[j]@);
                    }
                    proof {
                        assert(decode_session(d@) == decode_sets(em));
                    }
                    let mut sets: Vec<ShotSet> = Vec::new();
                    let mut i: usize = 0;
                    while i < elems.len()
                        invariant
                            0 <= i <= elems.len(),
                            sets@.len() == i,
                            em.len() == elems@.len(),
                            decode_session(d@) == decode_sets(em),
                            forall|j: int| 0 <= j < em.len() ==> em[j] == elems@[j]@,
                            forall|j: int| 0 <= j < i ==> decode_set(em[j]) == Some(sets@[j]@),
                        decreases elems.len() - i,
                    {
                        match set_from_doc(&elems[i]) {
                            Some(ss) => {
                                sets.push(ss);
                            },
                            None => {
                                proof {
                                    assert(decode_set(em[i as int]) is None);
                                    assert(!(forall|j: int|
                                        0 <= j < em.len() ==> decode_set(em[j]) is Some));
                                }
                                return None;
                            },
                        }
                        i = i + 1;
                    }
                    let r = Session { sets };
                    proof {
                        assert(decode_sets(em) matches Some(v) && v =~= r@);
                    }
                    Some(r)
                },
                _ => None,
            }
        },
        _ => None,
    }
}

/// Reads an aggregate back from a document. Returns `None` exactly when the
/// document does not have the persisted shape — the caller then falls back to
/// an empty aggregate.
pub fn from_doc(d: &DocValue) -> (r: Option<State>)
    ensures
        decode_state(d@) matches Some(sm) ==> (r matches Some(st) && st@ == sm),
        decode_state(d@) is None ==> r is None,
{
    proof {
        reveal_with_fuel(<DocValue as View>::view, 2);
    }
    let entries = match d {
        DocValue::Record(entries) => entries,
        _ => {
            return None;
        },
    };
    let ghost es = d@->Record_0;
    proof {
        assert(es.len() == entries@.len());
        assert(forall|j: int|
            0 <= j < es.len() ==> es[j] == (entries@[j].0@, entries@[j].1@));
    }
    let n = entries.len();
    let mut idx: usize = 0;
    let mut doc_id: Option<String> = None;
    let mut doc_rev: Option<String> = None;
    let ghost mut vid: Option<Seq<char>> = None;
    let ghost mut vrev: Option<Seq<char>> = None;
    if n > 0 {
        let p = &entries[0];
        if p.0 == String::from_str("_id") {
            match &p.1 {
                DocValue::Text(t) => {
                    doc_id = Some(t.clone());
                    proof {
                        vid = Some(t@);
                    }
                    idx = 1;
                },
                _ => {
                    return None;
                },
            }
        }
    }
    proof {
        assert(es.skip(0) =~= es);
        assert(decode_top(es) == decode_after_id(es.skip(idx as int), vid));
    }
    let ghost rem1 = es.skip(idx as int);
    let ghost idx1 = idx as int;
    if idx < n {
        let p = &entries[idx];
        if p.0 == String::from_str("_rev") {
            match &p.1 {
                DocValue::Text(t) => {
                    doc_rev = Some(t.clone());
                    proof {
                        vrev = Some(t@);
                    }
                    idx = idx + 1;
                },
                _ => {
                    return None;
                },
            }
        }
    }
    proof {
        if idx as int == idx1 {
            assert(decode_after_id(rem1, vid) == decode_main(es.skip(idx as int), vid, vrev));
        } else {
            assert(idx as int == idx1 + 1);
            assert(es.skip(idx1).skip(1) =~= es.skip(idx as int));
            assert(decode_after_id(rem1, vid) == decode_main(es.skip(idx as int), vid, vrev));
        }
    }
    let ghost rem = es.skip(idx as int);
    if n - idx != 2 {
        return None;
    }
    let p_past = &entries[idx];
    let p_cur = &entries[idx + 1];
    proof {
        assert(rem[0] == es[idx as int]);
        assert(rem[1] == es[idx as int + 1]);
    }
    if !(p_past.0 == String::from_str("past")) {
        return None;
    }
    if !(p_cur.0 == String::from_str("current")) {
        return None;
    }
    let sess_elems = match &p_past.1 {
        DocValue::List(v) => v,
        _ => {
            return None;
        },
    };
    let ghost em = rem[0].1->List_0;
    proof {
        assert(em.len() == sess_elems@.len());
        assert(forall|j: int| 0 <= j < em.len() ==> em[j] == sess_elems@[j]@);
        assert(rem.len() == 2 && rem[0].1 == DocModel::List(em));
        assert(decode_state(d@) == decode_main(rem, vid, vrev));
    }
    let mut past: Vec<Session> = Vec::new();
    let mut i: usize = 0;
    while i < sess_elems.len()
        invariant
            0 <= i <= sess_elems.len(),
            past@.len() == i,
            em.len() == sess_elems@.len(),
            rem.len() == 2 && rem[0].0 == "past"@ && rem[1].0 == "current"@,
            rem[0].1 == DocModel::List(em),
            decode_state(d@) == decode_main(rem, vid, vrev),
            forall|j: int| 0 <= j < em.len() ==> em[j] == sess_elems@[j]@,
            forall|j: int| 0 <= j < i ==> decode_session(em[j]) == Some(past@[j]@),
        decreases sess_elems.len() - i,
    {
        match session_from_doc(&sess_elems[i]) {
            Some(sess) => {
                past.push(sess);
            },
            None => {
                proof {
                    assert(decode_session(em[i as int]) is None);
                    assert(!(forall|j: int|
                        0 <= j < em.len() ==> decode_session(em[j]) is Some));
                }
                return None;
            },
        }
        i = i + 1;
    }
    proof {
        assert(decode_sessions(em) matches Some(v) && v =~= past@.map_values(
            |s: Session| s@,
        ));
    }
    match session_from_doc(&p_cur.1) {
        Some(cur) => {
            let st = State { past, current: cur, doc_id, doc_rev };
            proof {
                let sm = decode_main(rem, vid, vrev).unwrap();
                assert(st@.past == sm.past);
                assert(st@.current == sm.current);
                assert(st@.doc_id == vid);
                assert(st@.doc_rev == vrev);
            }
            Some(st)
        },
        None => None,
    }
}

/// Diagnostic bulk export: one document per session, the running session
/// first, then the history in order. No store traffic — this is not the
/// save path.
pub fn export_documents(s: &State) -> (r: Vec<DocValue>)
    ensures
        r@.len() == 1 + s@.past.len(),
        r@[0]@ == encode_session(s@.current),
        forall|j: int| 0 <= j < s@.past.len() ==> r@[j + 1]@ == encode_session(s@.past[j]),
{
    let mut out: Vec<DocValue> = Vec::new();
    out.push(session_to_doc(&s.current));
    let mut i: usize = 0;
    while i < s.past.len()
        invariant
            0 <= i <= s.past.len(),
            out@.len() == 1 + i,
            out@[0]@ == encode_session(s@.current),
            forall|j: int| 0 <= j < i ==> out@[j + 1]@ == encode_session(s.past@[j]@),
        decreases s.past.len() - i,
    {
        out.push(session_to_doc(&s.past[i]));
        i = i + 1;
    }
    out
}

proof fn lemma_shot_round_trip(s: Shot)
    ensures
        decode_shot(encode_shot(s)) == Some(s),
{
    reveal_strlit("Hit");
    reveal_strlit("Miss");
    reveal_strlit("Shitsu");
    assert("Hit"@.len() == 3);
    assert("Miss"@.len() == 4);
    assert("Shitsu"@.len() == 6);
    assert("Miss"@ != "Hit"@);
    assert("Shitsu"@ != "Hit"@);
    assert("Shitsu"@ != "Miss"@);
}

proof fn lemma_set_round_trip(shots: Seq<Shot>)
    ensures
        decode_set(encode_set(shots)) == Some(shots),
{
    let mapped = shots.map_values(|s: Shot| encode_shot(s));
    assert forall|j: int| 0 <= j < mapped.len() implies decode_shot(mapped[j]) is Some by {
        lemma_shot_round_trip(shots[j]);
    }
    let decoded = decode_shots(mapped).unwrap();
    assert forall|j: int| 0 <= j < decoded.len() implies decoded[j] == shots[j] by {
        lemma_shot_round_trip(shots[j]);
    }
    assert(decoded =~= shots);
}

proof fn lemma_session_round_trip(sets: Seq<Seq<Shot>>)
    ensures
        decode_session(encode_session(sets)) == Some(sets),
{
    let mapped = sets.map_values(|v: Seq<Shot>| encode_set(v));
    assert forall|j: int| 0 <= j < mapped.len() implies decode_set(mapped[j]) is Some by {
        lemma_set_round_trip(sets[j]);
    }
    let decoded = decode_sets(mapped).unwrap();
    assert forall|j: int| 0 <= j < decoded.len() implies decoded[j] == sets[j] by {
        lemma_set_round_trip(sets[j]);
    }
    assert(decoded =~= sets);
}

/// Round trip: writing an aggregate as a document and reading it back yields
/// exactly the aggregate — same sessions, same set order, same shot order,
/// same identity.
pub proof fn lemma_state_round_trip(sm: StateModel)
    ensures
        decode_state(encode_state(sm)) == Some(sm),
{
    reveal_strlit("_id");
    reveal_strlit("_rev");
    reveal_strlit("past");
    reveal_strlit("current");
    assert("_id"@.len() == 3);
    assert("_rev"@.len() == 4);
    assert("past"@.len() == 4);
    assert("past"@ != "_id"@);
    assert("past"@[0] == 'p' && "_rev"@[0] == '_');
    assert("past"@ != "_rev"@);

    let main = seq![
        ("past"@, DocModel::List(sm.past.map_values(|s: Seq<Seq<Shot>>| encode_session(s)))),
        ("current"@, encode_session(sm.current)),
    ];
    let es = identity_entries(sm) + main;

    let mapped = sm.past.map_values(|s: Seq<Seq<Shot>>| encode_session(s));
    assert forall|j: int| 0 <= j < mapped.len() implies decode_session(mapped[j]) is Some by {
        lemma_session_round_trip(sm.past[j]);
    }
    let decoded_past = decode_sessions(mapped).unwrap();
    assert forall|j: int| 0 <= j < decoded_past.len() implies decoded_past[j] == sm.past[j] by {
        lemma_session_round_trip(sm.past[j]);
    }
    assert(decoded_past =~= sm.past);
    lemma_session_round_trip(sm.current);

    match (sm.doc_id, sm.doc_rev) {
        (Some(id), Some(rv)) => {
            assert(es[0] == ("_id"@, DocModel::Text(id)));
            assert(es.skip(1)[0] == ("_rev"@, DocModel::Text(rv)));
            assert(es.skip(1).skip(1) =~= main);
            assert(decode_main(main, Some(id), Some(rv)) == Some(sm));
        },
        (Some(id), None) => {
            assert(es[0] == ("_id"@, DocModel::Text(id)));
            assert(es.skip(1) =~= main);
            assert(decode_main(main, Some(id), None) == Some(sm));
        },
        (None, Some(rv)) => {
            assert(es[0] == ("_rev"@, DocModel::Text(rv)));
            assert(es.skip(1) =~= main);
            assert(decode_main(main, None, Some(rv)) == Some(sm));
        },
        (None, None) => {
            assert(es =~= main);
            assert(decode_main(main, None, None) == Some(sm));
        },
    }
}

} // verus!
