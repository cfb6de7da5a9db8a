//! The aggregate root: every closed session plus the one being shot now,
//! together with the optional identity the document store has assigned to it.

use vstd::prelude::*;
use crate::model::{Shot, ShotSet, Session, session_total, session_hits, session_misses};

verus! {

/// Mathematical model of the aggregate: sessions as sequences of sequences of
/// shots, and the persistence identity as optional character sequences.
pub ghost struct StateModel {
    pub past: Seq<Seq<Seq<Shot>>>,
    pub current: Seq<Seq<Shot>>,
    pub doc_id: Option<Seq<char>>,
    pub doc_rev: Option<Seq<char>>,
}

/// The model of a freshly constructed, never persisted aggregate.
pub open spec fn empty_state_model() -> StateModel {
    StateModel {
        past: Seq::empty(),
        current: Seq::empty(),
        doc_id: None,
        doc_rev: None,
    }
}

/// The aggregate root. `current` is never absent; `past` is append-only from
/// this crate's point of view (nothing here ever rotates `current` into it —
/// the tracker keeps one running session, superseded only by a loaded copy).
#[derive(Clone, Debug, PartialEq)]
pub struct State {
    pub past: Vec<Session>,
    pub current: Session,
    pub doc_id: Option<String>,
    pub doc_rev: Option<String>,
}

impl View for State {
    type V = StateModel;

    open spec fn view(&self) -> StateModel {
        StateModel {
            past: self.past@.map_values(|s: Session| s@),
            current: self.current@,
            doc_id: match self.doc_id {
                Some(ref s) => Some(s@),
                None => None,
            },
            doc_rev: match self.doc_rev {
                Some(ref s) => Some(s@),
                None => None,
            },
        }
    }
}

/// Per-session statistics: the raw counts, from which a rate may be derived.
/// A shitsu is counted in `total` but in neither `hits` nor `misses`.
#[derive(Clone, Copy, Debug, PartialEq, Eq, Structural)]
pub struct Statistics {
    pub total: u64,
    pub hits: u64,
    pub misses: u64,
}

impl Statistics {
    /// The hit rate as an exact fraction `hits / total`. With no shots there
    /// is no rate: the query answers `None` rather than a sentinel, so a
    /// caller can never divide by zero.
    pub fn hit_rate(&self) -> (r: Option<(u64, u64)>)
        ensures
            self.total == 0 ==> r is None,
            self.total != 0 ==> r == Some((self.hits, self.total)),
    {
        if self.total == 0 {
            None
        } else {
            Some((self.hits, self.total))
        }
    }
}

impl State {
    /// A fresh aggregate: empty history, empty running session, no identity.
    pub fn empty() -> (r: State)
        ensures
            r@ == empty_state_model(),
    {
        let r = State { past: Vec::new(), current: Session::empty(), doc_id: None, doc_rev: None };
        proof {
            assert(r@.past =~= empty_state_model().past);
            assert(r@ == empty_state_model());
        }
        r
    }

    /// Appends one freshly shot set to the running session. History and
    /// identity are untouched; persistence is a separate, later call.
    pub fn record_shots(&mut self, results: Vec<Shot>)
        ensures
            final(self)@.current == old(self)@.current.push(results@),
            final(self)@.past == old(self)@.past,
            final(self)@.doc_id == old(self)@.doc_id,
            final(self)@.doc_rev == old(self)@.doc_rev,
    {
        let ghost prev = self.current@;
        let ghost shots = results@;
        self.current.sets.push(ShotSet::record_set(results));
        proof {
            assert(self.current@ =~= prev.push(shots));
        }
    }

    /// The statistics of the running session only.
    pub fn current_statistics(&self) -> (r: Statistics)
        requires
            session_total(self@.current) <= u64::MAX,
        ensures
            r.total == session_total(self@.current),
            r.hits == session_hits(self@.current),
            r.misses == session_misses(self@.current),
    {
        Statistics {
            total: self.current.shots(),
            hits: self.current.hits(),
            misses: self.current.misses(),
        }
    }

    /// The full aggregate, for persistence or rendering.
    pub fn snapshot(&self) -> (r: &State)
        ensures
            r == self,
    {
        self
    }
}

impl Default for State {
    /// Same as `State::empty`: the fallback when nothing could be loaded.
    fn default() -> (r: State)
        ensures
            r@ == empty_state_model(),
    {
        State::empty()
    }
}

} // verus!
