//! The shot data model: one arrow outcome, one bout of arrows (a set), and a
//! whole sitting (a session), with the counting queries the statistics need.

use vstd::prelude::*;

verus! {

/// Outcome of a single arrow release. `Shitsu` is a distinguished
/// equipment/technique failure, distinct from an ordinary miss: it counts
/// toward the shot total but toward neither the hit nor the miss tally.
#[derive(Clone, Copy, Debug, PartialEq, Eq, Structural)]
pub enum Shot {
    Hit,
    Miss,
    Shitsu,
}

/// Number of `Hit` outcomes in a sequence of shots.
pub open spec fn count_hits(shots: Seq<Shot>) -> nat
    decreases shots.len(),
{
    if shots.len() == 0 {
        0
    } else {
        count_hits(shots.drop_last()) + if shots.last() == Shot::Hit {
            1nat
        } else {
            0nat
        }
    }
}

/// Number of `Miss` outcomes in a sequence of shots.
pub open spec fn count_misses(shots: Seq<Shot>) -> nat
    decreases shots.len(),
{
    if shots.len() == 0 {
        0
    } else {
        count_misses(shots.drop_last()) + if shots.last() == Shot::Miss {
            1nat
        } else {
            0nat
        }
    }
}

/// Number of `Shitsu` outcomes in a sequence of shots.
pub open spec fn count_shitsu(shots: Seq<Shot>) -> nat
    decreases shots.len(),
{
    if shots.len() == 0 {
        0
    } else {
        count_shitsu(shots.drop_last()) + if shots.last() == Shot::Shitsu {
            1nat
        } else {
            0nat
        }
    }
}

/// Every shot is exactly one of the three outcomes, so the three tallies
/// partition the shot count of a set.
pub proof fn lemma_set_partition(shots: Seq<Shot>)
    ensures
        count_hits(shots) + count_misses(shots) + count_shitsu(shots) == shots.len(),
    decreases shots.len(),
{
    if shots.len() > 0 {
        lemma_set_partition(shots.drop_last());
    }
}

proof fn lemma_count_take_step(shots: Seq<Shot>, i: int)
    requires
        0 <= i < shots.len(),
    ensures
        count_hits(shots.take(i + 1)) == count_hits(shots.take(i)) + if shots[i] == Shot::Hit {
            1nat
        } else {
            0nat
        },
        count_misses(shots.take(i + 1)) == count_misses(shots.take(i)) + if shots[i]
            == Shot::Miss {
            1nat
        } else {
            0nat
        },
        count_shitsu(shots.take(i + 1)) == count_shitsu(shots.take(i)) + if shots[i]
            == Shot::Shitsu {
            1nat
        } else {
            0nat
        },
{
    assert(shots.take(i + 1).drop_last() =~= shots.take(i));
    assert(shots.take(i + 1).last() == shots[i]);
}

proof fn lemma_shitsu_prefix_le(shots: Seq<Shot>, i: int)
    requires
        0 <= i <= shots.len(),
    ensures
        count_shitsu(shots.take(i)) <= count_shitsu(shots),
    decreases shots.len() - i,
{
    if i == shots.len() {
        assert(shots.take(i) =~= shots);
    } else {
        lemma_count_take_step(shots, i);
        lemma_shitsu_prefix_le(shots, i + 1);
    }
}

proof fn lemma_counts_le_len(shots: Seq<Shot>)
    ensures
        count_hits(shots) <= shots.len(),
        count_misses(shots) <= shots.len(),
        count_shitsu(shots) <= shots.len(),
{
    lemma_set_partition(shots);
}

/// One practice bout: the shots of a set, in shooting order. The field keeps
/// the persisted document's key name, `hits`.
#[derive(Clone, Debug, PartialEq)]
pub struct ShotSet {
    pub hits: Vec<Shot>,
}

impl View for ShotSet {
    type V = Seq<Shot>;

    open spec fn view(&self) -> Seq<Shot> {
        self.hits@
    }
}

impl ShotSet {
    /// Plain constructor: any arity is legal, order is the shooting order.
    pub fn record_set(shots: Vec<Shot>) -> (r: ShotSet)
        ensures
            r@ == shots@,
    {
        ShotSet { hits: shots }
    }

    /// Count of `Hit` outcomes in this set.
    pub fn hit_count(&self) -> (r: u64)
        ensures
            r == count_hits(self@),
    {
        proof {
            lemma_counts_le_len(self@);
        }
        let mut n: u64 = 0;
        let mut i: usize = 0;
        while i < self.hits.len()
            invariant
                0 <= i <= self.hits.len(),
                n == count_hits(self@.take(i as int)),
                n <= i,
            decreases self.hits.len() - i,
        {
            proof {
                lemma_count_take_step(self@, i as int);
            }
            if self.hits[i] == Shot::Hit {
                n = n + 1;
            }
            i = i + 1;
        }
        proof {
            assert(self@.take(self.hits@.len() as int) =~= self@);
        }
        n
    }

    /// Count of `Miss` outcomes in this set.
    pub fn miss_count(&self) -> (r: u64)
        ensures
            r == count_misses(self@),
    {
        let mut n: u64 = 0;
        let mut i: usize = 0;
        while i < self.hits.len()
            invariant
                0 <= i <= self.hits.len(),
                n == count_misses(self@.take(i as int)),
                n <= i,
            decreases self.hits.len() - i,
        {
            proof {
                lemma_count_take_step(self@, i as int);
            }
            if self.hits[i] == Shot::Miss {
                n = n + 1;
            }
            i = i + 1;
        }
        proof {
            assert(self@.take(self.hits@.len() as int) =~= self@);
        }
        n
    }

    /// How many arrows were released in this set.
    pub fn number_of_shots(&self) -> (r: u64)
        ensures
            r == self@.len(),
    {
        self.hits.len() as u64
    }

    /// Whether any equipment/technique failure occurred in this set.
    pub fn had_shitsu(&self) -> (r: bool)
        ensures
            r == (count_shitsu(self@) > 0),
    {
        let mut i: usize = 0;
        while i < self.hits.len()
            invariant
                0 <= i <= self.hits.len(),
                count_shitsu(self@.take(i as int)) == 0,
            decreases self.hits.len() - i,
        {
            proof {
                lemma_count_take_step(self@, i as int);
            }
            if self.hits[i] == Shot::Shitsu {
                proof {
                    lemma_shitsu_prefix_le(self@, i as int + 1);
                }
                return true;
            }
            i = i + 1;
        }
        proof {
            assert(self@.take(self.hits@.len() as int) =~= self@);
        }
        false
    }
}

/// Shot total over the sets of a session.
pub open spec fn session_total(sets: Seq<Seq<Shot>>) -> nat
    decreases sets.len(),
{
    if sets.len() == 0 {
        0
    } else {
        session_total(sets.drop_last()) + sets.last().len()
    }
}

/// Hit total over the sets of a session.
pub open spec fn session_hits(sets: Seq<Seq<Shot>>) -> nat
    decreases sets.len(),
{
    if sets.len() == 0 {
        0
    } else {
        session_hits(sets.drop_last()) + count_hits(sets.last())
    }
}

/// Miss total over the sets of a session.
pub open spec fn session_misses(sets: Seq<Seq<Shot>>) -> nat
    decreases sets.len(),
{
    if sets.len() == 0 {
        0
    } else {
        session_misses(sets.drop_last()) + count_misses(sets.last())
    }
}

/// Shitsu total over the sets of a session.
pub open spec fn session_shitsu(sets: Seq<Seq<Shot>>) -> nat
    decreases sets.len(),
{
    if sets.len() == 0 {
        0
    } else {
        session_shitsu(sets.drop_last()) + count_shitsu(sets.last())
    }
}

/// The hit, miss and shitsu tallies of a session partition its shot total:
/// every recorded arrow lands in exactly one of the three.
pub proof fn lemma_statistics_partition(sets: Seq<Seq<Shot>>)
    ensures
        session_hits(sets) + session_misses(sets) + session_shitsu(sets) == session_total(sets),
    decreases sets.len(),
{
    if sets.len() > 0 {
        lemma_statistics_partition(sets.drop_last());
        lemma_set_partition(sets.last());
    }
}

pub proof fn lemma_session_take_step(sets: Seq<Seq<Shot>>, i: int)
    requires
        0 <= i < sets.len(),
    ensures
        session_total(sets.take(i + 1)) == session_total(sets.take(i)) + sets[i].len(),
        session_hits(sets.take(i + 1)) == session_hits(sets.take(i)) + count_hits(sets[i]),
        session_misses(sets.take(i + 1)) == session_misses(sets.take(i)) + count_misses(sets[i]),
        session_shitsu(sets.take(i + 1)) == session_shitsu(sets.take(i)) + count_shitsu(sets[i]),
{
    assert(sets.take(i + 1).drop_last() =~= sets.take(i));
    assert(sets.take(i + 1).last() == sets[i]);
}

/// The total of a prefix of a session never exceeds the total of the whole.
pub proof fn lemma_session_prefix_le(sets: Seq<Seq<Shot>>, i: int)
    requires
        0 <= i <= sets.len(),
    ensures
        session_total(sets.take(i)) <= session_total(sets),
    decreases sets.len() - i,
{
    if i == sets.len() {
        assert(sets.take(i) =~= sets);
    } else {
        lemma_session_take_step(sets, i);
        lemma_session_prefix_le(sets, i + 1);
    }
}

/// One sitting: the ordered sets shot in it.
#[derive(Clone, Debug, PartialEq)]
pub struct Session {
    pub sets: Vec<ShotSet>,
}

impl View for Session {
    type V = Seq<Seq<Shot>>;

    open spec fn view(&self) -> Seq<Seq<Shot>> {
        self.sets@.map_values(|s: ShotSet| s@)
    }
}

impl Session {
    /// A session with no sets recorded yet.
    pub fn empty() -> (r: Session)
        ensures
            r@ == Seq::<Seq<Shot>>::empty(),
    {
        let r = Session { sets: Vec::new() };
        proof {
            assert(r@ =~= Seq::<Seq<Shot>>::empty());
        }
        r
    }

    /// Total arrows released over all sets of the session.
    pub fn shots(&self) -> (r: u64)
        requires
            session_total(self@) <= u64::MAX,
        ensures
            r == session_total(self@),
    {
        let mut n: u64 = 0;
        let mut i: usize = 0;
        while i < self.sets.len()
            invariant
                0 <= i <= self.sets.len(),
                session_total(self@) <= u64::MAX,
                n == session_total(self@.take(i as int)),
            decreases self.sets.len() - i,
        {
            proof {
                lemma_session_take_step(self@, i as int);
                lemma_session_prefix_le(self@, i as int + 1);
                assert(self@[i as int] == self.sets@[i as int]@);
            }
            n = n + self.sets[i].number_of_shots();
            i = i + 1;
        }
        proof {
            assert(self@.take(self.sets@.len() as int) =~= self@);
        }
        n
    }

    /// Total hits over all sets of the session.
    pub fn hits(&self) -> (r: u64)
        requires
            session_total(self@) <= u64::MAX,
        ensures
            r == session_hits(self@),
    {
        let mut n: u64 = 0;
        let mut i: usize = 0;
        while i < self.sets.len()
            invariant
                0 <= i <= self.sets.len(),
                session_total(self@) <= u64::MAX,
                n == session_hits(self@.take(i as int)),
                n <= session_total(self@.take(i as int)),
            decreases self.sets.len() - i,
        {
            proof {
                lemma_session_take_step(self@, i as int);
                lemma_session_prefix_le(self@, i as int + 1);
                lemma_counts_le_len(self@[i as int]);
                assert(self@[i as int] == self.sets@[i as int]@);
            }
            n = n + self.sets[i].hit_count();
            i = i + 1;
        }
        proof {
            assert(self@.take(self.sets@.len() as int) =~= self@);
        }
        n
    }

    /// Total misses over all sets of the session.
    pub fn misses(&self) -> (r: u64)
        requires
            session_total(self@) <= u64::MAX,
        ensures
            r == session_misses(self@),
    {
        let mut n: u64 = 0;
        let mut i: usize = 0;
        while i < self.sets.len()
            invariant
                0 <= i <= self.sets.len(),
                session_total(self@) <= u64::MAX,
                n == session_misses(self@.take(i as int)),
                n <= session_total(self@.take(i as int)),
            decreases self.sets.len() - i,
        {
            proof {
                lemma_session_take_step(self@, i as int);
                lemma_session_prefix_le(self@, i as int + 1);
                lemma_counts_le_len(self@[i as int]);
                assert(self@[i as int] == self.sets@[i as int]@);
            }
            n = n + self.sets[i].miss_count();
            i = i + 1;
        }
        proof {
            assert(self@.take(self.sets@.len() as int) =~= self@);
        }
        n
    }
}

} // verus!
