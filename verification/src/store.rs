//! A verified in-memory document store speaking the revision protocol the
//! synchronization engine needs: get by id returns the current revision
//! token, put with a stale or missing token is rejected, post creates a new
//! document under a fresh id.

use vstd::prelude::*;
use crate::doc::{DocValue, DocModel};
use vstd::string::StringExecFns;

verus! {

/// One stored document: its id, its current revision token, and its body.
pub struct StoredDoc {
    pub id: String,
    pub rev: String,
    pub body: DocValue,
}

/// The store: documents keyed by id, and a counter from which fresh tokens
/// are minted. A token minted at count `k` has length `k + 1`, so tokens
/// minted at different counts never collide.
pub struct MemStore {
    pub docs: Vec<StoredDoc>,
    pub counter: u64,
}

/// The contents of the store as a map from id to (revision, body).
pub open spec fn store_map(docs: Seq<StoredDoc>) -> Map<Seq<char>, (Seq<char>, DocModel)>
    decreases docs.len(),
{
    if docs.len() == 0 {
        Map::empty()
    } else {
        store_map(docs.drop_last()).insert(
            docs.last().id@,
            (docs.last().rev@, docs.last().body@),
        )
    }
}

impl View for MemStore {
    type V = Map<Seq<char>, (Seq<char>, DocModel)>;

    open spec fn view(&self) -> Map<Seq<char>, (Seq<char>, DocModel)> {
        store_map(self.docs@)
    }
}

proof fn lemma_store_map_get(docs: Seq<StoredDoc>, j: int)
    requires
        forall|a: int, b: int| 0 <= a < b < docs.len() ==> docs[a].id@ != docs[b].id@,
        0 <= j < docs.len(),
    ensures
        store_map(docs).contains_key(docs[j].id@),
        store_map(docs)[docs[j].id@] == (docs[j].rev@, docs[j].body@),
    decreases docs.len(),
{
    if j < docs.len() - 1 {
        lemma_store_map_get(docs.drop_last(), j);
        assert(docs.drop_last()[j] == docs[j]);
        assert(docs[j].id@ != docs.last().id@);
    }
}

proof fn lemma_store_map_no_key(docs: Seq<StoredDoc>, x: Seq<char>)
    requires
        forall|a: int| 0 <= a < docs.len() ==> docs[a].id@ != x,
    ensures
        !store_map(docs).contains_key(x),
    decreases docs.len(),
{
    if docs.len() > 0 {
        lemma_store_map_no_key(docs.drop_last(), x);
    }
}

proof fn lemma_store_map_update(docs: Seq<StoredDoc>, j: int, d: StoredDoc)
    requires
        forall|a: int, b: int| 0 <= a < b < docs.len() ==> docs[a].id@ != docs[b].id@,
        0 <= j < docs.len(),
        d.id@ == docs[j].id@,
    ensures
        store_map(docs.update(j, d)) =~= store_map(docs).insert(d.id@, (d.rev@, d.body@)),
    decreases docs.len(),
{
    let upd = docs.update(j, d);
    if j == docs.len() - 1 {
        assert(upd.drop_last() =~= docs.drop_last());
        assert(upd.last() == d);
    } else {
        assert(upd.drop_last() =~= docs.drop_last().update(j, d));
        assert(upd.last() == docs.last());
        lemma_store_map_update(docs.drop_last(), j, d);
        assert(docs.drop_last()[j] == docs[j]);
        assert(d.id@ != docs.last().id@);
    }
}

fn fresh_token(k: u64) -> (r: String)
    requires
        k < u64::MAX,
    ensures
        r@.len() == k as nat + 1,
{
    proof {
        reveal_strlit("r");
        reveal_strlit(".");
    }
    let mut s = String::from_str("r");
    let mut i: u64 = 0;
    while i < k
        invariant
            i <= k,
            s@.len() == i + 1,
        decreases k - i,
    {
        proof {
            reveal_strlit(".");
        }
        s.append(".");
        i = i + 1;
    }
    s
}

impl MemStore {
    /// Every id is unique, and every stored token was minted below the
    /// current count, so a token minted at the current count is fresh.
    pub open spec fn wf(&self) -> bool {
        &&& forall|a: int, b: int|
            0 <= a < b < self.docs@.len() ==> self.docs@[a].id@ != self.docs@[b].id@
        &&& forall|a: int|
            0 <= a < self.docs@.len() ==> self.docs@[a].id@.len() <= self.counter
                && self.docs@[a].rev@.len() <= self.counter
    }

    /// An empty store.
    pub fn new() -> (r: MemStore)
        ensures
            r.wf(),
            r@ == Map::<Seq<char>, (Seq<char>, DocModel)>::empty(),
            r.counter == 0,
    {
        let r = MemStore { docs: Vec::new(), counter: 0 };
        proof {
            assert(r@ =~= Map::<Seq<char>, (Seq<char>, DocModel)>::empty());
        }
        r
    }

    /// Get by id: the stored document under that id, or nothing.
    pub fn get(&self, id: &String) -> (r: Option<&StoredDoc>)
        requires
            self.wf(),
        ensures
            match r {
                Some(doc) => self@.contains_key(id@) && doc.id@ == id@ && self@[id@] == (
                    doc.rev@,
                    doc.body@,
                ),
                None => !self@.contains_key(id@),
            },
    {
        let mut i: usize = 0;
        while i < self.docs.len()
            invariant
                0 <= i <= self.docs.len(),
                self.wf(),
                forall|j: int| 0 <= j < i ==> self.docs@[j].id@ != id@,
            decreases self.docs.len() - i,
        {
            if self.docs[i].id == *id {
                proof {
                    lemma_store_map_get(self.docs@, i as int);
                }
                return Some(&self.docs[i]);
            }
            i = i + 1;
        }
        proof {
            lemma_store_map_no_key(self.docs@, id@);
        }
        None
    }

    /// Update with an expected revision. Succeeds, with a fresh token, only
    /// when the document exists and the expected token is its current one;
    /// a missing document or a stale token is rejected and changes nothing.
    pub fn put(&mut self, id: &String, expected_rev: &String, body: DocValue) -> (r: Option<
        String,
    >)
        requires
            old(self).wf(),
            old(self).counter < u64::MAX,
        ensures
            final(self).wf(),
            match r {
                Some(nr) => old(self)@.contains_key(id@) && old(self)@[id@].0 == expected_rev@
                    && nr@ != expected_rev@ && final(self)@ == old(self)@.insert(
                    id@,
                    (nr@, body@),
                ),
                None => (!old(self)@.contains_key(id@) || old(self)@[id@].0 != expected_rev@)
                    && *final(self) == *old(self),
            },
    {
        let ghost pre = self.docs@;
        let mut i: usize = 0;
        while i < self.docs.len()
            invariant
                0 <= i <= self.docs.len(),
                self.wf(),
                self.docs@ == pre,
                self.counter < u64::MAX,
                *self == *old(self),
                forall|j: int| 0 <= j < i ==> self.docs@[j].id@ != id@,
            decreases self.docs.len() - i,
        {
            if self.docs[i].id == *id {
                proof {
                    lemma_store_map_get(self.docs@, i as int);
                }
                if self.docs[i].rev == *expected_rev {
                    let nr = fresh_token(self.counter);
                    self.counter = self.counter + 1;
                    let mut d = self.docs.remove(i);
                    d.rev = nr.clone();
                    d.body = body;
                    let ghost dd = d;
                    self.docs.insert(i, d);
                    proof {
                        assert(self.docs@ =~= pre.update(i as int, dd));
                        lemma_store_map_update(pre, i as int, dd);
                    }
                    return Some(nr);
                } else {
                    return None;
                }
            }
            i = i + 1;
        }
        proof {
            lemma_store_map_no_key(self.docs@, id@);
        }
        None
    }

    /// Create: stores the body under a fresh id with a fresh revision token
    /// and returns both.
    pub fn post(&mut self, body: DocValue) -> (r: (String, String))
        requires
            old(self).wf(),
            old(self).counter < u64::MAX - 1,
        ensures
            final(self).wf(),
            !old(self)@.contains_key(r.0@),
            final(self)@ == old(self)@.insert(r.0@, (r.1@, body@)),
    {
        let ghost pre = self.docs@;
        let id = fresh_token(self.counter);
        let rev = fresh_token(self.counter + 1);
        self.counter = self.counter + 2;
        proof {
            assert(forall|a: int| 0 <= a < pre.len() ==> pre[a].id@ != id@);
            lemma_store_map_no_key(pre, id@);
        }
        let doc = StoredDoc { id, rev: rev.clone(), body };
        let ghost dd = doc;
        let id_out = doc.id.clone();
        self.docs.push(doc);
        proof {
            assert(self.docs@.drop_last() =~= pre);
            assert(self@ =~= store_map(pre).insert(dd.id@, (dd.rev@, dd.body@)));
        }
        (id_out, rev)
    }
}

} // verus!
