//! An abstract model of the vector index consumed by the router: points keyed
//! by utterance id, written by insert-or-replace (upsert), read by top-1
//! similarity search.
//!
//! The real index is an external service; this model states its observable
//! semantics — one point per id, the latest write winning — so that the
//! routing pipeline around it can be verified and exercised in-process.

use vstd::prelude::*;

use crate::topic::Utterance;
use crate::topic::UtteranceView;

verus! {

/// The persisted unit of the vector index: a point identifier (the utterance
/// id), the embedding vector (components as fixed-point millionths), and the
/// full utterance as payload.
#[derive(Debug, PartialEq, Eq)]
pub struct StoredPoint {
    /// The point identifier; equals the payload utterance's id.
    pub id: String,
    /// The embedding of the payload's content, each component in millionths.
    pub vector: Vec<i64>,
    /// The full utterance carried as opaque payload.
    pub payload: Utterance,
}

/// The mathematical value of a [`StoredPoint`].
pub ghost struct StoredPointView {
    pub id: Seq<char>,
    pub vector: Seq<i64>,
    pub payload: UtteranceView,
}

impl View for StoredPoint {
    type V = StoredPointView;

    open spec fn view(&self) -> StoredPointView {
        StoredPointView { id: self.id@, vector: self.vector@, payload: self.payload@ }
    }
}

impl DeepView for StoredPoint {
    type V = StoredPointView;

    open spec fn deep_view(&self) -> StoredPointView {
        self.view()
    }
}

/// One search result: the similarity score of the stored point against the
/// query, in millionths, and the stored payload.
#[derive(Debug)]
pub struct SearchHit {
    /// Similarity score in millionths (cosine similarity scaled by 1 000 000).
    pub score_micros: i64,
    /// The payload of the matching stored point.
    pub payload: Utterance,
}

/// The mathematical value of a [`SearchHit`].
pub ghost struct SearchHitView {
    pub score_micros: i64,
    pub payload: UtteranceView,
}

impl View for SearchHit {
    type V = SearchHitView;

    open spec fn view(&self) -> SearchHitView {
        SearchHitView { score_micros: self.score_micros, payload: self.payload@ }
    }
}

impl DeepView for SearchHit {
    type V = SearchHitView;

    open spec fn deep_view(&self) -> SearchHitView {
        self.view()
    }
}

/// No two points of `s` share an id: the index holds at most one point per
/// utterance id.
pub open spec fn unique_ids(s: Seq<StoredPointView>) -> bool {
    forall|i: int, j: int| 0 <= i < j < s.len() ==> s[i].id != s[j].id
}

/// Some point of `s` carries the id.
pub open spec fn has_id(s: Seq<StoredPointView>, id: Seq<char>) -> bool {
    exists|i: int| 0 <= i < s.len() && s[i].id == id
}

/// An index of a point of `s` carrying the id (the only one, when ids are
/// unique).
pub open spec fn index_of_id(s: Seq<StoredPointView>, id: Seq<char>) -> int {
    choose|i: int| 0 <= i < s.len() && s[i].id == id
}

/// The point of `s` carrying the id, if any.
pub open spec fn find_id(s: Seq<StoredPointView>, id: Seq<char>) -> Option<StoredPointView> {
    if has_id(s, id) {
        Some(s[index_of_id(s, id)])
    } else {
        None
    }
}

/// The contents of the index after upserting `p`: a point with `p`'s id is
/// replaced in place; otherwise `p` is appended.
pub open spec fn upserted(s: Seq<StoredPointView>, p: StoredPointView) -> Seq<StoredPointView> {
    if has_id(s, p.id) {
        s.update(index_of_id(s, p.id), p)
    } else {
        s.push(p)
    }
}

/// The contents of the index after upserting every point of `pts` in order,
/// as one batch does.
pub open spec fn upserted_all(s: Seq<StoredPointView>, pts: Seq<StoredPointView>) -> Seq<
    StoredPointView,
>
    decreases pts.len(),
{
    if pts.len() == 0 {
        s
    } else {
        upserted(upserted_all(s, pts.drop_last()), pts.last())
    }
}

/// With unique ids, the point found under an id sits at `index_of_id` and at
/// no other index.
pub proof fn lemma_unique_index(s: Seq<StoredPointView>, id: Seq<char>, i: int)
    requires
        unique_ids(s),
        0 <= i < s.len(),
        s[i].id == id,
    ensures
        has_id(s, id),
        index_of_id(s, id) == i,
        find_id(s, id) == Some(s[i]),
{
    assert(has_id(s, id));
    let j = index_of_id(s, id);
    assert(0 <= j < s.len() && s[j].id == id);
    if i < j {
        assert(s[i].id != s[j].id);
    } else if j < i {
        assert(s[j].id != s[i].id);
    }
}

/// Upserting preserves uniqueness of ids, stores exactly the given point
/// under its id, and leaves every other id's point unchanged.
pub proof fn lemma_upserted_unique(s: Seq<StoredPointView>, p: StoredPointView)
    requires
        unique_ids(s),
    ensures
        unique_ids(upserted(s, p)),
        find_id(upserted(s, p), p.id) == Some(p),
        forall|id: Seq<char>| id != p.id ==> find_id(upserted(s, p), id) == find_id(s, id),
{
    let t = upserted(s, p);
    if has_id(s, p.id) {
        let i = index_of_id(s, p.id);
        assert(0 <= i < s.len() && s[i].id == p.id);
        assert(t == s.update(i, p));
        assert(unique_ids(t)) by {
            assert(forall|k: int, l: int| 0 <= k < l < t.len() ==> t[k].id != t[l].id) by {
                assert(forall|k: int| 0 <= k < t.len() ==> t[k].id == s[k].id);
            }
        }
        lemma_unique_index(t, p.id, i);
    } else {
        assert(t == s.push(p));
        assert(forall|k: int| 0 <= k < s.len() ==> t[k] == s[k]);
        assert(t[s.len() as int] == p);
        assert(unique_ids(t)) by {
            assert(forall|k: int| 0 <= k < s.len() ==> t[k].id != p.id);
        }
        lemma_unique_index(t, p.id, s.len() as int);
    }
    assert forall|id: Seq<char>| id != p.id implies find_id(t, id) == find_id(s, id) by {
        if has_id(s, id) {
            let i = index_of_id(s, id);
            assert(0 <= i < s.len() && s[i].id == id);
            assert(t[i].id == id);
            lemma_unique_index(s, id, i);
            lemma_upserted_unique_helper(s, p, t);
            lemma_unique_index(t, id, i);
            assert(t[i] == s[i]);
        } else {
            assert(!has_id(t, id)) by {
                assert(forall|k: int| 0 <= k < t.len() && t[k].id == id ==> false) by {
                    assert(forall|k: int|
                        0 <= k < t.len() && k != upsert_pos(s, p) ==> t[k] == s[k]);
                }
            }
        }
    }
}

/// The position at which `upserted` places `p`: the replaced index, or the
/// end of the sequence when `p`'s id is new.
spec fn upsert_pos(s: Seq<StoredPointView>, p: StoredPointView) -> int {
    if has_id(s, p.id) {
        index_of_id(s, p.id)
    } else {
        s.len() as int
    }
}

proof fn lemma_upserted_unique_helper(
    s: Seq<StoredPointView>,
    p: StoredPointView,
    t: Seq<StoredPointView>,
)
    requires
        unique_ids(s),
        t == upserted(s, p),
    ensures
        unique_ids(t),
{
    if has_id(s, p.id) {
        let i = index_of_id(s, p.id);
        assert(0 <= i < s.len() && s[i].id == p.id);
        assert(forall|k: int| 0 <= k < t.len() ==> t[k].id == s[k].id);
    } else {
        assert(forall|k: int| 0 <= k < s.len() ==> t[k] == s[k] && t[k].id != p.id);
    }
}

/// Law: upsert is idempotent by id. Ingesting twice under one id — even with
/// different content — leaves the index exactly as a single ingest of the
/// latest point would, with exactly one stored point under that id, carrying
/// the latest payload, and no duplicates.
pub proof fn lemma_upsert_idempotent(
    s: Seq<StoredPointView>,
    p1: StoredPointView,
    p2: StoredPointView,
)
    requires
        unique_ids(s),
        p1.id == p2.id,
    ensures
        upserted(upserted(s, p1), p2) == upserted(s, p2),
        unique_ids(upserted(upserted(s, p1), p2)),
        find_id(upserted(upserted(s, p1), p2), p2.id) == Some(p2),
{
    let t1 = upserted(s, p1);
    let t = upserted(t1, p2);
    lemma_upserted_unique(s, p1);
    lemma_upserted_unique(t1, p2);
    if has_id(s, p1.id) {
        let i = index_of_id(s, p1.id);
        assert(0 <= i < s.len() && s[i].id == p1.id);
        lemma_unique_index(s, p2.id, i);
        assert(t1 == s.update(i, p1));
        lemma_unique_index(t1, p2.id, i);
        assert(t == t1.update(i, p2));
        assert(t =~= s.update(i, p2));
        assert(upserted(s, p2) == s.update(i, p2));
    } else {
        assert(!has_id(s, p2.id));
        assert(t1 == s.push(p1));
        let n = s.len() as int;
        assert(t1[n].id == p2.id);
        lemma_unique_index(t1, p2.id, n);
        assert(t == t1.update(n, p2));
        assert(t =~= s.push(p2));
        assert(upserted(s, p2) == s.push(p2));
    }
}

/// The in-process model of the vector index: the stored points, at most one
/// per id.
#[derive(Debug)]
pub struct IndexModel {
    points: Vec<StoredPoint>,
}

impl View for IndexModel {
    type V = Seq<StoredPointView>;

    closed spec fn view(&self) -> Seq<StoredPointView> {
        self.points.deep_view()
    }
}

impl IndexModel {
    /// The index holds at most one point per id.
    pub open spec fn wf(&self) -> bool {
        unique_ids(self@)
    }

    /// An empty index: no corpus ingested yet.
    pub fn new() -> (m: IndexModel)
        ensures
            m@ == Seq::<StoredPointView>::empty(),
            m.wf(),
    {
        let m = IndexModel { points: Vec::new() };
        proof {
            assert(m@ =~= Seq::<StoredPointView>::empty());
        }
        m
    }

    /// The number of stored points.
    pub fn len(&self) -> (n: usize)
        ensures
            n == self@.len(),
    {
        self.points.len()
    }

    /// Writes one point by insert-or-replace: a point with the same id is
    /// replaced in place, otherwise the point is appended.
    pub fn upsert(&mut self, p: StoredPoint)
        requires
            old(self).wf(),
        ensures
            final(self).wf(),
            final(self)@ == upserted(old(self)@, p@),
    {
        let ghost s = old(self)@;
        let ghost pv = p@;
        let n = self.points.len();
        let mut i: usize = 0;
        while i < n
            invariant
                n == self.points.len(),
                self@ == s,
                s == old(self)@,
                self.wf(),
                pv == p@,
                forall|j: int| 0 <= j < i ==> s[j].id != pv.id,
            decreases n - i,
        {
            if self.points[i].id == p.id {
                proof {
                    assert(s[i as int].id == pv.id);
                    lemma_unique_index(s, pv.id, i as int);
                    lemma_upserted_unique(s, pv);
                }
                self.points.set(i, p);
                proof {
                    assert(self@ =~= s.update(i as int, pv));
                    assert(self@ == upserted(s, pv));
                }
                return ;
            }
            i += 1;
        }
        proof {
            assert(!has_id(s, pv.id));
            lemma_upserted_unique(s, pv);
        }
        self.points.push(p);
        proof {
            assert(self@ =~= s.push(pv));
            assert(self@ == upserted(s, pv));
        }
    }

    /// Reads the point at a position, for walking the stored corpus.
    pub fn point_at(&self, i: usize) -> (p: &StoredPoint)
        requires
            i < self@.len(),
        ensures
            p@ == self@[i as int],
    {
        &self.points[i]
    }

    /// Reads the point stored under an id, if any.
    pub fn lookup(&self, id: &String) -> (r: Option<&StoredPoint>)
        requires
            self.wf(),
        ensures
            match r {
                Some(p) => find_id(self@, id@) == Some(p@),
                None => find_id(self@, id@) is None,
            },
    {
        let n = self.points.len();
        let mut i: usize = 0;
        while i < n
            invariant
                n == self.points.len(),
                self.wf(),
                forall|j: int| 0 <= j < i ==> self@[j].id != id@,
            decreases n - i,
        {
            if self.points[i].id == *id {
                proof {
                    lemma_unique_index(self@, id@, i as int);
                }
                return Some(&self.points[i]);
            }
            i += 1;
        }
        proof {
            assert(!has_id(self@, id@));
        }
        None
    }
}

} // verus!
