//! The semantic router: setup provisioning, the ingest path, and the top-1
//! accept/reject query decision over similarity scores.
//!
//! Embedding a text and searching the real index are external capabilities;
//! the router's decisions over their outcomes — which collection to create,
//! which points to write, and whether the best hit clears the acceptance
//! threshold — are stated and verified here.

use vstd::prelude::*;

use crate::index::IndexModel;
use crate::index::SearchHit;
use crate::index::SearchHitView;
use crate::index::StoredPoint;
use crate::index::StoredPointView;
use crate::index::find_id;
use crate::index::lemma_upserted_unique;
use crate::index::unique_ids;
use crate::index::upserted;
use crate::index::upserted_all;
use crate::topic::Utterance;
use crate::topic::UtteranceView;

verus! {

/// The acceptance threshold in millionths: a best hit is accepted only when
/// its similarity score strictly exceeds this value (0.85 scaled).
pub const ACCEPT_THRESHOLD_MICROS: i64 = 850000;

/// The vector dimensionality of the collection, matching the embedding
/// provider's output size.
pub const COLLECTION_SIZE: u64 = 1536;

/// How the router failed, distinguishable so that a caller can treat a plain
/// "no match" as a graceful decline rather than a system fault.
#[derive(Clone, Copy, Debug, PartialEq, Eq, Structural)]
pub enum RouterError {
    /// Missing credentials or connection parameters; fatal at setup.
    ConfigurationError,
    /// Collection creation failed, or an existing collection's dimensionality
    /// or metric does not match; fatal at setup.
    ProvisioningError,
    /// The embedding provider failed to produce a vector for an input.
    EmbeddingError,
    /// An upsert or search call failed at the storage backend.
    IndexError,
    /// A successful search whose best score does not clear the acceptance
    /// threshold, or that returned no results; an expected outcome.
    NoMatchError,
}

/// The distance metric a collection is created with.
#[derive(Clone, Copy, Debug, PartialEq, Eq, Structural)]
pub enum Distance {
    Cosine,
    Dot,
    Euclid,
    Manhattan,
}

/// The parameters a collection is provisioned with: vector dimensionality
/// and distance metric.
#[derive(Clone, Copy, Debug, PartialEq, Eq, Structural)]
pub struct CollectionSpec {
    pub size: u64,
    pub distance: Distance,
}

/// What setup must do about the collection: create it with given parameters,
/// or keep the one that already exists.
#[derive(Clone, Copy, Debug, PartialEq, Eq, Structural)]
pub enum ProvisionAction {
    CreateCollection(CollectionSpec),
    UseExisting,
}

/// What the embedding provider returned for one utterance: one or more
/// vectors, components in millionths; only the first vector is used.
#[derive(Debug)]
pub struct EmbeddingRecord {
    pub vectors: Vec<Vec<i64>>,
}

impl View for EmbeddingRecord {
    type V = Seq<Seq<i64>>;

    open spec fn view(&self) -> Seq<Seq<i64>> {
        self.vectors.deep_view()
    }
}

impl DeepView for EmbeddingRecord {
    type V = Seq<Seq<i64>>;

    open spec fn deep_view(&self) -> Seq<Seq<i64>> {
        self.view()
    }
}

/// The provider produced one record per utterance and none of the records is
/// empty: exactly what a successful batch embedding yields.
pub open spec fn valid_embeddings(utts: Seq<UtteranceView>, recs: Seq<Seq<Seq<i64>>>) -> bool {
    &&& recs.len() == utts.len()
    &&& forall|i: int| 0 <= i < recs.len() ==> recs[i].len() > 0
}

/// The index point built from one utterance: point id = utterance id, vector
/// = its embedding, payload = the full utterance.
pub open spec fn point_of(u: UtteranceView, vector: Seq<i64>) -> StoredPointView {
    StoredPointView { id: u.id, vector: vector, payload: u }
}

/// The batch of index points built from utterances and their embedding
/// records, the first vector of each record taken.
pub open spec fn points_of(utts: Seq<UtteranceView>, recs: Seq<Seq<Seq<i64>>>) -> Seq<
    StoredPointView,
> {
    Seq::new(utts.len(), |i: int| point_of(utts[i], recs[i][0]))
}

/// The top-1 decision over an ordered result list: no results, or a best
/// score at or below the threshold, is no match; otherwise the best hit's
/// payload is the answer.
pub open spec fn decision(results: Seq<SearchHitView>, threshold_micros: i64) -> Result<
    UtteranceView,
    RouterError,
> {
    if results.len() == 0 {
        Err(RouterError::NoMatchError)
    } else if results[0].score_micros <= threshold_micros {
        Err(RouterError::NoMatchError)
    } else {
        Ok(results[0].payload)
    }
}

/// `i` holds the best score, and is the first index to do so.
pub open spec fn is_top_index(scores: Seq<i64>, i: int) -> bool {
    &&& 0 <= i < scores.len()
    &&& forall|j: int| 0 <= j < scores.len() ==> scores[j] <= scores[i]
    &&& forall|j: int| 0 <= j < i ==> scores[j] < scores[i]
}

/// The index of the nearest neighbor: the first index carrying the maximal
/// score.
pub open spec fn top_index(scores: Seq<i64>) -> int {
    choose|i: int| is_top_index(scores, i)
}

/// The single search result of a top-1 query: the nearest stored point's
/// payload with its score.
pub open spec fn top_hit(points: Seq<StoredPointView>, scores: Seq<i64>) -> SearchHitView {
    SearchHitView {
        score_micros: scores[top_index(scores)],
        payload: points[top_index(scores)].payload,
    }
}

/// The outcome of one whole query against stored points whose similarity to
/// the query is `scores`, point by point: a score list of the wrong shape is
/// a backend fault; an empty corpus is no match; otherwise the top-1
/// decision applies.
pub open spec fn query_outcome(
    points: Seq<StoredPointView>,
    scores: Seq<i64>,
    threshold_micros: i64,
) -> Result<UtteranceView, RouterError> {
    if points.len() != scores.len() {
        Err(RouterError::IndexError)
    } else if points.len() == 0 {
        Err(RouterError::NoMatchError)
    } else {
        decision(seq![top_hit(points, scores)], threshold_micros)
    }
}

/// The mathematical value of a routing result.
pub open spec fn routed_view(r: Result<Utterance, RouterError>) -> Result<
    UtteranceView,
    RouterError,
> {
    match r {
        Ok(u) => Ok(u@),
        Err(e) => Err(e),
    }
}

/// There is exactly one first-maximal index, so the found one is it.
pub proof fn lemma_top_index(scores: Seq<i64>, i: int)
    requires
        is_top_index(scores, i),
    ensures
        top_index(scores) == i,
{
    assert(exists|k: int| is_top_index(scores, k)) by {
        assert(is_top_index(scores, i));
    }
    let j = top_index(scores);
    assert(is_top_index(scores, j));
    if i < j {
        assert(scores[i] < scores[j]);
        assert(scores[j] <= scores[i]);
    } else if j < i {
        assert(scores[j] < scores[i]);
        assert(scores[i] <= scores[j]);
    }
}

/// The router's configuration: the acceptance threshold and the vector
/// dimensionality it provisions and queries with. The handles to the real
/// embedding provider and index live outside; the router itself holds no
/// mutable state across calls.
pub struct SemanticRouter {
    /// A best hit is accepted only when its score strictly exceeds this.
    pub threshold_micros: i64,
    /// The vector dimensionality of the collection.
    pub collection_size: u64,
}

impl SemanticRouter {
    /// The parameters the collection must have: this router's dimensionality,
    /// cosine distance.
    pub open spec fn collection_spec(&self) -> CollectionSpec {
        CollectionSpec { size: self.collection_size, distance: Distance::Cosine }
    }

    /// A router with the fixed default acceptance threshold and
    /// dimensionality.
    pub fn new() -> (r: SemanticRouter)
        ensures
            r.threshold_micros == ACCEPT_THRESHOLD_MICROS,
            r.collection_size == COLLECTION_SIZE,
    {
        SemanticRouter {
            threshold_micros: ACCEPT_THRESHOLD_MICROS,
            collection_size: COLLECTION_SIZE,
        }
    }

    /// A router with a chosen acceptance threshold: what counts as "good
    /// enough" similarity is corpus- and model-dependent.
    pub fn with_threshold(threshold_micros: i64) -> (r: SemanticRouter)
        ensures
            r.threshold_micros == threshold_micros,
            r.collection_size == COLLECTION_SIZE,
    {
        SemanticRouter { threshold_micros, collection_size: COLLECTION_SIZE }
    }

    /// Accepts the provider credential resolved at the outermost setup
    /// boundary; a missing credential is a fatal configuration error.
    pub fn resolve_api_key(api_key: Option<String>) -> (r: Result<String, RouterError>)
        ensures
            match api_key {
                Some(k) => r == Ok::<String, RouterError>(k),
                None => r == Err::<String, RouterError>(RouterError::ConfigurationError),
            },
    {
        match api_key {
            Some(k) => Ok(k),
            None => Err(RouterError::ConfigurationError),
        }
    }

    /// The name of the collection the router stores and searches in.
    pub fn collection_name() -> (s: String)
        ensures
            s@ == "SEMANTIC_ROUTING"@,
    {
        String::from_str("SEMANTIC_ROUTING")
    }

    /// The collection parameters setup provisions with.
    pub fn expected_collection(&self) -> (c: CollectionSpec)
        ensures
            c == self.collection_spec(),
    {
        CollectionSpec { size: self.collection_size, distance: Distance::Cosine }
    }

    /// Decides what setup must do: an absent collection is created with
    /// exactly this router's parameters; an existing one with matching
    /// parameters is kept as it is (setup is idempotent); a mismatch in
    /// dimensionality or metric is a fatal provisioning error.
    pub fn provision(&self, existing: Option<CollectionSpec>) -> (r: Result<
        ProvisionAction,
        RouterError,
    >)
        ensures
            r == (match existing {
                None => Ok::<ProvisionAction, RouterError>(
                    ProvisionAction::CreateCollection(self.collection_spec()),
                ),
                Some(c) => if c == self.collection_spec() {
                    Ok::<ProvisionAction, RouterError>(ProvisionAction::UseExisting)
                } else {
                    Err::<ProvisionAction, RouterError>(RouterError::ProvisioningError)
                },
            }),
    {
        match existing {
            None => Ok(ProvisionAction::CreateCollection(self.expected_collection())),
            Some(c) => {
                if c == self.expected_collection() {
                    Ok(ProvisionAction::UseExisting)
                } else {
                    Err(RouterError::ProvisioningError)
                }
            },
        }
    }

    /// Builds one index point per utterance: point id = utterance id, vector
    /// = the first vector of its embedding record, payload = the full
    /// utterance. A record count that does not match, or a record with no
    /// vector, is an embedding failure.
    pub fn build_points(&self, utterances: &Vec<Utterance>, records: &Vec<EmbeddingRecord>) -> (r:
        Result<Vec<StoredPoint>, RouterError>)
        ensures
            valid_embeddings(utterances.deep_view(), records.deep_view()) ==> (match r {
                Ok(pts) => pts.deep_view() == points_of(
                    utterances.deep_view(),
                    records.deep_view(),
                ),
                Err(_) => false,
            }),
            !valid_embeddings(utterances.deep_view(), records.deep_view()) ==> r == Err::<
                Vec<StoredPoint>,
                RouterError,
            >(RouterError::EmbeddingError),
    {
        let ghost utts = utterances.deep_view();
        let ghost recs = records.deep_view();
        if utterances.len() != records.len() {
            return Err(RouterError::EmbeddingError);
        }
        let n = utterances.len();
        let mut pts: Vec<StoredPoint> = Vec::new();
        let mut i: usize = 0;
        while i < n
            invariant
                n == utterances.len(),
                utterances.len() == records.len(),
                utts == utterances.deep_view(),
                recs == records.deep_view(),
                i <= n,
                forall|j: int| 0 <= j < i ==> recs[j].len() > 0,
                pts.deep_view() =~= points_of(utts, recs).take(i as int),
            decreases n - i,
        {
            let rec = &records[i];
            proof {
                assert(recs[i as int] == records@[i as int].deep_view());
            }
            if rec.vectors.len() == 0 {
                proof {
                    assert(recs[i as int].len() == 0);
                }
                return Err(RouterError::EmbeddingError);
            }
            let u = utterances[i].clone();
            let vector = clone_vector(&rec.vectors[0]);
            proof {
                assert(u@ == utterances@[i as int].deep_view());
                assert(u@ == utts[i as int]);
                assert(recs[i as int][0] == rec.vectors@[0].deep_view());
                assert(rec.vectors@[0].deep_view() =~= rec.vectors@[0]@);
                assert(vector@ == recs[i as int][0]);
            }
            let p = StoredPoint { id: u.id.clone(), vector, payload: u };
            proof {
                assert(p@ == point_of(utts[i as int], recs[i as int][0]));
                assert(p@ == points_of(utts, recs)[i as int]);
            }
            let ghost prev = pts@;
            let ghost prev_dv = pts.deep_view();
            pts.push(p);
            proof {
                assert(pts@ == prev.push(p));
                assert(prev_dv.len() == prev.len());
                assert(prev_dv.len() == i as int);
                assert forall|j: int| 0 <= j < pts.deep_view().len() implies pts.deep_view()[j]
                    == points_of(utts, recs).take(i + 1 as int)[j] by {
                    assert(pts.deep_view().len() == pts@.len());
                    assert(pts@.len() == prev.len() + 1);
                    if j < i {
                        assert(prev.push(p)[j] == prev[j]);
                        assert(pts.deep_view()[j] == prev_dv[j]);
                        assert(prev_dv[j] == points_of(utts, recs).take(i as int)[j]);
                    } else {
                        assert(j == prev.len());
                        assert(prev.push(p)[j] == p);
                        assert(pts.deep_view()[j] == p@);
                    }
                }
                assert(pts.deep_view() =~= points_of(utts, recs).take(i + 1 as int));
            }
            i += 1;
        }
        proof {
            assert(pts.deep_view() =~= points_of(utts, recs));
        }
        Ok(pts)
    }

    /// Ingests a batch: builds one point per utterance and writes them to the
    /// index in order, each by insert-or-replace. On an embedding failure the
    /// index is left untouched; on success the whole batch is applied.
    pub fn embed_utterances(
        &self,
        index: &mut IndexModel,
        utterances: &Vec<Utterance>,
        records: &Vec<EmbeddingRecord>,
    ) -> (r: Result<(), RouterError>)
        requires
            old(index).wf(),
        ensures
            final (index).wf(),
            valid_embeddings(utterances.deep_view(), records.deep_view()) ==> r == Ok::<
                (),
                RouterError,
            >(()) && final (index)@ == upserted_all(
                old(index)@,
                points_of(utterances.deep_view(), records.deep_view()),
            ),
            !valid_embeddings(utterances.deep_view(), records.deep_view()) ==> r == Err::<
                (),
                RouterError,
            >(RouterError::EmbeddingError) && final (index)@ == old(index)@,
    {
        let ghost s = old(index)@;
        let mut pts = match self.build_points(utterances, records) {
            Ok(pts) => pts,
            Err(e) => {
                return Err(e);
            },
        };
        let ghost full = pts.deep_view();
        let ghost mut k: int = 0;
        proof {
            assert(index@ == upserted_all(s, full.take(0)));
        }
        while pts.len() > 0
            invariant
                index.wf(),
                0 <= k <= full.len(),
                pts.deep_view() =~= full.skip(k),
                index@ == upserted_all(s, full.take(k)),
            decreases pts.len(),
        {
            let ghost prev = pts@;
            let ghost prev_dv = pts.deep_view();
            proof {
                assert(prev_dv.len() == full.len() - k);
                assert(k < full.len());
            }
            let p = pts.remove(0);
            proof {
                assert(p == prev[0]);
                assert(p.deep_view() == prev_dv[0]);
                assert(p.deep_view() == full[k]);
            }
            index.upsert(p);
            proof {
                assert(pts@ == prev.remove(0));
                assert forall|j: int| 0 <= j < pts.deep_view().len() implies pts.deep_view()[j]
                    == full.skip(k + 1)[j] by {
                    assert(pts@[j] == prev[j + 1]);
                    assert(pts.deep_view()[j] == prev_dv[j + 1]);
                    assert(prev_dv[j + 1] == full.skip(k)[j + 1]);
                }
                assert(pts.deep_view() =~= full.skip(k + 1));
                assert(full.take(k + 1).drop_last() =~= full.take(k));
                assert(full.take(k + 1).last() == full[k]);
                assert(index@ == upserted(upserted_all(s, full.take(k)), full[k]));
                assert(index@ == upserted_all(s, full.take(k + 1)));
                k = k + 1;
            }
        }
        proof {
            assert(full.take(k) =~= full);
        }
        Ok(())
    }

    /// The nearest-neighbor lookup against the index, given the similarity
    /// score of the query to each stored point in order: the first hit with
    /// the maximal score, none from an empty corpus, and a backend fault when
    /// the score list does not match the stored points.
    pub fn top_match(&self, index: &IndexModel, scores: &Vec<i64>) -> (r: Result<
        Option<SearchHit>,
        RouterError,
    >)
        ensures
            scores@.len() != index@.len() ==> r == Err::<Option<SearchHit>, RouterError>(
                RouterError::IndexError,
            ),
            scores@.len() == index@.len() && index@.len() == 0 ==> r == Ok::<
                Option<SearchHit>,
                RouterError,
            >(None),
            scores@.len() == index@.len() && index@.len() > 0 ==> (match r {
                Ok(Some(h)) => h@ == top_hit(index@, scores@),
                _ => false,
            }),
    {
        let n = index.len();
        if scores.len() != n {
            return Err(RouterError::IndexError);
        }
        if n == 0 {
            return Ok(None);
        }
        let mut best: usize = 0;
        let mut i: usize = 1;
        while i < n
            invariant
                n == index@.len(),
                scores@.len() == n,
                best < i <= n,
                forall|j: int| 0 <= j < i ==> scores@[j] <= scores@[best as int],
                forall|j: int| 0 <= j < best ==> scores@[j] < scores@[best as int],
            decreases n - i,
        {
            if scores[i] > scores[best] {
                best = i;
            }
            i += 1;
        }
        proof {
            assert(is_top_index(scores@, best as int));
            lemma_top_index(scores@, best as int);
        }
        let p = index.point_at(best);
        let h = SearchHit { score_micros: scores[best], payload: p.payload.clone() };
        proof {
            assert(h@ == top_hit(index@, scores@));
        }
        Ok(Some(h))
    }

    /// The top-1 accept/reject decision over an ordered result list, as a
    /// search against the real index hands it back: the best hit's payload
    /// when its score strictly exceeds the threshold, no match otherwise or
    /// when there are no results at all.
    pub fn decide(&self, results: &Vec<SearchHit>) -> (r: Result<Utterance, RouterError>)
        ensures
            routed_view(r) == decision(results.deep_view(), self.threshold_micros),
    {
        if results.len() == 0 {
            return Err(RouterError::NoMatchError);
        }
        let h = &results[0];
        proof {
            assert(results.deep_view()[0] == h@);
        }
        if h.score_micros <= self.threshold_micros {
            Err(RouterError::NoMatchError)
        } else {
            Ok(h.payload.clone())
        }
    }

    /// One whole query against the index, given the similarity score of the
    /// query's embedding to each stored point: retrieve the single nearest
    /// neighbor and accept it only when its score strictly exceeds the
    /// threshold. Querying before any ingest is no match, never a fault.
    pub fn query(&self, index: &IndexModel, scores: &Vec<i64>) -> (r: Result<
        Utterance,
        RouterError,
    >)
        ensures
            routed_view(r) == query_outcome(index@, scores@, self.threshold_micros),
            index@.len() == 0 && scores@.len() == 0 ==> r == Err::<Utterance, RouterError>(
                RouterError::NoMatchError,
            ),
    {
        match self.top_match(index, scores) {
            Err(e) => Err(e),
            Ok(None) => Err(RouterError::NoMatchError),
            Ok(Some(h)) => {
                proof {
                    assert(seq![h@][0] == h@);
                }
                if h.score_micros <= self.threshold_micros {
                    Err(RouterError::NoMatchError)
                } else {
                    Ok(h.payload)
                }
            },
        }
    }
}

/// Copies a score vector element for element.
fn clone_vector(src: &Vec<i64>) -> (r: Vec<i64>)
    ensures
        r@ == src@,
{
    let r = src.clone();
    proof {
        assert forall|k: int| 0 <= k < src@.len() implies r@[k] == src@[k] by {
            assert(cloned(src@[k], r@[k]));
        }
        assert(r@ =~= src@);
    }
    r
}

/// Law: acceptance boundary — the best hit is accepted exactly when its
/// score strictly exceeds the threshold; a best score equal to the threshold
/// is rejected as no match.
pub proof fn lemma_threshold_boundary(results: Seq<SearchHitView>, threshold_micros: i64)
    requires
        results.len() > 0,
    ensures
        results[0].score_micros <= threshold_micros ==> decision(results, threshold_micros)
            == Err::<UtteranceView, RouterError>(RouterError::NoMatchError),
        results[0].score_micros > threshold_micros ==> decision(results, threshold_micros) == Ok::<
            UtteranceView,
            RouterError,
        >(results[0].payload),
{
}

/// Law: round-trip payload — an utterance ingested as an index point and
/// retrieved through an accepted match comes back field for field equal to
/// the original: the stored point under its id carries exactly the utterance,
/// and the accepted decision returns it unchanged.
pub proof fn lemma_payload_round_trip(
    s: Seq<StoredPointView>,
    u: UtteranceView,
    vector: Seq<i64>,
    score_micros: i64,
    threshold_micros: i64,
)
    requires
        unique_ids(s),
        score_micros > threshold_micros,
    ensures
        find_id(upserted(s, point_of(u, vector)), u.id) == Some(point_of(u, vector)),
        point_of(u, vector).payload == u,
        decision(
            seq![(SearchHitView { score_micros: score_micros, payload: point_of(u, vector).payload })],
            threshold_micros,
        ) == Ok::<UtteranceView, RouterError>(u),
{
    lemma_upserted_unique(s, point_of(u, vector));
    let h = SearchHitView { score_micros: score_micros, payload: point_of(u, vector).payload };
    assert(seq![h][0] == h);
}

} // verus!
