use rig_semantic_router::SemanticRouter;
use rig_semantic_router::index::IndexModel;
use rig_semantic_router::index::SearchHit;
use rig_semantic_router::router::ACCEPT_THRESHOLD_MICROS;
use rig_semantic_router::router::COLLECTION_SIZE;
use rig_semantic_router::router::CollectionSpec;
use rig_semantic_router::router::Distance;
use rig_semantic_router::router::EmbeddingRecord;
use rig_semantic_router::router::ProvisionAction;
use rig_semantic_router::router::RouterError;
use rig_semantic_router::topic::Topic;
use rig_semantic_router::topic::Utterance;

fn record(vector: Vec<i64>) -> EmbeddingRecord {
    EmbeddingRecord { vectors: vec![vector] }
}

#[test]
fn defaults_match_the_fixed_configuration() {
    let router = SemanticRouter::new();
    assert_eq!(router.threshold_micros, 850_000);
    assert_eq!(router.threshold_micros, ACCEPT_THRESHOLD_MICROS);
    assert_eq!(router.collection_size, 1536);
    assert_eq!(router.collection_size, COLLECTION_SIZE);
    assert_eq!(SemanticRouter::collection_name(), "SEMANTIC_ROUTING");
}

#[test]
fn missing_api_key_is_a_configuration_error() {
    assert_eq!(
        SemanticRouter::resolve_api_key(None),
        Err(RouterError::ConfigurationError)
    );
    assert_eq!(
        SemanticRouter::resolve_api_key(Some("k".to_string())),
        Ok("k".to_string())
    );
}

#[test]
fn provision_creates_absent_collection() {
    let router = SemanticRouter::new();
    let action = router.provision(None).unwrap();
    assert_eq!(
        action,
        ProvisionAction::CreateCollection(CollectionSpec { size: 1536, distance: Distance::Cosine })
    );
}

#[test]
fn provision_keeps_matching_collection() {
    let router = SemanticRouter::new();
    let existing = CollectionSpec { size: 1536, distance: Distance::Cosine };
    assert_eq!(router.provision(Some(existing)), Ok(ProvisionAction::UseExisting));
}

#[test]
fn provision_rejects_mismatched_collection() {
    let router = SemanticRouter::new();
    let wrong_size = CollectionSpec { size: 768, distance: Distance::Cosine };
    assert_eq!(router.provision(Some(wrong_size)), Err(RouterError::ProvisioningError));
    let wrong_metric = CollectionSpec { size: 1536, distance: Distance::Dot };
    assert_eq!(router.provision(Some(wrong_metric)), Err(RouterError::ProvisioningError));
}

#[test]
fn build_points_pairs_each_utterance_with_its_first_vector() {
    let router = SemanticRouter::new();
    let utterances = vec![Utterance::new("bees", "alpha"), Utterance::new("bees", "beta")];
    let records = vec![
        EmbeddingRecord { vectors: vec![vec![1, 2, 3], vec![9, 9, 9]] },
        record(vec![4, 5, 6]),
    ];
    let points = router.build_points(&utterances, &records).unwrap();
    assert_eq!(points.len(), 2);
    assert_eq!(points[0].id, utterances[0].id);
    assert_eq!(points[0].vector, vec![1, 2, 3]);
    assert_eq!(points[0].payload, utterances[0]);
    assert_eq!(points[1].id, utterances[1].id);
    assert_eq!(points[1].vector, vec![4, 5, 6]);
    assert_eq!(points[1].payload, utterances[1]);
}

#[test]
fn build_points_rejects_bad_batches() {
    let router = SemanticRouter::new();
    let utterances = vec![Utterance::new("bees", "alpha")];
    let too_few = vec![];
    assert_eq!(
        router.build_points(&utterances, &too_few),
        Err(RouterError::EmbeddingError)
    );
    let empty_record = vec![EmbeddingRecord { vectors: vec![] }];
    assert_eq!(
        router.build_points(&utterances, &empty_record),
        Err(RouterError::EmbeddingError)
    );
}

#[test]
fn failed_embedding_leaves_index_untouched() {
    let router = SemanticRouter::new();
    let mut index = IndexModel::new();
    let utterances = vec![Utterance::new("bees", "alpha")];
    let empty_record = vec![EmbeddingRecord { vectors: vec![] }];
    let r = router.embed_utterances(&mut index, &utterances, &empty_record);
    assert_eq!(r, Err(RouterError::EmbeddingError));
    assert_eq!(index.len(), 0);
}

#[test]
fn empty_corpus_query_is_no_match() {
    let router = SemanticRouter::new();
    let index = IndexModel::new();
    let scores: Vec<i64> = vec![];
    assert_eq!(router.query(&index, &scores), Err(RouterError::NoMatchError));
}

#[test]
fn score_count_mismatch_is_an_index_error() {
    let router = SemanticRouter::new();
    let index = IndexModel::new();
    let scores = vec![900_000];
    assert_eq!(router.query(&index, &scores), Err(RouterError::IndexError));
}

#[test]
fn decide_rejects_empty_results() {
    let router = SemanticRouter::new();
    let hits: Vec<SearchHit> = vec![];
    assert_eq!(router.decide(&hits), Err(RouterError::NoMatchError));
}

#[test]
fn threshold_boundary_is_strict() {
    let router = SemanticRouter::new();
    let u = Utterance::new("bees", "boundary case");
    let at_threshold = vec![SearchHit { score_micros: 850_000, payload: u.clone() }];
    assert_eq!(router.decide(&at_threshold), Err(RouterError::NoMatchError));
    let just_above = vec![SearchHit { score_micros: 850_001, payload: u.clone() }];
    assert_eq!(router.decide(&just_above), Ok(u));
}

#[test]
fn configured_threshold_is_honored() {
    let router = SemanticRouter::with_threshold(500_000);
    let u = Utterance::new("bees", "lenient");
    let hits = vec![SearchHit { score_micros: 600_000, payload: u.clone() }];
    assert_eq!(router.decide(&hits), Ok(u));
    let strict = SemanticRouter::with_threshold(600_000);
    assert_eq!(strict.decide(&hits), Err(RouterError::NoMatchError));
}

#[test]
fn first_of_equal_best_scores_wins() {
    let router = SemanticRouter::new();
    let mut index = IndexModel::new();
    let first = Utterance::new("bees", "first fact");
    let second = Utterance::new("bees", "second fact");
    let utterances = vec![first.clone(), second];
    let records = vec![record(vec![1]), record(vec![2])];
    router.embed_utterances(&mut index, &utterances, &records).unwrap();
    let answer = router.query(&index, &vec![900_000, 900_000]).unwrap();
    assert_eq!(answer.content, "first fact");
    assert_eq!(answer.id, first.id);
}

#[test]
fn round_trip_payload_is_field_for_field() {
    let router = SemanticRouter::new();
    let mut index = IndexModel::new();
    let original = Utterance::new("bees", "A single bee can visit up to 5,000 flowers in a day.");
    let utterances = vec![original.clone()];
    let records = vec![record(vec![7, 8, 9])];
    router.embed_utterances(&mut index, &utterances, &records).unwrap();
    let answer = router.query(&index, &vec![920_000]).unwrap();
    assert_eq!(answer.id, original.id);
    assert_eq!(answer.topic, original.topic);
    assert_eq!(answer.content, original.content);
}

#[test]
fn verbatim_match_at_maximal_score_is_accepted() {
    let router = SemanticRouter::new();
    let mut index = IndexModel::new();
    let original = Utterance::new("bees", "The queen lays many eggs.");
    let utterances = vec![original.clone()];
    router
        .embed_utterances(&mut index, &utterances, &vec![record(vec![1_000_000])])
        .unwrap();
    assert_eq!(router.query(&index, &vec![1_000_000]), Ok(original));
}

#[test]
fn reingesting_an_id_keeps_one_point_with_latest_content() {
    let router = SemanticRouter::new();
    let mut index = IndexModel::new();
    let mut u = Utterance::new("bees", "first draft");
    let id = u.id.clone();
    router
        .embed_utterances(&mut index, &vec![u.clone()], &vec![record(vec![1])])
        .unwrap();
    u.content = "final wording".to_string();
    router
        .embed_utterances(&mut index, &vec![u.clone()], &vec![record(vec![2])])
        .unwrap();
    assert_eq!(index.len(), 1);
    let stored = index.lookup(&id).unwrap();
    assert_eq!(stored.payload.content, "final wording");
    assert_eq!(stored.vector, vec![2]);
}

#[test]
fn bee_corpus_routes_the_flower_question_and_declines_nonsense() {
    let router = SemanticRouter::new();
    let mut index = IndexModel::new();
    let facts = vec![
        Topic::new("bees").new_utterance("Bees communicate via dance."),
        Topic::new("bees").new_utterance("A bee visits up to 5000 flowers a day."),
        Topic::new("bees").new_utterance("The queen lays up to 2000 eggs a day."),
    ];
    let records = vec![
        record(vec![1, 0, 0]),
        record(vec![0, 1, 0]),
        record(vec![0, 0, 1]),
    ];
    router.embed_utterances(&mut index, &facts, &records).unwrap();
    assert_eq!(index.len(), 3);

    // "how many flowers does a bee visit in a day?" is nearest to the
    // flower-visiting fact, well above the threshold.
    let flower_scores = vec![620_000, 910_000, 550_000];
    let answer = router.query(&index, &flower_scores).unwrap();
    assert_eq!(answer.topic, "bees");
    assert_eq!(answer.content, "A bee visits up to 5000 flowers a day.");

    // "what is skibidi toilet" is unrelated: every score stays below the
    // threshold, so the router declines.
    let nonsense_scores = vec![120_000, 90_000, 40_000];
    assert_eq!(router.query(&index, &nonsense_scores), Err(RouterError::NoMatchError));
}
