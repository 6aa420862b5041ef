use rig_semantic_router::index::IndexModel;
use rig_semantic_router::index::StoredPoint;
use rig_semantic_router::topic::Topic;
use rig_semantic_router::topic::Utterance;

fn point(id: &str, topic: &str, content: &str) -> StoredPoint {
    StoredPoint {
        id: id.to_string(),
        vector: vec![1_000_000, 0, 0],
        payload: Utterance {
            id: id.to_string(),
            topic: topic.to_string(),
            content: content.to_string(),
        },
    }
}

#[test]
fn utterance_new_keeps_fields() {
    let u = Utterance::new("bees", "Bees communicate via dance.");
    assert_eq!(u.topic, "bees");
    assert_eq!(u.content, "Bees communicate via dance.");
    assert_eq!(u.id.len(), 36);
}

#[test]
fn utterance_ids_differ() {
    let a = Utterance::new("bees", "one");
    let b = Utterance::new("bees", "one");
    assert_ne!(a.id, b.id);
}

#[test]
fn topic_stamps_utterances() {
    let u = Topic::new("bees").new_utterance("A bee visits many flowers.");
    assert_eq!(u.topic, "bees");
    assert_eq!(u.content, "A bee visits many flowers.");
    assert_eq!(u.id.len(), 36);
}

#[test]
fn empty_index_has_no_points() {
    let index = IndexModel::new();
    assert_eq!(index.len(), 0);
    assert!(index.lookup(&"missing".to_string()).is_none());
}

#[test]
fn upsert_appends_new_ids() {
    let mut index = IndexModel::new();
    index.upsert(point("a", "bees", "first"));
    index.upsert(point("b", "bees", "second"));
    assert_eq!(index.len(), 2);
    assert_eq!(index.lookup(&"a".to_string()).unwrap().payload.content, "first");
    assert_eq!(index.lookup(&"b".to_string()).unwrap().payload.content, "second");
}

#[test]
fn upsert_same_id_replaces_in_place() {
    let mut index = IndexModel::new();
    index.upsert(point("a", "bees", "old content"));
    index.upsert(point("a", "bees", "new content"));
    assert_eq!(index.len(), 1);
    let stored = index.lookup(&"a".to_string()).unwrap();
    assert_eq!(stored.payload.content, "new content");
    assert_eq!(stored.payload.topic, "bees");
}

#[test]
fn upsert_replacement_keeps_other_points() {
    let mut index = IndexModel::new();
    index.upsert(point("a", "bees", "alpha"));
    index.upsert(point("b", "ants", "beta"));
    index.upsert(point("a", "bees", "gamma"));
    assert_eq!(index.len(), 2);
    assert_eq!(index.lookup(&"a".to_string()).unwrap().payload.content, "gamma");
    assert_eq!(index.lookup(&"b".to_string()).unwrap().payload.content, "beta");
}

#[test]
fn point_at_walks_insertion_order() {
    let mut index = IndexModel::new();
    index.upsert(point("a", "bees", "alpha"));
    index.upsert(point("b", "ants", "beta"));
    assert_eq!(index.point_at(0).id, "a");
    assert_eq!(index.point_at(1).id, "b");
}
