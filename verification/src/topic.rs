//! The data model: labeled example utterances and the topic labels that
//! stamp them.

use vstd::prelude::*;

verus! {

/// The number of characters in a hyphenated version-4 UUID, the form used for
/// utterance identifiers.
pub const UTTERANCE_ID_LEN: usize = 36;

/// A labeled example text, either seeding the router or returned as an answer.
///
/// `content` is the only field whose embedding is indexed and compared;
/// `id` and `topic` ride along as opaque payload.
#[derive(Debug, PartialEq, Eq)]
pub struct Utterance {
    /// Opaque unique identifier, generated at creation; the primary key in
    /// the vector index.
    pub id: String,
    /// The semantic category this utterance belongs to.
    pub topic: String,
    /// The natural-language text whose embedding is indexed and compared.
    pub content: String,
}

/// The mathematical value of an [`Utterance`]: its three fields as character
/// sequences.
pub ghost struct UtteranceView {
    pub id: Seq<char>,
    pub topic: Seq<char>,
    pub content: Seq<char>,
}

impl View for Utterance {
    type V = UtteranceView;

    open spec fn view(&self) -> UtteranceView {
        UtteranceView { id: self.id@, topic: self.topic@, content: self.content@ }
    }
}

impl DeepView for Utterance {
    type V = UtteranceView;

    open spec fn deep_view(&self) -> UtteranceView {
        self.view()
    }
}

/// Relies on `uuid::Uuid::new_v4` and its `Display` form: a freshly drawn
/// random version-4 UUID, rendered hyphenated, is always 36 ASCII characters.
/// The value itself is random, so nothing more is stated of it.
#[verifier::external_body]
fn fresh_id() -> (r: String)
    ensures
        r@.len() == UTTERANCE_ID_LEN,
{
    uuid::Uuid::new_v4().to_string()
}

impl Utterance {
    /// Creates a labeled utterance with a freshly generated identifier.
    pub fn new(topic: &str, content: &str) -> (u: Utterance)
        ensures
            u@.topic == topic@,
            u@.content == content@,
            u@.id.len() == UTTERANCE_ID_LEN,
    {
        Utterance {
            id: fresh_id(),
            topic: String::from_str(topic),
            content: String::from_str(content),
        }
    }
}

/// A topic label used to stamp several utterances with the same category.
/// It exists only to construct [`Utterance`] values; it is not persisted.
pub struct Topic {
    name: String,
}

impl Topic {
    /// Wraps a category name.
    pub fn new(name: &str) -> (t: Topic)
        ensures
            t@ == name@,
    {
        Topic { name: String::from_str(name) }
    }

    /// Creates an utterance labeled with this topic's name.
    pub fn new_utterance(self, content: &str) -> (u: Utterance)
        ensures
            u@.topic == self@,
            u@.content == content@,
            u@.id.len() == UTTERANCE_ID_LEN,
    {
        Utterance::new(self.name.as_str(), content)
    }
}

impl View for Topic {
    type V = Seq<char>;

    closed spec fn view(&self) -> Seq<char> {
        self.name@
    }
}

impl Clone for Utterance {
    fn clone(&self) -> (r: Utterance)
        ensures
            r@ == self@,
    {
        Utterance { id: self.id.clone(), topic: self.topic.clone(), content: self.content.clone() }
    }
}

} // verus!
