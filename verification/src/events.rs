//! Per-event facts the accumulator consumes: a raw in-memory size, an
//! estimated JSON-encoded size, and a classification tag set.

use vstd::prelude::*;

verus! {

/// The classification tag set derived from one event. Two events with equal
/// tag sets are aggregated together in the ledger.
pub struct CountTags {
    pub source: Option<String>,
    pub service: Option<String>,
}

/// Mathematical value of a [`CountTags`]: the same two optional tags, each as
/// a sequence of characters.
pub ghost struct TagsModel {
    pub source: Option<Seq<char>>,
    pub service: Option<Seq<char>>,
}

impl CountTags {
    /// The tag set as a mathematical value.
    pub open spec fn model(&self) -> TagsModel {
        TagsModel {
            source: match self.source {
                Some(s) => Some(s@),
                None => None,
            },
            service: match self.service {
                Some(s) => Some(s@),
                None => None,
            },
        }
    }

    /// Whether two tag sets denote the same classification key.
    pub fn tags_equal(&self, other: &CountTags) -> (r: bool)
        ensures
            r == (self.model() == other.model()),
    {
        let source_eq = match (&self.source, &other.source) {
            (Some(a), Some(b)) => *a == *b,
            (None, None) => true,
            _ => false,
        };
        let service_eq = match (&self.service, &other.service) {
            (Some(a), Some(b)) => *a == *b,
            (None, None) => true,
            _ => false,
        };
        source_eq && service_eq
    }
}

impl Clone for CountTags {
    fn clone(&self) -> (r: Self)
        ensures
            r == *self,
    {
        CountTags {
            source: match &self.source {
                Some(s) => Some(s.clone()),
                None => None,
            },
            service: match &self.service {
                Some(s) => Some(s.clone()),
                None => None,
            },
        }
    }
}

/// The capabilities an event type must offer so a batch of such events can be
/// measured: report a raw in-memory size, an estimated JSON-encoded size, and
/// a classification tag set. Event types outside this crate implement it.
pub trait BatchEvent {
    /// Raw in-memory size of the event, as a mathematical value.
    spec fn spec_byte_size(&self) -> nat;

    /// Estimated JSON-encoded size of the event, as a mathematical value.
    spec fn spec_json_size(&self) -> nat;

    /// Classification tag set of the event, as a mathematical value.
    spec fn spec_tags(&self) -> TagsModel;

    /// Raw in-memory size of the event.
    fn size_of(&self) -> (r: usize)
        ensures
            r as nat == self.spec_byte_size(),
    ;

    /// Estimated JSON-encoded size of the event.
    fn estimated_json_encoded_size_of(&self) -> (r: usize)
        ensures
            r as nat == self.spec_json_size(),
    ;

    /// Classification tag set of the event.
    fn get_tags(&self) -> (r: CountTags)
        ensures
            r.model() == self.spec_tags(),
    ;
}

/// An event description given by plain values: its two sizes and its tag set,
/// stated directly. Callers that already hold the measurements use it.
pub struct PlainEvent {
    pub byte_size: usize,
    pub json_size: usize,
    pub tags: CountTags,
}

impl BatchEvent for PlainEvent {
    open spec fn spec_byte_size(&self) -> nat {
        self.byte_size as nat
    }

    open spec fn spec_json_size(&self) -> nat {
        self.json_size as nat
    }

    open spec fn spec_tags(&self) -> TagsModel {
        self.tags.model()
    }

    fn size_of(&self) -> (r: usize) {
        self.byte_size
    }

    fn estimated_json_encoded_size_of(&self) -> (r: usize) {
        self.json_size
    }

    fn get_tags(&self) -> (r: CountTags) {
        self.tags.clone()
    }
}

} // verus!
