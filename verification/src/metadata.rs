//! The Batch Metadata Accumulator and the immutable Request Metadata snapshot
//! it is finalized into.
//!
//! A [`RequestMetadataBuilder`] owns a running event count, a running raw
//! byte size, and one Grouped Size Ledger. Events are folded in one by one or
//! as a batch; finalization combines the accumulated pre-encode numbers with
//! post-encode measurements into a [`RequestMetadata`].

use vstd::prelude::*;

use crate::events::{BatchEvent, TagsModel};
use crate::ledger::{empty_ledger, ledger_add, GroupedSizeLedger, LedgerModel, TelemetryMode};

verus! {

/// Mathematical value of an accumulator: its count, its raw byte total, and
/// the value of its ledger.
pub ghost struct BuilderModel {
    pub event_count: nat,
    pub events_byte_size: nat,
    pub ledger: LedgerModel,
}

/// Sum of the raw in-memory sizes of a sequence of events.
pub open spec fn sum_event_bytes<E: BatchEvent>(s: Seq<E>) -> nat
    decreases s.len(),
{
    if s.len() == 0 {
        0
    } else {
        sum_event_bytes(s.drop_last()) + s.last().spec_byte_size()
    }
}

/// Sum of the estimated JSON-encoded sizes of a sequence of events.
pub open spec fn sum_event_json<E: BatchEvent>(s: Seq<E>) -> nat
    decreases s.len(),
{
    if s.len() == 0 {
        0
    } else {
        sum_event_json(s.drop_last()) + s.last().spec_json_size()
    }
}

/// The accumulator value after one more event is folded in: the count grows
/// by one, the raw byte total by the event's raw size, and the ledger by the
/// event's (tag set, JSON size) contribution.
pub open spec fn builder_add<E: BatchEvent>(m: BuilderModel, e: E) -> BuilderModel {
    BuilderModel {
        event_count: m.event_count + 1,
        events_byte_size: m.events_byte_size + e.spec_byte_size(),
        ledger: ledger_add(m.ledger, e.spec_tags(), e.spec_json_size()),
    }
}

/// The accumulator value after a whole sequence of events is folded in, in
/// the order given.
pub open spec fn builder_of<E: BatchEvent>(m: BuilderModel, events: Seq<E>) -> BuilderModel
    decreases events.len(),
{
    if events.len() == 0 {
        m
    } else {
        builder_add(builder_of(m, events.drop_last()), events.last())
    }
}

/// The value of a freshly created, empty accumulator.
pub open spec fn empty_builder(mode: TelemetryMode) -> BuilderModel {
    BuilderModel { event_count: 0, events_byte_size: 0, ledger: empty_ledger(mode) }
}

/// The Batch Metadata Accumulator: scoped to exactly one outbound batch.
pub struct RequestMetadataBuilder {
    pub event_count: usize,
    pub events_byte_size: usize,
    pub events_estimated_json_encoded_byte_size: GroupedSizeLedger,
}

/// The immutable finalized size/count summary for one outbound batch.
pub struct RequestMetadata {
    pub event_count: usize,
    pub events_byte_size: usize,
    pub request_encoded_size: usize,
    pub request_wire_size: usize,
    pub events_estimated_json_encoded_byte_size: GroupedSizeLedger,
}

/// What the encoder/compressor reports about one serialized batch: the
/// uncompressed byte size, the compressed byte size if compression ran, and a
/// post-transform size breakdown (measured after the encoder dropped or
/// rewrote fields).
pub struct EncodeResult<T> {
    pub payload: T,
    pub uncompressed_byte_size: usize,
    pub compressed_byte_size: Option<usize>,
    pub transformed_json_size: GroupedSizeLedger,
}

impl RequestMetadata {
    /// Builds the snapshot from its five parts, exactly as given.
    pub fn new(
        event_count: usize,
        events_byte_size: usize,
        request_encoded_size: usize,
        request_wire_size: usize,
        events_estimated_json_encoded_byte_size: GroupedSizeLedger,
    ) -> (r: Self)
        ensures
            r == (RequestMetadata {
                event_count,
                events_byte_size,
                request_encoded_size,
                request_wire_size,
                events_estimated_json_encoded_byte_size,
            }),
    {
        RequestMetadata {
            event_count,
            events_byte_size,
            request_encoded_size,
            request_wire_size,
            events_estimated_json_encoded_byte_size,
        }
    }
}

impl RequestMetadataBuilder {
    /// The accumulator as a mathematical value.
    pub open spec fn model(&self) -> BuilderModel {
        BuilderModel {
            event_count: self.event_count as nat,
            events_byte_size: self.events_byte_size as nat,
            ledger: self.events_estimated_json_encoded_byte_size.model(),
        }
    }

    /// Well-formedness: the ledger is well formed and its total count across
    /// all keys equals the accumulator's event count.
    pub open spec fn wf(&self) -> bool {
        &&& self.events_estimated_json_encoded_byte_size.wf()
        &&& self.events_estimated_json_encoded_byte_size.total_count() == self.event_count
    }

    /// Bulk construction: folds every event of the batch into a fresh
    /// accumulator, in the order given. An empty sequence yields the all-zero
    /// accumulator.
    #[verifier::loop_isolation(false)]
    pub fn from_events<E: BatchEvent>(mode: TelemetryMode, events: &[E]) -> (r: Self)
        requires
            sum_event_bytes(events@) <= usize::MAX,
            sum_event_json(events@) <= usize::MAX,
        ensures
            r.wf(),
            r.model() == builder_of(empty_builder(mode), events@),
            r.event_count == events@.len(),
            r.events_byte_size == sum_event_bytes(events@),
            r.events_estimated_json_encoded_byte_size.total_json_size() == sum_event_json(
                events@,
            ),
    {
        let mut size = GroupedSizeLedger::new(mode);
        let mut events_byte_size: usize = 0;
        let mut i: usize = 0;
        while i < events.len()
            invariant
                i <= events@.len(),
                events_byte_size as nat == sum_event_bytes(events@.take(i as int)),
                size.wf(),
                size.total_count() == i,
                size.total_json_size() == sum_event_json(events@.take(i as int)),
                (BuilderModel {
                    event_count: i as nat,
                    events_byte_size: events_byte_size as nat,
                    ledger: size.model(),
                }) == builder_of(empty_builder(mode), events@.take(i as int)),
            decreases events@.len() - i,
        {
            proof {
                lemma_sum_events_take_step(events@, i as int);
                lemma_sum_events_prefix(events@, i + 1);
                assert(events@.take(i + 1).drop_last() =~= events@.take(i as int));
                assert(events@.take(i + 1).last() == events@[i as int]);
            }
            let event = &events[i];
            events_byte_size = events_byte_size + event.size_of();
            let json_size = event.estimated_json_encoded_size_of();
            size.add_event(event, json_size);
            i = i + 1;
        }
        proof {
            assert(events@.take(events@.len() as int) =~= events@);
        }
        Self { event_count: events.len(), events_byte_size, events_estimated_json_encoded_byte_size: size }
    }

    /// Single-event construction: equivalent to bulk construction from a
    /// one-element sequence.
    pub fn from_event<E: BatchEvent>(mode: TelemetryMode, event: &E) -> (r: Self)
        requires
            event.spec_byte_size() <= usize::MAX,
            event.spec_json_size() <= usize::MAX,
        ensures
            r.wf(),
            r.model() == builder_add(empty_builder(mode), *event),
            r.model() == builder_of(empty_builder(mode), seq![*event]),
            r.event_count == 1,
            r.events_byte_size == event.spec_byte_size(),
            r.events_estimated_json_encoded_byte_size.total_json_size() == event.spec_json_size(),
    {
        let mut size = GroupedSizeLedger::new(mode);
        let json_size = event.estimated_json_encoded_size_of();
        size.add_event(event, json_size);
        let r = Self {
            event_count: 1,
            events_byte_size: event.size_of(),
            events_estimated_json_encoded_byte_size: size,
        };
        proof {
            let s = seq![*event];
            assert(s.drop_last() =~= Seq::<E>::empty());
            assert(builder_of(empty_builder(mode), s.drop_last()) == empty_builder(mode));
            assert(s.last() == *event);
        }
        r
    }

    /// Construction from pre-known aggregate numbers: the ledger gets exactly
    /// one default (unclassified) entry carrying the whole count and size.
    pub fn new(
        event_count: usize,
        events_byte_size: usize,
        events_estimated_json_encoded_byte_size: usize,
    ) -> (r: Self)
        ensures
            r.wf(),
            r.model() == (BuilderModel {
                event_count: event_count as nat,
                events_byte_size: events_byte_size as nat,
                ledger: LedgerModel::Untagged {
                    count: event_count as nat,
                    json_size: events_estimated_json_encoded_byte_size as nat,
                },
            }),
    {
        Self {
            event_count,
            events_byte_size,
            events_estimated_json_encoded_byte_size: GroupedSizeLedger::Untagged {
                count: event_count,
                json_size: events_estimated_json_encoded_byte_size,
            },
        }
    }

    /// Incremental tracking: folds one more event into the accumulator, with
    /// the identical effect to having included it in bulk construction.
    pub fn track_event<E: BatchEvent>(&mut self, event: E)
        requires
            old(self).wf(),
            old(self).event_count + 1 <= usize::MAX,
            old(self).events_byte_size + event.spec_byte_size() <= usize::MAX,
            old(self).events_estimated_json_encoded_byte_size.total_json_size()
                + event.spec_json_size() <= usize::MAX,
        ensures
            final(self).wf(),
            final(self).model() == builder_add(old(self).model(), event),
            final(self).events_estimated_json_encoded_byte_size.total_json_size() == old(
                self,
            ).events_estimated_json_encoded_byte_size.total_json_size() + event.spec_json_size(),
    {
        self.event_count = self.event_count + 1;
        self.events_byte_size = self.events_byte_size + event.size_of();
        let json_size = event.estimated_json_encoded_size_of();
        self.events_estimated_json_encoded_byte_size.add_event(&event, json_size);
    }

    /// Finalize without an encode result: the one already-known transmitted
    /// size (strictly positive) stands as both the uncompressed and the
    /// compressed size, and the snapshot carries this accumulator's own
    /// ledger.
    pub fn with_request_size(&self, size: usize) -> (r: RequestMetadata)
        requires
            size >= 1,
        ensures
            r.event_count == self.event_count,
            r.events_byte_size == self.events_byte_size,
            r.request_encoded_size == size,
            r.request_wire_size == size,
            r.events_estimated_json_encoded_byte_size.model()
                == self.events_estimated_json_encoded_byte_size.model(),
            r.events_estimated_json_encoded_byte_size.total_count()
                == self.events_estimated_json_encoded_byte_size.total_count(),
            r.events_estimated_json_encoded_byte_size.total_json_size()
                == self.events_estimated_json_encoded_byte_size.total_json_size(),
            r.events_estimated_json_encoded_byte_size.wf()
                == self.events_estimated_json_encoded_byte_size.wf(),
    {
        RequestMetadata::new(
            self.event_count,
            self.events_byte_size,
            size,
            size,
            self.events_estimated_json_encoded_byte_size.clone(),
        )
    }

    /// Finalize from an encode result: the snapshot takes this accumulator's
    /// count and raw byte size, the result's uncompressed size, the result's
    /// compressed size where present and the uncompressed size otherwise (no
    /// compression is modeled as compressed equal to uncompressed), and the
    /// result's own post-transform ledger.
    pub fn build<T>(&self, result: &EncodeResult<T>) -> (r: RequestMetadata)
        ensures
            r.event_count == self.event_count,
            r.events_byte_size == self.events_byte_size,
            r.request_encoded_size == result.uncompressed_byte_size,
            r.request_wire_size == (match result.compressed_byte_size {
                Some(c) => c,
                None => result.uncompressed_byte_size,
            }),
            r.events_estimated_json_encoded_byte_size.model()
                == result.transformed_json_size.model(),
            r.events_estimated_json_encoded_byte_size.total_count()
                == result.transformed_json_size.total_count(),
            r.events_estimated_json_encoded_byte_size.total_json_size()
                == result.transformed_json_size.total_json_size(),
            r.events_estimated_json_encoded_byte_size.wf()
                == result.transformed_json_size.wf(),
    {
        let request_wire_size = match result.compressed_byte_size {
            Some(c) => c,
            None => result.uncompressed_byte_size,
        };
        RequestMetadata::new(
            self.event_count,
            self.events_byte_size,
            result.uncompressed_byte_size,
            request_wire_size,
            result.transformed_json_size.clone(),
        )
    }
}

impl Default for RequestMetadataBuilder {
    /// The all-zero accumulator, with a single-aggregate ledger.
    fn default() -> (r: Self)
        ensures
            r.wf(),
            r.model() == empty_builder(TelemetryMode::Untagged),
            r.event_count == 0,
            r.events_byte_size == 0,
    {
        RequestMetadataBuilder {
            event_count: 0,
            events_byte_size: 0,
            events_estimated_json_encoded_byte_size: GroupedSizeLedger::new(
                TelemetryMode::Untagged,
            ),
        }
    }
}

impl Clone for RequestMetadataBuilder {
    /// Cloning keeps the accumulator's mathematical value and its
    /// well-formedness.
    fn clone(&self) -> (r: Self)
        ensures
            r.model() == self.model(),
            r.wf() == self.wf(),
    {
        RequestMetadataBuilder {
            event_count: self.event_count,
            events_byte_size: self.events_byte_size,
            events_estimated_json_encoded_byte_size: self
                .events_estimated_json_encoded_byte_size
                .clone(),
        }
    }
}

/// Each step of a prefix extends the two event-size sums by that event's own
/// sizes.
proof fn lemma_sum_events_take_step<E: BatchEvent>(s: Seq<E>, i: int)
    requires
        0 <= i < s.len(),
    ensures
        sum_event_bytes(s.take(i + 1)) == sum_event_bytes(s.take(i)) + s[i].spec_byte_size(),
        sum_event_json(s.take(i + 1)) == sum_event_json(s.take(i)) + s[i].spec_json_size(),
{
    assert(s.take(i + 1).drop_last() =~= s.take(i));
    assert(s.take(i + 1).last() == s[i]);
}

/// A prefix's event-size sums never exceed the whole sequence's.
proof fn lemma_sum_events_prefix<E: BatchEvent>(s: Seq<E>, i: int)
    requires
        0 <= i <= s.len(),
    ensures
        sum_event_bytes(s.take(i)) <= sum_event_bytes(s),
        sum_event_json(s.take(i)) <= sum_event_json(s),
    decreases s.len() - i,
{
    if i == s.len() {
        assert(s.take(i) =~= s);
    } else {
        lemma_sum_events_take_step(s, i);
        lemma_sum_events_prefix(s, i + 1);
    }
}

/// Law: accumulation is one event at a time. Folding a batch extended by one
/// event equals folding the batch and then tracking that event, so bulk
/// construction from N events and N incremental `track_event` calls starting
/// from an empty accumulator reach the same value.
pub proof fn lemma_bulk_equals_incremental<E: BatchEvent>(m: BuilderModel, events: Seq<E>, e: E)
    ensures
        builder_of(m, events.push(e)) == builder_add(builder_of(m, events), e),
{
    assert(events.push(e).drop_last() =~= events);
    assert(events.push(e).last() == e);
}

/// Law: adding two contributions to a ledger commutes.
pub proof fn lemma_ledger_add_commutes(l: LedgerModel, k1: TagsModel, j1: nat, k2: TagsModel, j2: nat)
    ensures
        ledger_add(ledger_add(l, k1, j1), k2, j2) == ledger_add(ledger_add(l, k2, j2), k1, j1),
{
    match l {
        LedgerModel::Untagged { .. } => {
        },
        LedgerModel::Tagged { sizes } => {
            let s1 = if sizes.contains_key(k1) {
                sizes.insert(k1, (sizes[k1].0 + 1, sizes[k1].1 + j1))
            } else {
                sizes.insert(k1, (1nat, j1))
            };
            let s12 = if s1.contains_key(k2) {
                s1.insert(k2, (s1[k2].0 + 1, s1[k2].1 + j2))
            } else {
                s1.insert(k2, (1nat, j2))
            };
            let s2 = if sizes.contains_key(k2) {
                sizes.insert(k2, (sizes[k2].0 + 1, sizes[k2].1 + j2))
            } else {
                sizes.insert(k2, (1nat, j2))
            };
            let s21 = if s2.contains_key(k1) {
                s2.insert(k1, (s2[k1].0 + 1, s2[k1].1 + j1))
            } else {
                s2.insert(k1, (1nat, j1))
            };
            assert(s12 =~= s21);
            assert(ledger_add(ledger_add(l, k1, j1), k2, j2) == (LedgerModel::Tagged {
                sizes: s12,
            }));
            assert(ledger_add(ledger_add(l, k2, j2), k1, j1) == (LedgerModel::Tagged {
                sizes: s21,
            }));
        },
    }
}

/// Law: the order of `track_event` calls does not affect the accumulator's
/// value, so no field of a snapshot finalized from it depends on that order.
pub proof fn lemma_track_event_commutes<E: BatchEvent>(m: BuilderModel, e1: E, e2: E)
    ensures
        builder_add(builder_add(m, e1), e2) == builder_add(builder_add(m, e2), e1),
{
    lemma_ledger_add_commutes(
        m.ledger,
        e1.spec_tags(),
        e1.spec_json_size(),
        e2.spec_tags(),
        e2.spec_json_size(),
    );
}

/// Folding a sequence equals folding it with one event pulled out and that
/// event folded in last.
proof fn lemma_builder_of_remove<E: BatchEvent>(m: BuilderModel, s: Seq<E>, j: int)
    requires
        0 <= j < s.len(),
    ensures
        builder_of(m, s) == builder_add(builder_of(m, s.remove(j)), s[j]),
    decreases s.len(),
{
    if j == s.len() - 1 {
        assert(s.remove(j) =~= s.drop_last());
    } else {
        lemma_builder_of_remove(m, s.drop_last(), j);
        assert(s.drop_last()[j] == s[j]);
        lemma_track_event_commutes(builder_of(m, s.drop_last().remove(j)), s[j], s.last());
        assert(s.remove(j).drop_last() =~= s.drop_last().remove(j));
        assert(s.remove(j).last() == s.last());
    }
}

/// Law: accumulation is order-independent. Folding two arrangements of the
/// same events — the same multiset — into the same starting accumulator
/// reaches the same value, so no field of the resulting snapshot depends on
/// the order in which the events were tracked.
pub proof fn lemma_accumulation_order_independent<E: BatchEvent>(
    m: BuilderModel,
    s1: Seq<E>,
    s2: Seq<E>,
)
    requires
        s1.to_multiset() == s2.to_multiset(),
    ensures
        builder_of(m, s1) == builder_of(m, s2),
    decreases s1.len(),
{
    broadcast use vstd::seq_lib::group_to_multiset_ensures;

    if s1.len() == 0 {
        assert(s2.to_multiset().len() == 0);
        assert(s2 =~= Seq::<E>::empty());
    } else {
        let e = s1.last();
        assert(s1.drop_last().push(e) =~= s1);
        assert(s1.to_multiset() =~= s1.drop_last().to_multiset().insert(e));
        assert(s2.to_multiset().count(e) > 0);
        assert(s2.contains(e));
        let j = choose|j: int| 0 <= j < s2.len() && s2[j] == e;
        lemma_builder_of_remove(m, s2, j);
        assert(s2.remove(j).to_multiset() =~= s2.to_multiset().remove(e));
        assert(s1.drop_last().to_multiset() =~= s1.to_multiset().remove(e));
        lemma_accumulation_order_independent(m, s1.drop_last(), s2.remove(j));
    }
}

} // verus!
