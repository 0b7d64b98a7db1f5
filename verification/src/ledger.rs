//! The Grouped Size Ledger: a mapping from a classification key to an
//! accumulated (event count, JSON byte size) pair.
//!
//! A ledger is created empty in one of two granularities: `Tagged` keeps one
//! entry per distinct tag set, `Untagged` keeps a single aggregate pair. It
//! is mutated only by adding one event's contribution and never shrinks.

use vstd::prelude::*;

use crate::events::{BatchEvent, CountTags, TagsModel};

verus! {

/// The classification granularity a ledger is created with. The surrounding
/// process picks one mode for all batches; it is passed in explicitly so the
/// ledger's behaviour is reproducible without ambient state.
#[derive(Clone, Copy)]
pub enum TelemetryMode {
    /// Keep one (count, JSON size) pair per distinct tag set.
    Tagged,
    /// Keep a single aggregate (count, JSON size) pair.
    Untagged,
}

/// One ledger entry: a classification key and its accumulated pair.
pub struct LedgerEntry {
    pub tags: CountTags,
    pub count: usize,
    pub json_size: usize,
}

/// The Grouped Size Ledger itself.
pub enum GroupedSizeLedger {
    /// A single aggregate pair, used when per-key grouping is switched off or
    /// when only an aggregate total is known.
    Untagged { count: usize, json_size: usize },
    /// One entry per distinct classification key; keys never repeat.
    Tagged { entries: Vec<LedgerEntry> },
}

/// Mathematical value of a ledger: either the single aggregate pair, or a
/// finite map from classification key to its accumulated pair.
pub ghost enum LedgerModel {
    Untagged { count: nat, json_size: nat },
    Tagged { sizes: Map<TagsModel, (nat, nat)> },
}

/// Sum of the event counts of a sequence of entries.
pub open spec fn sum_counts(s: Seq<LedgerEntry>) -> nat
    decreases s.len(),
{
    if s.len() == 0 {
        0
    } else {
        sum_counts(s.drop_last()) + s.last().count as nat
    }
}

/// Sum of the JSON byte sizes of a sequence of entries.
pub open spec fn sum_json(s: Seq<LedgerEntry>) -> nat
    decreases s.len(),
{
    if s.len() == 0 {
        0
    } else {
        sum_json(s.drop_last()) + s.last().json_size as nat
    }
}

/// No two entries carry the same classification key.
pub open spec fn unique_keys(s: Seq<LedgerEntry>) -> bool {
    forall|i: int, j: int|
        0 <= i < j < s.len() ==> (#[trigger] s[i].tags.model()) != (#[trigger] s[j].tags.model())
}

/// The map a sequence of entries denotes.
pub open spec fn entries_model(s: Seq<LedgerEntry>) -> Map<TagsModel, (nat, nat)>
    decreases s.len(),
{
    if s.len() == 0 {
        Map::empty()
    } else {
        entries_model(s.drop_last()).insert(
            s.last().tags.model(),
            (s.last().count as nat, s.last().json_size as nat),
        )
    }
}

/// The model of a ledger after one event's contribution is added: the count
/// for the event's key grows by one and its JSON size by `json`; an unseen
/// key is created holding (1, `json`). An untagged ledger folds every event
/// into its single pair.
pub open spec fn ledger_add(l: LedgerModel, tags: TagsModel, json: nat) -> LedgerModel {
    match l {
        LedgerModel::Untagged { count, json_size } => LedgerModel::Untagged {
            count: count + 1,
            json_size: json_size + json,
        },
        LedgerModel::Tagged { sizes } => LedgerModel::Tagged {
            sizes: if sizes.contains_key(tags) {
                sizes.insert(tags, (sizes[tags].0 + 1, sizes[tags].1 + json))
            } else {
                sizes.insert(tags, (1, json))
            },
        },
    }
}

/// The model of a ledger freshly created in the given mode.
pub open spec fn empty_ledger(mode: TelemetryMode) -> LedgerModel {
    match mode {
        TelemetryMode::Tagged => LedgerModel::Tagged { sizes: Map::empty() },
        TelemetryMode::Untagged => LedgerModel::Untagged { count: 0, json_size: 0 },
    }
}

impl GroupedSizeLedger {
    /// The ledger as a mathematical value.
    pub open spec fn model(&self) -> LedgerModel {
        match self {
            GroupedSizeLedger::Untagged { count, json_size } => LedgerModel::Untagged {
                count: *count as nat,
                json_size: *json_size as nat,
            },
            GroupedSizeLedger::Tagged { entries } => LedgerModel::Tagged {
                sizes: entries_model(entries@),
            },
        }
    }

    /// Total event count across all keys.
    pub open spec fn total_count(&self) -> nat {
        match self {
            GroupedSizeLedger::Untagged { count, .. } => *count as nat,
            GroupedSizeLedger::Tagged { entries } => sum_counts(entries@),
        }
    }

    /// Total JSON byte size across all keys.
    pub open spec fn total_json_size(&self) -> nat {
        match self {
            GroupedSizeLedger::Untagged { json_size, .. } => *json_size as nat,
            GroupedSizeLedger::Tagged { entries } => sum_json(entries@),
        }
    }

    /// Well-formedness: keys are unique and every entry present counts at
    /// least one event.
    pub open spec fn wf(&self) -> bool {
        match self {
            GroupedSizeLedger::Untagged { .. } => true,
            GroupedSizeLedger::Tagged { entries } => unique_keys(entries@)
                && (forall|i: int| 0 <= i < entries@.len() ==> (#[trigger] entries@[i]).count >= 1),
        }
    }

    /// Creates an empty ledger in the given mode.
    pub fn new(mode: TelemetryMode) -> (r: Self)
        ensures
            r.wf(),
            r.model() == empty_ledger(mode),
            r.total_count() == 0,
            r.total_json_size() == 0,
    {
        match mode {
            TelemetryMode::Tagged => GroupedSizeLedger::Tagged { entries: Vec::new() },
            TelemetryMode::Untagged => GroupedSizeLedger::Untagged { count: 0, json_size: 0 },
        }
    }

    /// Adds one event's contribution: classifies the event via its tag
    /// capability, looks up or creates the entry for that key, increments its
    /// count by one and its JSON size by `json_size`.
    #[verifier::loop_isolation(false)]
    pub fn add_event<E: BatchEvent>(&mut self, event: &E, json_size: usize)
        requires
            old(self).wf(),
            old(self).total_count() + 1 <= usize::MAX,
            old(self).total_json_size() + json_size <= usize::MAX,
        ensures
            final(self).wf(),
            final(self).model() == ledger_add(
                old(self).model(),
                event.spec_tags(),
                json_size as nat,
            ),
            final(self).total_count() == old(self).total_count() + 1,
            final(self).total_json_size() == old(self).total_json_size() + json_size,
    {
        let tags = event.get_tags();
        match self {
            GroupedSizeLedger::Untagged { count, json_size: total_json } => {
                *count = *count + 1;
                *total_json = *total_json + json_size;
            },
            GroupedSizeLedger::Tagged { entries } => {
                let ghost s0: Seq<LedgerEntry> = entries@;
                let mut i: usize = 0;
                while i < entries.len()
                    invariant
                        entries@ == s0,
                        i <= entries@.len(),
                        forall|j: int| 0 <= j < i ==> (#[trigger] s0[j].tags.model()) != tags.model(),
                    decreases entries@.len() - i,
                {
                    if entries[i].tags.tags_equal(&tags) {
                        proof {
                            lemma_entry_le_sums(s0, i as int);
                            lemma_entries_model_value(s0, i as int);
                        }
                        let updated = LedgerEntry {
                            tags,
                            count: entries[i].count + 1,
                            json_size: entries[i].json_size + json_size,
                        };
                        proof {
                            lemma_sums_update(s0, i as int, updated);
                            lemma_entries_model_update(s0, i as int, updated);
                        }
                        entries[i] = updated;
                        proof {
                            assert forall|p: int, q: int|
                                0 <= p < q < entries@.len() implies (#[trigger] entries@[p].tags.model())
                                != (#[trigger] entries@[q].tags.model()) by {
                                assert(entries@[p].tags.model() == s0[p].tags.model());
                                assert(entries@[q].tags.model() == s0[q].tags.model());
                            }
                        }
                        return;
                    }
                    i = i + 1;
                }
                proof {
                    lemma_entries_model_contains(s0, tags.model());
                }
                let fresh = LedgerEntry { tags, count: 1, json_size };
                entries.push(fresh);
                proof {
                    assert(entries@.drop_last() =~= s0);
                    assert forall|p: int, q: int|
                        0 <= p < q < entries@.len() implies (#[trigger] entries@[p].tags.model())
                        != (#[trigger] entries@[q].tags.model()) by {
                        if q < entries@.len() - 1 {
                            assert(entries@[p].tags.model() == s0[p].tags.model());
                            assert(entries@[q].tags.model() == s0[q].tags.model());
                        } else {
                            assert(entries@[p].tags.model() == s0[p].tags.model());
                        }
                    }
                }
            },
        }
    }
}

impl Clone for LedgerEntry {
    fn clone(&self) -> (r: Self)
        ensures
            r == *self,
    {
        LedgerEntry { tags: self.tags.clone(), count: self.count, json_size: self.json_size }
    }
}

impl Clone for GroupedSizeLedger {
    /// Cloning keeps the ledger's mathematical value, its totals, and its
    /// well-formedness.
    #[verifier::loop_isolation(false)]
    fn clone(&self) -> (r: Self)
        ensures
            r.model() == self.model(),
            r.total_count() == self.total_count(),
            r.total_json_size() == self.total_json_size(),
            r.wf() == self.wf(),
    {
        match self {
            GroupedSizeLedger::Untagged { count, json_size } => GroupedSizeLedger::Untagged {
                count: *count,
                json_size: *json_size,
            },
            GroupedSizeLedger::Tagged { entries } => {
                let mut out: Vec<LedgerEntry> = Vec::new();
                let mut i: usize = 0;
                while i < entries.len()
                    invariant
                        i <= entries@.len(),
                        out@ == entries@.take(i as int),
                    decreases entries@.len() - i,
                {
                    out.push(entries[i].clone());
                    proof {
                        assert(out@ =~= entries@.take(i + 1 as int));
                    }
                    i = i + 1;
                }
                proof {
                    assert(out@ =~= entries@);
                }
                GroupedSizeLedger::Tagged { entries: out }
            },
        }
    }
}

/// Each entry's pair is bounded by the ledger's totals.
proof fn lemma_entry_le_sums(s: Seq<LedgerEntry>, i: int)
    requires
        0 <= i < s.len(),
    ensures
        s[i].count <= sum_counts(s),
        s[i].json_size <= sum_json(s),
    decreases s.len(),
{
    if i < s.len() - 1 {
        lemma_entry_le_sums(s.drop_last(), i);
        assert(s.drop_last()[i] == s[i]);
    }
}

/// Replacing one entry shifts each total by the difference at that entry.
proof fn lemma_sums_update(s: Seq<LedgerEntry>, i: int, e: LedgerEntry)
    requires
        0 <= i < s.len(),
    ensures
        sum_counts(s.update(i, e)) == sum_counts(s) - s[i].count + e.count,
        sum_json(s.update(i, e)) == sum_json(s) - s[i].json_size + e.json_size,
    decreases s.len(),
{
    if i == s.len() - 1 {
        assert(s.update(i, e).drop_last() =~= s.drop_last());
        assert(s.update(i, e).last() == e);
    } else {
        lemma_sums_update(s.drop_last(), i, e);
        assert(s.update(i, e).drop_last() =~= s.drop_last().update(i, e));
        assert(s.update(i, e).last() == s.last());
    }
}

/// A key is in the denoted map exactly when some entry carries it.
proof fn lemma_entries_model_contains(s: Seq<LedgerEntry>, k: TagsModel)
    ensures
        entries_model(s).contains_key(k) <==> (exists|i: int|
            0 <= i < s.len() && (#[trigger] s[i].tags.model()) == k),
    decreases s.len(),
{
    if s.len() > 0 {
        lemma_entries_model_contains(s.drop_last(), k);
        if s.last().tags.model() == k {
            assert(s[s.len() - 1].tags.model() == k);
        } else {
            if exists|i: int| 0 <= i < s.len() && (#[trigger] s[i].tags.model()) == k {
                let i = choose|i: int| 0 <= i < s.len() && (#[trigger] s[i].tags.model()) == k;
                assert(s.drop_last()[i].tags.model() == k);
            }
            if entries_model(s).contains_key(k) {
                let i = choose|i: int|
                    0 <= i < s.drop_last().len() && (#[trigger] s.drop_last()[i].tags.model()) == k;
                assert(s[i].tags.model() == k);
            }
        }
    }
}

/// Under unique keys, the denoted map holds each entry's own pair at its key.
proof fn lemma_entries_model_value(s: Seq<LedgerEntry>, i: int)
    requires
        unique_keys(s),
        0 <= i < s.len(),
    ensures
        entries_model(s).contains_key(s[i].tags.model()),
        entries_model(s)[s[i].tags.model()] == (s[i].count as nat, s[i].json_size as nat),
    decreases s.len(),
{
    if i < s.len() - 1 {
        lemma_unique_drop_last(s);
        lemma_entries_model_value(s.drop_last(), i);
        assert(s.drop_last()[i] == s[i]);
    }
}

/// Uniqueness of keys carries over to the sequence without its last entry.
proof fn lemma_unique_drop_last(s: Seq<LedgerEntry>)
    requires
        unique_keys(s),
        s.len() > 0,
    ensures
        unique_keys(s.drop_last()),
{
    assert forall|i: int, j: int|
        0 <= i < j < s.drop_last().len() implies (#[trigger] s.drop_last()[i].tags.model())
        != (#[trigger] s.drop_last()[j].tags.model()) by {
        assert(s.drop_last()[i] == s[i]);
        assert(s.drop_last()[j] == s[j]);
    }
}

/// Under unique keys, replacing the entry at a key denotes a map insert at
/// that key.
proof fn lemma_entries_model_update(s: Seq<LedgerEntry>, i: int, e: LedgerEntry)
    requires
        unique_keys(s),
        0 <= i < s.len(),
        e.tags.model() == s[i].tags.model(),
    ensures
        entries_model(s.update(i, e)) == entries_model(s).insert(
            e.tags.model(),
            (e.count as nat, e.json_size as nat),
        ),
    decreases s.len(),
{
    let k = e.tags.model();
    if i == s.len() - 1 {
        assert(s.update(i, e).drop_last() =~= s.drop_last());
        assert(s.update(i, e).last() == e);
        assert(entries_model(s.update(i, e)) =~= entries_model(s).insert(
            k,
            (e.count as nat, e.json_size as nat),
        ));
    } else {
        lemma_unique_drop_last(s);
        assert(s.drop_last()[i] == s[i]);
        lemma_entries_model_update(s.drop_last(), i, e);
        assert(s.update(i, e).drop_last() =~= s.drop_last().update(i, e));
        assert(s.update(i, e).last() == s.last());
        assert(s.last().tags.model() != k);
        assert(entries_model(s.update(i, e)) =~= entries_model(s).insert(
            k,
            (e.count as nat, e.json_size as nat),
        ));
    }
}

} // verus!
