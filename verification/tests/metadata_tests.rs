use batch_metadata::events::{CountTags, PlainEvent};
use batch_metadata::ledger::{GroupedSizeLedger, TelemetryMode};
use batch_metadata::metadata::{EncodeResult, RequestMetadata, RequestMetadataBuilder};

fn tags(source: Option<&str>, service: Option<&str>) -> CountTags {
    CountTags {
        source: source.map(String::from),
        service: service.map(String::from),
    }
}

fn event(byte_size: usize, json_size: usize, t: CountTags) -> PlainEvent {
    PlainEvent {
        byte_size,
        json_size,
        tags: t,
    }
}

fn untagged_pair(ledger: &GroupedSizeLedger) -> (usize, usize) {
    match ledger {
        GroupedSizeLedger::Untagged { count, json_size } => (*count, *json_size),
        GroupedSizeLedger::Tagged { .. } => panic!("expected an untagged ledger"),
    }
}

fn ledger_totals(ledger: &GroupedSizeLedger) -> (usize, usize) {
    match ledger {
        GroupedSizeLedger::Untagged { count, json_size } => (*count, *json_size),
        GroupedSizeLedger::Tagged { entries } => {
            let mut count = 0;
            let mut json = 0;
            for e in entries {
                count += e.count;
                json += e.json_size;
            }
            (count, json)
        }
    }
}

#[test]
fn bulk_count_matches_length() {
    let events = vec![
        event(10, 15, tags(Some("a"), None)),
        event(20, 25, tags(Some("b"), None)),
        event(30, 35, tags(Some("a"), None)),
    ];
    let builder = RequestMetadataBuilder::from_events(TelemetryMode::Tagged, &events);
    assert_eq!(builder.event_count, 3);
}

#[test]
fn bulk_equals_incremental() {
    let make = || {
        vec![
            event(10, 15, tags(Some("a"), Some("x"))),
            event(20, 25, tags(Some("b"), None)),
            event(30, 35, tags(Some("a"), Some("x"))),
        ]
    };
    let bulk = RequestMetadataBuilder::from_events(TelemetryMode::Tagged, &make());

    let empty: Vec<PlainEvent> = Vec::new();
    let mut incremental = RequestMetadataBuilder::from_events(TelemetryMode::Tagged, &empty);
    for e in make() {
        incremental.track_event(e);
    }

    assert_eq!(bulk.event_count, incremental.event_count);
    assert_eq!(bulk.events_byte_size, incremental.events_byte_size);
    assert_eq!(
        ledger_totals(&bulk.events_estimated_json_encoded_byte_size),
        ledger_totals(&incremental.events_estimated_json_encoded_byte_size)
    );
}

#[test]
fn byte_size_is_exact_sum() {
    let events = vec![
        event(0, 1, tags(None, None)),
        event(7, 2, tags(Some("a"), None)),
        event(13, 3, tags(Some("b"), None)),
    ];
    let builder = RequestMetadataBuilder::from_events(TelemetryMode::Tagged, &events);
    assert_eq!(builder.events_byte_size, 20);

    let builder = RequestMetadataBuilder::from_events(TelemetryMode::Untagged, &events);
    assert_eq!(builder.events_byte_size, 20);
}

#[test]
fn ledger_totals_match_count_and_json_sum() {
    let events = vec![
        event(10, 100, tags(Some("a"), None)),
        event(20, 200, tags(Some("b"), None)),
        event(30, 300, tags(Some("a"), None)),
        event(40, 400, tags(None, Some("svc"))),
    ];
    for mode in [TelemetryMode::Tagged, TelemetryMode::Untagged] {
        let builder = RequestMetadataBuilder::from_events(mode, &events);
        let (count, json) = ledger_totals(&builder.events_estimated_json_encoded_byte_size);
        assert_eq!(count, builder.event_count);
        assert_eq!(json, 1000);
    }
}

#[test]
fn grouping_by_equal_tag_sets() {
    let events = vec![
        event(10, 100, tags(Some("a"), None)),
        event(20, 200, tags(Some("b"), None)),
        event(30, 300, tags(Some("a"), None)),
    ];
    let builder = RequestMetadataBuilder::from_events(TelemetryMode::Tagged, &events);
    match &builder.events_estimated_json_encoded_byte_size {
        GroupedSizeLedger::Tagged { entries } => {
            assert_eq!(entries.len(), 2);
            let a = entries
                .iter()
                .find(|e| e.tags.source.as_deref() == Some("a"))
                .unwrap();
            assert_eq!(a.count, 2);
            assert_eq!(a.json_size, 400);
            let b = entries
                .iter()
                .find(|e| e.tags.source.as_deref() == Some("b"))
                .unwrap();
            assert_eq!(b.count, 1);
            assert_eq!(b.json_size, 200);
        }
        GroupedSizeLedger::Untagged { .. } => panic!("expected a tagged ledger"),
    }
}

#[test]
fn aggregate_construction() {
    let builder = RequestMetadataBuilder::new(5, 500, 1200);
    assert_eq!(builder.event_count, 5);
    assert_eq!(builder.events_byte_size, 500);
    let (count, json) = untagged_pair(&builder.events_estimated_json_encoded_byte_size);
    assert_eq!(count, 5);
    assert_eq!(json, 1200);
}

#[test]
fn with_request_size_sets_both_sizes() {
    let builder = RequestMetadataBuilder::new(5, 500, 1200);
    let metadata = builder.with_request_size(250);
    assert_eq!(metadata.request_encoded_size, 250);
    assert_eq!(metadata.request_wire_size, 250);
    assert_eq!(metadata.event_count, 5);
    assert_eq!(metadata.events_byte_size, 500);
    let (count, json) = untagged_pair(&metadata.events_estimated_json_encoded_byte_size);
    assert_eq!(count, 5);
    assert_eq!(json, 1200);
}

#[test]
fn build_falls_back_to_uncompressed() {
    let builder = RequestMetadataBuilder::new(2, 100, 300);
    let result = EncodeResult {
        payload: vec![0u8; 4],
        uncompressed_byte_size: 800,
        compressed_byte_size: None,
        transformed_json_size: GroupedSizeLedger::Untagged {
            count: 2,
            json_size: 280,
        },
    };
    let metadata = builder.build(&result);
    assert_eq!(metadata.request_encoded_size, 800);
    assert_eq!(metadata.request_wire_size, 800);
}

#[test]
fn build_uses_compressed_when_present() {
    let builder = RequestMetadataBuilder::new(2, 100, 300);
    let result = EncodeResult {
        payload: vec![0u8; 4],
        uncompressed_byte_size: 800,
        compressed_byte_size: Some(300),
        transformed_json_size: GroupedSizeLedger::Untagged {
            count: 2,
            json_size: 280,
        },
    };
    let metadata = builder.build(&result);
    assert_eq!(metadata.request_encoded_size, 800);
    assert_eq!(metadata.request_wire_size, 300);
}

#[test]
fn build_takes_post_transform_ledger() {
    let events = vec![event(10, 100, tags(Some("a"), None))];
    let builder = RequestMetadataBuilder::from_events(TelemetryMode::Untagged, &events);
    let result = EncodeResult {
        payload: (),
        uncompressed_byte_size: 90,
        compressed_byte_size: None,
        transformed_json_size: GroupedSizeLedger::Untagged {
            count: 1,
            json_size: 60,
        },
    };
    let metadata = builder.build(&result);
    // The snapshot carries the encode result's breakdown, not the pre-encode
    // estimate of 100.
    let (count, json) = untagged_pair(&metadata.events_estimated_json_encoded_byte_size);
    assert_eq!(count, 1);
    assert_eq!(json, 60);
    assert_eq!(metadata.event_count, 1);
    assert_eq!(metadata.events_byte_size, 10);
}

#[test]
fn empty_accumulator_finalizes_to_zeroes() {
    let builder = RequestMetadataBuilder::default();
    assert_eq!(builder.event_count, 0);
    assert_eq!(builder.events_byte_size, 0);
    let metadata = builder.with_request_size(10);
    assert_eq!(metadata.event_count, 0);
    assert_eq!(metadata.events_byte_size, 0);
    assert_eq!(metadata.request_encoded_size, 10);
    assert_eq!(metadata.request_wire_size, 10);
}

#[test]
fn empty_batch_gives_all_zero_accumulator() {
    let events: Vec<PlainEvent> = Vec::new();
    for mode in [TelemetryMode::Tagged, TelemetryMode::Untagged] {
        let builder = RequestMetadataBuilder::from_events(mode, &events);
        assert_eq!(builder.event_count, 0);
        assert_eq!(builder.events_byte_size, 0);
        let (count, json) = ledger_totals(&builder.events_estimated_json_encoded_byte_size);
        assert_eq!(count, 0);
        assert_eq!(json, 0);
    }
}

#[test]
fn single_event_matches_one_element_bulk() {
    let one = event(42, 77, tags(Some("a"), Some("x")));
    let from_one = RequestMetadataBuilder::from_event(TelemetryMode::Tagged, &one);
    let from_bulk = RequestMetadataBuilder::from_events(
        TelemetryMode::Tagged,
        &[event(42, 77, tags(Some("a"), Some("x")))],
    );
    assert_eq!(from_one.event_count, from_bulk.event_count);
    assert_eq!(from_one.events_byte_size, from_bulk.events_byte_size);
    assert_eq!(
        ledger_totals(&from_one.events_estimated_json_encoded_byte_size),
        ledger_totals(&from_bulk.events_estimated_json_encoded_byte_size)
    );
}

fn snapshot_fields(m: &RequestMetadata) -> (usize, usize, usize, usize, Vec<(Option<String>, Option<String>, usize, usize)>) {
    let mut entries = match &m.events_estimated_json_encoded_byte_size {
        GroupedSizeLedger::Untagged { count, json_size } => {
            vec![(None, None, *count, *json_size)]
        }
        GroupedSizeLedger::Tagged { entries } => entries
            .iter()
            .map(|e| (e.tags.source.clone(), e.tags.service.clone(), e.count, e.json_size))
            .collect(),
    };
    entries.sort();
    (
        m.event_count,
        m.events_byte_size,
        m.request_encoded_size,
        m.request_wire_size,
        entries,
    )
}

#[test]
fn track_event_order_does_not_matter() {
    let make = |order: bool| {
        let mut events = vec![
            event(10, 100, tags(Some("a"), None)),
            event(20, 200, tags(Some("b"), Some("y"))),
            event(30, 300, tags(Some("a"), None)),
        ];
        if order {
            events.reverse();
        }
        events
    };
    for mode in [TelemetryMode::Tagged, TelemetryMode::Untagged] {
        let empty: Vec<PlainEvent> = Vec::new();
        let mut forward = RequestMetadataBuilder::from_events(mode, &empty);
        for e in make(false) {
            forward.track_event(e);
        }
        let mut backward = RequestMetadataBuilder::from_events(mode, &empty);
        for e in make(true) {
            backward.track_event(e);
        }
        let snapshot_forward = forward.with_request_size(999);
        let snapshot_backward = backward.with_request_size(999);
        assert_eq!(
            snapshot_fields(&snapshot_forward),
            snapshot_fields(&snapshot_backward)
        );
    }
}

#[test]
fn refinalizing_yields_identical_results() {
    let events = vec![
        event(10, 100, tags(Some("a"), None)),
        event(20, 200, tags(Some("b"), None)),
    ];
    let builder = RequestMetadataBuilder::from_events(TelemetryMode::Tagged, &events);
    let first = builder.with_request_size(77);
    let second = builder.with_request_size(77);
    assert_eq!(snapshot_fields(&first), snapshot_fields(&second));
}

#[test]
fn clone_preserves_accumulated_state() {
    let events = vec![
        event(10, 100, tags(Some("a"), None)),
        event(20, 200, tags(Some("b"), None)),
    ];
    let builder = RequestMetadataBuilder::from_events(TelemetryMode::Tagged, &events);
    let cloned = builder.clone();
    assert_eq!(builder.event_count, cloned.event_count);
    assert_eq!(builder.events_byte_size, cloned.events_byte_size);
    assert_eq!(
        ledger_totals(&builder.events_estimated_json_encoded_byte_size),
        ledger_totals(&cloned.events_estimated_json_encoded_byte_size)
    );
}

#[test]
fn untagged_mode_keeps_single_aggregate() {
    let events = vec![
        event(10, 100, tags(Some("a"), None)),
        event(20, 200, tags(Some("b"), None)),
    ];
    let builder = RequestMetadataBuilder::from_events(TelemetryMode::Untagged, &events);
    let (count, json) = untagged_pair(&builder.events_estimated_json_encoded_byte_size);
    assert_eq!(count, 2);
    assert_eq!(json, 300);
}
