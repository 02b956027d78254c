use toshi_server::{
    drain_catalog, run_commit_cycle, setup_catalog, tick, CommitOutcome, CommitPolicy, Document,
    Error, FieldType, FieldValue, IndexCatalog, PersistedIndex, Query, Schema, SchemaField,
    Settings, WriterState,
};

fn settings_with(policy: CommitPolicy) -> Settings {
    Settings::new("data".to_string(), policy)
}

fn small_schema() -> Schema {
    let mut schema = Schema::empty();
    assert!(schema.add_field("title".to_string(), FieldType::Text));
    assert!(schema.add_field("id".to_string(), FieldType::Integer));
    schema
}

fn doc(title: &str, id: i64) -> Document {
    let mut d = Document::empty();
    d.add_field("title".to_string(), FieldValue::Text(title.to_string()));
    d.add_field("id".to_string(), FieldValue::Integer(id));
    d
}

#[test]
fn failed_commit_changes_nothing_and_next_one_recovers() {
    let mut catalog = setup_catalog(&settings_with(CommitPolicy {
        interval_ms: 1000,
        size_threshold: 100,
    }));
    let name = "docs".to_string();
    catalog.create_index(name.clone(), small_schema(), 0).unwrap();
    catalog.ingest_document(&name, doc("a", 1)).unwrap();
    catalog.ingest_document(&name, doc("b", 2)).unwrap();

    let handle = &mut catalog.handles[0];
    // Injected I/O failure: pending buffer and generation are untouched.
    assert_eq!(run_commit_cycle(handle, 7, false), Err(Error::CommitFailure));
    assert_eq!(handle.pending_count(), 2);
    assert_eq!(handle.current_generation, 0);
    assert_eq!(handle.committed.len(), 0);
    assert_eq!(handle.writer_state, WriterState::Idle);

    // The next successful cycle publishes all previously pending documents.
    assert_eq!(run_commit_cycle(handle, 9, true), Ok(1));
    assert_eq!(handle.pending_count(), 0);
    assert_eq!(handle.current_generation, 1);
    assert_eq!(handle.committed.len(), 2);
    assert_eq!(handle.last_commit_time, 9);
}

#[test]
fn generations_never_decrease() {
    let mut catalog = setup_catalog(&settings_with(CommitPolicy {
        interval_ms: 1000,
        size_threshold: 100,
    }));
    let name = "docs".to_string();
    catalog.create_index(name.clone(), small_schema(), 0).unwrap();
    let mut seen: Vec<u64> = vec![catalog.handles[0].current_generation];

    catalog.ingest_document(&name, doc("a", 1)).unwrap();
    seen.push(catalog.handles[0].current_generation);
    run_commit_cycle(&mut catalog.handles[0], 1, true).unwrap();
    seen.push(catalog.handles[0].current_generation);
    // A failed attempt keeps the generation where it was.
    let _ = run_commit_cycle(&mut catalog.handles[0], 2, false);
    seen.push(catalog.handles[0].current_generation);
    catalog.ingest_document(&name, doc("b", 2)).unwrap();
    run_commit_cycle(&mut catalog.handles[0], 3, true).unwrap();
    seen.push(catalog.handles[0].current_generation);

    assert_eq!(seen, vec![0, 0, 1, 1, 2]);
    for w in seen.windows(2) {
        assert!(w[0] <= w[1]);
    }
}

#[test]
fn tick_commits_on_size_trigger_only_when_due() {
    let mut catalog = setup_catalog(&settings_with(CommitPolicy {
        interval_ms: 1_000_000,
        size_threshold: 2,
    }));
    let name = "docs".to_string();
    catalog.create_index(name.clone(), small_schema(), 0).unwrap();

    catalog.ingest_document(&name, doc("a", 1)).unwrap();
    // One pending document, long interval: no trigger fires.
    assert_eq!(tick(&mut catalog.handles[0], 5, true), Ok(None));
    assert_eq!(catalog.handles[0].pending_count(), 1);

    catalog.ingest_document(&name, doc("b", 2)).unwrap();
    // The size threshold is reached: the tick publishes generation 1.
    assert_eq!(tick(&mut catalog.handles[0], 6, true), Ok(Some(1)));
    assert_eq!(catalog.handles[0].pending_count(), 0);
}

#[test]
fn tick_commits_on_time_trigger() {
    let mut catalog = setup_catalog(&settings_with(CommitPolicy {
        interval_ms: 10,
        size_threshold: 100,
    }));
    let name = "docs".to_string();
    catalog.create_index(name.clone(), small_schema(), 0).unwrap();
    catalog.ingest_document(&name, doc("a", 1)).unwrap();

    assert_eq!(tick(&mut catalog.handles[0], 9, true), Ok(None));
    assert_eq!(tick(&mut catalog.handles[0], 10, true), Ok(Some(1)));
}

#[test]
fn restart_yields_same_index_with_committed_documents() {
    let policy = CommitPolicy { interval_ms: 1000, size_threshold: 100 };
    let mut catalog = setup_catalog(&settings_with(policy));
    let name = "docs".to_string();
    catalog.create_index(name.clone(), small_schema(), 0).unwrap();
    for i in 0..3 {
        catalog.ingest_document(&name, doc("x", i)).unwrap();
    }
    run_commit_cycle(&mut catalog.handles[0], 4, true).unwrap();
    // A buffered but uncommitted document is not durable.
    catalog.ingest_document(&name, doc("late", 99)).unwrap();

    let entries = catalog.snapshot_storage();
    let (reloaded, errors) = IndexCatalog::load_existing(settings_with(policy), entries, 50);
    assert!(errors.is_empty());
    assert_eq!(reloaded.handles.len(), 1);
    let handle = &reloaded.handles[0];
    assert_eq!(handle.name, "docs".to_string());
    assert_eq!(handle.current_generation, 1);
    assert_eq!(handle.committed.len(), 3);
    assert_eq!(handle.pending_count(), 0);
    assert_eq!(handle.writer_state, WriterState::Idle);

    // The reloaded generation is readable.
    let q = Query {
        field: "title".to_string(),
        term: FieldValue::Text("x".to_string()),
    };
    let res = reloaded.search_index(&name, &q).unwrap();
    assert_eq!(res.num_hits(), 3);
}

#[test]
fn startup_skips_corrupt_record_and_loads_the_rest() {
    let policy = CommitPolicy { interval_ms: 1000, size_threshold: 100 };
    let good = PersistedIndex {
        name: "good".to_string(),
        schema: small_schema(),
        docs: vec![doc("a", 1)],
        generation: 4,
    };
    // A schema with a duplicated field name is unreadable.
    let corrupt = PersistedIndex {
        name: "bad".to_string(),
        schema: Schema {
            fields: vec![
                SchemaField { name: "f".to_string(), field_type: FieldType::Text },
                SchemaField { name: "f".to_string(), field_type: FieldType::Integer },
            ],
        },
        docs: Vec::new(),
        generation: 2,
    };
    let (catalog, errors) =
        IndexCatalog::load_existing(settings_with(policy), vec![corrupt, good], 9);
    assert_eq!(catalog.handles.len(), 1);
    assert_eq!(catalog.handles[0].name, "good".to_string());
    assert_eq!(catalog.handles[0].current_generation, 4);
    assert_eq!(errors, vec![Error::StartupLoadError("bad".to_string())]);
}

#[test]
fn startup_skips_record_with_nonconforming_document() {
    let policy = CommitPolicy { interval_ms: 1000, size_threshold: 100 };
    let mut stray = Document::empty();
    stray.add_field("unknown".to_string(), FieldValue::Integer(7));
    let broken = PersistedIndex {
        name: "broken".to_string(),
        schema: small_schema(),
        docs: vec![stray],
        generation: 1,
    };
    let (catalog, errors) = IndexCatalog::load_existing(settings_with(policy), vec![broken], 0);
    assert_eq!(catalog.handles.len(), 0);
    assert_eq!(errors, vec![Error::StartupLoadError("broken".to_string())]);
}

#[test]
fn startup_skips_record_with_duplicate_name() {
    let policy = CommitPolicy { interval_ms: 1000, size_threshold: 100 };
    let first = PersistedIndex {
        name: "docs".to_string(),
        schema: small_schema(),
        docs: vec![doc("a", 1)],
        generation: 3,
    };
    let duplicate = PersistedIndex {
        name: "docs".to_string(),
        schema: small_schema(),
        docs: Vec::new(),
        generation: 1,
    };
    let (catalog, errors) =
        IndexCatalog::load_existing(settings_with(policy), vec![first, duplicate], 0);
    assert_eq!(catalog.handles.len(), 1);
    assert_eq!(catalog.handles[0].current_generation, 3);
    assert_eq!(errors, vec![Error::StartupLoadError("docs".to_string())]);
}

#[test]
fn shutdown_drain_commits_each_handle_and_reports_failures() {
    let policy = CommitPolicy { interval_ms: 1_000_000, size_threshold: 1_000_000 };
    let mut catalog = setup_catalog(&settings_with(policy));
    for name in ["a", "b", "c"] {
        catalog.create_index(name.to_string(), small_schema(), 0).unwrap();
        catalog.ingest_document(&name.to_string(), doc("t", 1)).unwrap();
    }
    let outcomes = vec![
        CommitOutcome::Success,
        CommitOutcome::IoFailure,
        CommitOutcome::TimedOut,
    ];
    let errors = drain_catalog(&mut catalog, 77, &outcomes);
    assert_eq!(errors, vec![Error::CommitFailure, Error::ShutdownDrainTimeout]);

    // The drained handle published its pending document; the failed and
    // timed-out ones kept theirs for a later attempt.
    assert_eq!(catalog.handles[0].current_generation, 1);
    assert_eq!(catalog.handles[0].pending_count(), 0);
    assert_eq!(catalog.handles[1].current_generation, 0);
    assert_eq!(catalog.handles[1].pending_count(), 1);
    assert_eq!(catalog.handles[2].current_generation, 0);
    assert_eq!(catalog.handles[2].pending_count(), 1);
}

#[test]
fn searcher_keeps_its_generation_across_a_commit() {
    let mut catalog = setup_catalog(&settings_with(CommitPolicy {
        interval_ms: 1000,
        size_threshold: 100,
    }));
    let name = "docs".to_string();
    catalog.create_index(name.clone(), small_schema(), 0).unwrap();
    catalog.ingest_document(&name, doc("x", 1)).unwrap();
    run_commit_cycle(&mut catalog.handles[0], 1, true).unwrap();

    let q = Query {
        field: "title".to_string(),
        term: FieldValue::Text("x".to_string()),
    };
    let snapshot = catalog.handles[0].searcher();
    assert_eq!(snapshot.generation, 1);
    assert_eq!(snapshot.search(&q).num_hits(), 1);

    // A concurrent commit advances the handle to generation 2 ...
    catalog.ingest_document(&name, doc("x", 2)).unwrap();
    run_commit_cycle(&mut catalog.handles[0], 2, true).unwrap();
    assert_eq!(catalog.handles[0].current_generation, 2);

    // ... but the old snapshot still answers from generation 1 alone.
    let old_results = snapshot.search(&q);
    assert_eq!(old_results.generation, 1);
    assert_eq!(old_results.num_hits(), 1);
    assert_eq!(catalog.handles[0].searcher().search(&q).num_hits(), 2);
}
