use toshi_server::{
    dispatch, run_commit_cycle, setup_catalog, should_commit, CommitPolicy, Document, Error,
    FieldType, FieldValue, IndexCatalog, Operation, Query, Response, Schema, Settings,
};

fn test_settings() -> Settings {
    Settings::new(
        "data".to_string(),
        CommitPolicy { interval_ms: 1000, size_threshold: 100 },
    )
}

fn docs_schema() -> Schema {
    let mut schema = Schema::empty();
    assert!(schema.add_field("title".to_string(), FieldType::Text));
    assert!(schema.add_field("id".to_string(), FieldType::Integer));
    schema
}

fn doc(title: &str, id: i64) -> Document {
    let mut d = Document::empty();
    d.add_field("title".to_string(), FieldValue::Text(title.to_string()));
    d.add_field("id".to_string(), FieldValue::Integer(id));
    d
}

fn title_query(term: &str) -> Query {
    Query {
        field: "title".to_string(),
        term: FieldValue::Text(term.to_string()),
    }
}

#[test]
fn scenario_create_ingest_commit_query_delete() {
    let settings = test_settings();
    let mut catalog = setup_catalog(&settings);
    let name = "docs".to_string();

    let created = catalog.create_index(name.clone(), docs_schema(), 0);
    assert_eq!(created, Ok(0));

    for d in [doc("x", 1), doc("y", 2), doc("x", 3)] {
        let r = dispatch(&mut catalog, &name, Operation::Ingest(d));
        assert!(matches!(r, Ok(Response::Ingested)));
    }

    // Before any commit the query reads the pre-ingestion (empty) generation.
    match dispatch(&mut catalog, &name, Operation::Query(title_query("x"))) {
        Ok(Response::Hits(res)) => {
            assert_eq!(res.generation, 0);
            assert_eq!(res.num_hits(), 0);
        }
        other => panic!("unexpected dispatch result: {:?}", other),
    }

    let committed = run_commit_cycle(&mut catalog.handles[0], 5, true);
    assert_eq!(committed, Ok(1));

    // The same query now returns the matching subset of the 3 documents.
    match dispatch(&mut catalog, &name, Operation::Query(title_query("x"))) {
        Ok(Response::Hits(res)) => {
            assert_eq!(res.generation, 1);
            assert_eq!(res.num_hits(), 2);
        }
        other => panic!("unexpected dispatch result: {:?}", other),
    }

    let deleted = dispatch(&mut catalog, &name, Operation::DeleteIndex);
    assert!(matches!(deleted, Ok(Response::Deleted)));
    match catalog.get_index(&name) {
        Err(Error::NotFound(n)) => assert_eq!(n, name),
        other => panic!("expected NotFound, got {:?}", other.map(|_| ())),
    }
}

#[test]
fn create_existing_name_fails() {
    let mut catalog = setup_catalog(&test_settings());
    let name = "docs".to_string();
    assert_eq!(catalog.create_index(name.clone(), docs_schema(), 0), Ok(0));
    let again = catalog.create_index(name.clone(), docs_schema(), 0);
    assert_eq!(again, Err(Error::AlreadyExists(name)));
    assert_eq!(catalog.handles.len(), 1);
}

#[test]
fn get_unknown_index_is_not_found() {
    let catalog = setup_catalog(&test_settings());
    let name = "missing".to_string();
    match catalog.get_index(&name) {
        Err(e) => assert_eq!(e, Error::NotFound("missing".to_string())),
        Ok(_) => panic!("expected NotFound"),
    }
}

#[test]
fn schema_validation_names_offending_field() {
    let mut catalog = setup_catalog(&test_settings());
    let name = "docs".to_string();
    catalog.create_index(name.clone(), docs_schema(), 0).unwrap();

    // Wrong type for a declared field.
    let mut bad_type = Document::empty();
    bad_type.add_field("id".to_string(), FieldValue::Text("one".to_string()));
    let r = catalog.ingest_document(&name, bad_type);
    assert_eq!(r, Err(Error::SchemaValidationError("id".to_string())));

    // A field the schema does not declare.
    let mut unknown = Document::empty();
    unknown.add_field("body".to_string(), FieldValue::Text("hello".to_string()));
    let r = catalog.ingest_document(&name, unknown);
    assert_eq!(r, Err(Error::SchemaValidationError("body".to_string())));

    // Nothing was buffered.
    assert_eq!(catalog.handles[0].pending_count(), 0);
}

#[test]
fn writes_rejected_while_commit_in_flight() {
    let mut catalog = setup_catalog(&test_settings());
    let name = "docs".to_string();
    catalog.create_index(name.clone(), docs_schema(), 0).unwrap();
    catalog.ingest_document(&name, doc("x", 1)).unwrap();

    let handle = &mut catalog.handles[0];
    handle.begin_commit().unwrap();
    // A second writer cannot interleave while the cycle is in flight.
    assert_eq!(handle.add_document(doc("y", 2)), Err(Error::WriterBusy));
    assert_eq!(handle.begin_commit(), Err(Error::WriterBusy));
    assert_eq!(handle.pending_count(), 1);

    handle.finish_commit(10, true).unwrap();
    assert_eq!(handle.add_document(doc("y", 2)), Ok(()));
}

#[test]
fn routing_resolves_one_name_to_one_handle() {
    let mut catalog = setup_catalog(&test_settings());
    catalog.create_index("alpha".to_string(), docs_schema(), 0).unwrap();
    catalog.create_index("beta".to_string(), docs_schema(), 0).unwrap();

    let name = "beta".to_string();
    let first = catalog.find(&name);
    let second = catalog.find(&name);
    assert_eq!(first, Some(1));
    assert_eq!(second, first);

    // Repeated dispatches with no structural change keep resolving to the
    // same generation of the same handle.
    for _ in 0..3 {
        match dispatch(&mut catalog, &name, Operation::Query(title_query("x"))) {
            Ok(Response::Hits(res)) => assert_eq!(res.generation, 0),
            other => panic!("unexpected dispatch result: {:?}", other),
        }
    }
}

#[test]
fn list_indices_snapshots_names_in_order() {
    let mut catalog = setup_catalog(&test_settings());
    catalog.create_index("alpha".to_string(), docs_schema(), 0).unwrap();
    catalog.create_index("beta".to_string(), docs_schema(), 0).unwrap();
    let name = "alpha".to_string();
    match dispatch(&mut catalog, &name, Operation::ListIndices) {
        Ok(Response::IndexNames(names)) => {
            assert_eq!(names, vec!["alpha".to_string(), "beta".to_string()]);
        }
        other => panic!("unexpected dispatch result: {:?}", other),
    }
}

#[test]
fn delete_unknown_index_is_not_found() {
    let mut catalog = setup_catalog(&test_settings());
    let name = "ghost".to_string();
    assert_eq!(
        catalog.delete_index(&name),
        Err(Error::NotFound("ghost".to_string()))
    );
}

#[test]
fn delete_waits_out_inflight_commit() {
    let mut catalog = setup_catalog(&test_settings());
    let name = "docs".to_string();
    catalog.create_index(name.clone(), docs_schema(), 0).unwrap();
    catalog.handles[0].begin_commit().unwrap();
    assert_eq!(catalog.delete_index(&name), Err(Error::WriterBusy));
    catalog.handles[0].finish_commit(3, true).unwrap();
    assert_eq!(catalog.delete_index(&name), Ok(()));
    assert_eq!(catalog.handles.len(), 0);
}

#[test]
fn dispatch_to_unknown_index_has_no_side_effect() {
    let mut catalog = setup_catalog(&test_settings());
    catalog.create_index("docs".to_string(), docs_schema(), 0).unwrap();
    let ghost_name = "ghost".to_string();

    let r = dispatch(&mut catalog, &ghost_name, Operation::Ingest(doc("x", 1)));
    assert_eq!(r.map(|_| ()), Err(Error::NotFound("ghost".to_string())));
    let r = dispatch(&mut catalog, &ghost_name, Operation::Query(title_query("x")));
    assert_eq!(r.map(|_| ()), Err(Error::NotFound("ghost".to_string())));
    let r = dispatch(&mut catalog, &ghost_name, Operation::DeleteIndex);
    assert_eq!(r.map(|_| ()), Err(Error::NotFound("ghost".to_string())));

    assert_eq!(catalog.handles.len(), 1);
    assert_eq!(catalog.handles[0].pending_count(), 0);
}

#[test]
fn should_commit_fires_on_either_trigger() {
    let policy = CommitPolicy { interval_ms: 10, size_threshold: 5 };
    // Neither trigger.
    assert!(!should_commit(&policy, 0, 109, 100));
    assert!(!should_commit(&policy, 4, 109, 100));
    // Time trigger, exactly at the interval.
    assert!(should_commit(&policy, 0, 110, 100));
    // Size trigger, exactly at the threshold.
    assert!(should_commit(&policy, 5, 100, 100));
    // A clock that moved backwards never fires the time trigger.
    assert!(!should_commit(&policy, 0, 90, 100));
    assert!(should_commit(&policy, 7, 90, 100));
}

#[test]
fn setup_catalog_starts_empty() {
    let settings = test_settings();
    let catalog: IndexCatalog = setup_catalog(&settings);
    assert_eq!(catalog.handles.len(), 0);
    assert_eq!(catalog.settings.base_directory, "data".to_string());
    assert_eq!(catalog.settings.default_policy.interval_ms, 1000);
    assert_eq!(catalog.settings.default_policy.size_threshold, 100);
}
