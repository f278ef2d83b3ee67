use oximod::index::compile_indexes;
use oximod::record::Record;
use oximod::schema::{FieldDescriptor, FieldKind, IndexArgs, Schema};
use oximod::store::CollectionStore;
use oximod::value::{DocumentId, FieldValue};

fn indexed_field(name: &str, kind: FieldKind, optional: bool, index: Option<IndexArgs>) -> FieldDescriptor {
    FieldDescriptor {
        name: name.to_string(),
        kind,
        optional,
        default: None,
        rules: Vec::new(),
        index,
    }
}

fn index_user_schema() -> Schema {
    Schema::build(
        "test".to_string(),
        "index_test".to_string(),
        vec![
            indexed_field(
                "name",
                FieldKind::Text,
                false,
                Some(IndexArgs {
                    unique: Some(true),
                    name: Some("name_idx".to_string()),
                    ..Default::default()
                }),
            ),
            indexed_field(
                "age",
                FieldKind::Int,
                true,
                Some(IndexArgs { sparse: Some(true), order: Some(-1), ..Default::default() }),
            ),
            indexed_field(
                "created_at",
                FieldKind::Int,
                true,
                Some(IndexArgs { expire_after_secs: Some(3600), ..Default::default() }),
            ),
            indexed_field("active", FieldKind::Flag, false, None),
        ],
    )
    .unwrap()
}

#[test]
fn creates_indexes_correctly() {
    let schema = index_user_schema();
    let mut store = CollectionStore::new();
    store.clear().unwrap();

    let rec = Record::default(&schema)
        .set(&schema, "name", FieldValue::Text("IndexUser".to_string()))
        .set(&schema, "age", FieldValue::Int(25))
        .set(&schema, "created_at", FieldValue::Int(1000));

    // The save provisions the declared indexes before the first write.
    let result = store.save(&schema, &rec).unwrap();
    assert_ne!(result, DocumentId { raw: 0 });

    let indexes = store.indexes.as_ref().unwrap();
    assert_eq!(indexes.len(), 3);

    assert_eq!(indexes[0].field, "name");
    assert!(indexes[0].unique);
    assert_eq!(indexes[0].name.as_deref(), Some("name_idx"));
    assert_eq!(indexes[0].order, 1);

    assert_eq!(indexes[1].field, "age");
    assert!(indexes[1].sparse);
    assert_eq!(indexes[1].order, -1);

    assert_eq!(indexes[2].field, "created_at");
    assert_eq!(indexes[2].expire_after_secs, Some(3600));
}

#[test]
fn index_provisioning_is_idempotent() {
    let schema = index_user_schema();
    let mut store = CollectionStore::new();

    store.ensure_indexes(&schema);
    let first = compile_indexes(&schema);
    store.ensure_indexes(&schema);

    let indexes = store.indexes.as_ref().unwrap();
    assert_eq!(indexes.len(), first.len());
    for k in 0..indexes.len() {
        assert_eq!(indexes[k].field, first[k].field);
        assert_eq!(indexes[k].order, first[k].order);
        assert_eq!(indexes[k].unique, first[k].unique);
        assert_eq!(indexes[k].sparse, first[k].sparse);
        assert_eq!(indexes[k].background, first[k].background);
        assert_eq!(indexes[k].name, first[k].name);
        assert_eq!(indexes[k].expire_after_secs, first[k].expire_after_secs);
    }
}

#[test]
fn fields_without_declarations_compile_to_nothing() {
    let schema = Schema::build(
        "test".to_string(),
        "index_test".to_string(),
        vec![indexed_field("name", FieldKind::Text, false, None)],
    )
    .unwrap();
    assert_eq!(compile_indexes(&schema).len(), 0);
}
