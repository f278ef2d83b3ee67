use oximod::filter::{CondOp, Filter, Update};
use oximod::record::Record;
use oximod::schema::{FieldDescriptor, FieldKind, Schema};
use oximod::store::CollectionStore;
use oximod::value::{DocumentId, FieldValue};

fn user_schema(collection: &str) -> Schema {
    Schema::build(
        "test".to_string(),
        collection.to_string(),
        vec![
            FieldDescriptor {
                name: "name".to_string(),
                kind: FieldKind::Text,
                optional: false,
                default: None,
                rules: Vec::new(),
                index: None,
            },
            FieldDescriptor {
                name: "age".to_string(),
                kind: FieldKind::Int,
                optional: false,
                default: None,
                rules: Vec::new(),
                index: None,
            },
            FieldDescriptor {
                name: "active".to_string(),
                kind: FieldKind::Flag,
                optional: false,
                default: None,
                rules: Vec::new(),
                index: None,
            },
        ],
    )
    .unwrap()
}

fn user(schema: &Schema, name: &str, age: i64, active: bool) -> Record {
    Record::default(schema)
        .set(schema, "name", FieldValue::Text(name.to_string()))
        .set(schema, "age", FieldValue::Int(age))
        .set(schema, "active", FieldValue::Flag(active))
}

fn name_of(rec: &Record) -> String {
    match &rec.values[0] {
        FieldValue::Text(s) => s.clone(),
        _ => panic!("name is not text"),
    }
}

fn age_of(rec: &Record) -> i64 {
    match rec.values[1] {
        FieldValue::Int(i) => i,
        _ => panic!("age is not an integer"),
    }
}

fn active_of(rec: &Record) -> bool {
    match rec.values[2] {
        FieldValue::Flag(b) => b,
        _ => panic!("active is not a flag"),
    }
}

#[test]
fn saves_document_without_id_correctly() {
    let schema = user_schema("collection_name");
    let mut store = CollectionStore::new();
    store.clear().unwrap();

    let rec = user(&schema, "User1", 25, true);
    let result = store.save(&schema, &rec).unwrap();
    assert_ne!(result, DocumentId { raw: 0 });
}

#[test]
fn saves_document_with_id_correctly() {
    let schema = user_schema("save");
    let mut store = CollectionStore::new();
    store.clear().unwrap();

    let id = DocumentId { raw: 424242 };
    let rec = user(&schema, "User1", 30, false).id(id);
    let result = store.save(&schema, &rec).unwrap();
    assert_eq!(result, id);
}

#[test]
fn finds_multiple_matching_documents() {
    let schema = user_schema("find");
    let mut store = CollectionStore::new();
    store.clear().unwrap();

    let users = vec![
        user(&schema, "User1", 28, true),
        user(&schema, "User2", 28, true),
        user(&schema, "User3", 35, true),
    ];
    for u in &users {
        store.save(&schema, u).unwrap();
    }

    let matched_users = store
        .find(&schema, &Filter::all().field_eq("age", FieldValue::Int(28)))
        .unwrap();
    assert_eq!(matched_users.len(), 2);

    let names: Vec<String> = matched_users.iter().map(name_of).collect();
    assert!(names.contains(&"User1".to_string()));
    assert!(names.contains(&"User2".to_string()));
}

#[test]
fn finds_document_by_id_correctly() {
    let schema = user_schema("find_by_id");
    let mut store = CollectionStore::new();
    store.clear().unwrap();

    let id = DocumentId { raw: 33033 };
    let rec = user(&schema, "User1", 33, true).id(id);
    store.save(&schema, &rec).unwrap();

    let found = store.find_by_id(&schema, id).unwrap();
    assert!(found.is_some());

    if let Some(u) = found {
        assert_eq!(u.id, Some(id));
        assert_eq!(name_of(&u), "User1");
        assert_eq!(age_of(&u), 33);
        assert!(active_of(&u));
    }
}

#[test]
fn finds_first_matching_document_correctly() {
    let schema = user_schema("find_one");
    let mut store = CollectionStore::new();
    store.clear().unwrap();

    let users = vec![user(&schema, "User1", 22, true), user(&schema, "User2", 22, false)];
    for u in &users {
        store.save(&schema, u).unwrap();
    }

    let matched = store
        .find_one(&schema, &Filter::all().field_eq("age", FieldValue::Int(22)))
        .unwrap();
    assert!(matched.is_some());

    if let Some(u) = matched {
        assert_eq!(age_of(&u), 22);
        assert!(["User1", "User2"].contains(&name_of(&u).as_str()));
    }
}

#[test]
fn deletes_multiple_matching_documents() {
    let schema = user_schema("delete");
    let mut store = CollectionStore::new();
    store.clear().unwrap();

    let users = vec![
        user(&schema, "User1", 45, false),
        user(&schema, "User2", 38, false),
        user(&schema, "User3", 38, true),
    ];
    for u in &users {
        store.save(&schema, u).unwrap();
    }

    let deleted_result = store
        .delete(&Filter::all().field_eq("active", FieldValue::Flag(false)))
        .unwrap();
    assert_eq!(deleted_result.deleted_count, 2);
}

#[test]
fn deletes_document_by_id_correctly() {
    let schema = user_schema("delete_by_id");
    let mut store = CollectionStore::new();
    store.clear().unwrap();

    let id = DocumentId { raw: 40040 };
    let rec = user(&schema, "User1", 40, true).id(id);
    store.save(&schema, &rec).unwrap();

    let deleted = store.delete_by_id(id).unwrap();
    assert_eq!(deleted.deleted_count, 1);

    let result = store.find_by_id(&schema, id).unwrap();
    assert!(result.is_none());
}

#[test]
fn deletes_first_matching_document_only() {
    let schema = user_schema("delete_one");
    let mut store = CollectionStore::new();
    store.clear().unwrap();

    let users = vec![user(&schema, "User1", 50, false), user(&schema, "User2", 50, false)];
    for u in &users {
        store.save(&schema, u).unwrap();
    }

    let deleted = store
        .delete_one(
            &Filter::all()
                .field_eq("age", FieldValue::Int(50))
                .field_eq("active", FieldValue::Flag(false)),
        )
        .unwrap();
    assert_eq!(deleted.deleted_count, 1);
}

#[test]
fn checks_existence_of_matching_document() {
    let schema = user_schema("exists");
    let mut store = CollectionStore::new();
    store.clear().unwrap();

    let rec = user(&schema, "User1", 27, true);
    store.save(&schema, &rec).unwrap();

    let exists = store
        .has_match(&schema, &Filter::all().field_eq("name", FieldValue::Text("User1".to_string())))
        .unwrap();
    assert!(exists);

    let not_exists = store
        .has_match(
            &schema,
            &Filter::all().field_eq("name", FieldValue::Text("SomeoneWhoDoesNotExist".to_string())),
        )
        .unwrap();
    assert!(!not_exists);
}

#[test]
fn updates_multiple_documents_correctly() {
    let schema = user_schema("update");
    let mut store = CollectionStore::new();
    store.clear().unwrap();

    let users = vec![
        user(&schema, "User1", 70, true),
        user(&schema, "User2", 65, true),
        user(&schema, "User3", 40, true),
    ];
    for u in &users {
        store.save(&schema, u).unwrap();
    }

    let result = store
        .update(
            &Filter::all().field_cmp("age", CondOp::GreaterOrEqual, FieldValue::Int(65)),
            &Update::new().set_field("active", FieldValue::Flag(false)),
        )
        .unwrap();

    assert_eq!(result.matched_count, 2);
    assert_eq!(result.modified_count, 2);
}

#[test]
fn updates_first_matching_document_only() {
    let schema = user_schema("update_one");
    let mut store = CollectionStore::new();
    store.clear().unwrap();

    let users = vec![user(&schema, "User1", 65, true), user(&schema, "User2", 65, true)];
    for u in &users {
        store.save(&schema, u).unwrap();
    }

    let result = store
        .update_one(
            &Filter::all().field_eq("age", FieldValue::Int(65)),
            &Update::new().set_field("active", FieldValue::Flag(false)),
        )
        .unwrap();

    assert_eq!(result.matched_count, 1);
    assert_eq!(result.modified_count, 1);
}

#[test]
fn updates_document_by_id_correctly() {
    let schema = user_schema("update_by_id");
    let mut store = CollectionStore::new();
    store.clear().unwrap();

    let id = DocumentId { raw: 31031 };
    let rec = user(&schema, "User1", 31, true).id(id);
    store.save(&schema, &rec).unwrap();

    store
        .update_by_id(id, &Update::new().set_field("age", FieldValue::Int(32)))
        .unwrap();

    let updated = store.find_by_id(&schema, id).unwrap();
    assert!(updated.is_some());

    if let Some(u) = updated {
        assert_eq!(age_of(&u), 32);
        assert_eq!(name_of(&u), "User1");
    }
}

#[test]
fn counts_matching_documents_correctly() {
    let schema = user_schema("count");
    let mut store = CollectionStore::new();
    store.clear().unwrap();

    let users = vec![
        user(&schema, "User1", 30, true),
        user(&schema, "User3", 30, false),
        user(&schema, "User3", 25, true),
    ];
    for u in &users {
        store.save(&schema, u).unwrap();
    }

    let count = store
        .count(&Filter::all().field_eq("age", FieldValue::Int(30)))
        .unwrap();
    assert_eq!(count, 2);
}

#[test]
fn clears_collection_successfully() {
    let schema = user_schema("clear");
    let mut store = CollectionStore::new();

    let users = vec![user(&schema, "User1", 22, true), user(&schema, "User2", 28, false)];
    for u in &users {
        store.save(&schema, u).unwrap();
    }

    let count_before = store.count(&Filter::all()).unwrap();
    assert!(count_before >= 2);

    let result = store.clear().unwrap();
    assert!(result.deleted_count >= 2);
}

#[test]
fn clear_reports_exact_count_and_empties() {
    let schema = user_schema("clear");
    let mut store = CollectionStore::new();

    for k in 0..5 {
        store.save(&schema, &user(&schema, "User", 20 + k, true)).unwrap();
    }

    let result = store.clear().unwrap();
    assert_eq!(result.deleted_count, 5);
    assert_eq!(store.count(&Filter::all()).unwrap(), 0);
}

#[test]
fn save_then_find_by_id_yields_equal_record() {
    let schema = user_schema("roundtrip");
    let mut store = CollectionStore::new();

    let rec = user(&schema, "Arshia", 23, true);
    let id = store.save(&schema, &rec).unwrap();

    let got = store.find_by_id(&schema, id).unwrap().unwrap();
    assert_eq!(got.id, Some(id));
    assert_eq!(name_of(&got), "Arshia");
    assert_eq!(age_of(&got), 23);
    assert!(active_of(&got));
}

#[test]
fn duplicate_id_save_is_refused() {
    let schema = user_schema("save");
    let mut store = CollectionStore::new();

    let id = DocumentId { raw: 9 };
    store.save(&schema, &user(&schema, "User1", 20, true).id(id)).unwrap();
    let err = store.save(&schema, &user(&schema, "User2", 21, true).id(id));
    assert!(err.is_err());
    assert!(format!("{:?}", err).contains("already stored"));
}

#[test]
fn undecodable_match_is_a_serialization_error() {
    let schema = user_schema("find");
    let mut store = CollectionStore::new();

    // A document written by some other record type: its `age` holds text.
    store.docs.push(oximod::document::StoredDoc {
        id: DocumentId { raw: 1 },
        fields: vec![
            ("name".to_string(), FieldValue::Text("User1".to_string())),
            ("age".to_string(), FieldValue::Text("old".to_string())),
            ("active".to_string(), FieldValue::Flag(true)),
        ],
    });
    store.next = 2;

    let err = store.find(&schema, &Filter::all());
    assert!(err.is_err());
    assert!(format!("{:?}", err).contains("wrong kind"));
}
