use oximod::record::Record;
use oximod::schema::{FieldDescriptor, FieldKind, Schema, ValidateArgs, rules_of_args};
use oximod::store::CollectionStore;
use oximod::value::{DocumentId, FieldValue};

fn user_schema() -> Schema {
    Schema::build(
        "test".to_string(),
        "validate_email".to_string(),
        vec![
            FieldDescriptor {
                name: "name".to_string(),
                kind: FieldKind::Text,
                optional: false,
                default: None,
                rules: rules_of_args(ValidateArgs {
                    min_length: Some(5),
                    max_length: Some(10),
                    ..Default::default()
                }),
                index: None,
            },
            FieldDescriptor {
                name: "email".to_string(),
                kind: FieldKind::Text,
                optional: true,
                default: None,
                rules: rules_of_args(ValidateArgs { email: Some(true), ..Default::default() }),
                index: None,
            },
            FieldDescriptor {
                name: "role".to_string(),
                kind: FieldKind::Text,
                optional: true,
                default: None,
                rules: rules_of_args(ValidateArgs { required: Some(true), ..Default::default() }),
                index: None,
            },
        ],
    )
    .unwrap()
}

fn user(name: &str, email: Option<&str>, role: Option<&str>) -> Record {
    let schema = user_schema();
    let mut rec = Record::new(&schema).set(&schema, "name", FieldValue::Text(name.to_string()));
    if let Some(e) = email {
        rec = rec.set(&schema, "email", FieldValue::Text(e.to_string()));
    }
    if let Some(r) = role {
        rec = rec.set(&schema, "role", FieldValue::Text(r.to_string()));
    }
    rec
}

#[test]
fn test_missing_at_symbol() {
    let schema = user_schema();
    let mut store = CollectionStore::new();
    store.clear().unwrap();

    let rec = user("Valid", Some("invalidemail.com"), Some("Admin"));
    let err = store.save(&schema, &rec);
    assert!(err.is_err());
    assert!(format!("{:?}", err).contains("valid email"));
}

#[test]
fn test_missing_domain_dot() {
    let schema = user_schema();
    let mut store = CollectionStore::new();
    store.clear().unwrap();

    let rec = user("Valid", Some("user@domain"), Some("Admin"));
    let err = store.save(&schema, &rec);
    assert!(err.is_err());
    assert!(format!("{:?}", err).contains("valid email"));
}

#[test]
fn test_valid_email() {
    let schema = user_schema();
    let mut store = CollectionStore::new();
    store.clear().unwrap();

    let rec = user("Valid", Some("user@example.com"), Some("Guess"));
    let result = store.save(&schema, &rec).unwrap();
    assert_ne!(result, DocumentId { raw: 0 });
}
