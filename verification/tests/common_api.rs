use oximod::record::Record;
use oximod::schema::{FieldDescriptor, FieldKind, Schema, ValidateArgs, ValidationRule, rules_of_args};
use oximod::value::FieldValue;

fn plain_field(name: &str, kind: FieldKind) -> FieldDescriptor {
    FieldDescriptor {
        name: name.to_string(),
        kind,
        optional: false,
        default: None,
        rules: Vec::new(),
        index: None,
    }
}

fn user_schema() -> Schema {
    Schema::build(
        "test".to_string(),
        "builder_tests".to_string(),
        vec![
            plain_field("name", FieldKind::Text),
            plain_field("age", FieldKind::Int),
            plain_field("active", FieldKind::Flag),
        ],
    )
    .unwrap()
}

fn text(s: &str) -> FieldValue {
    FieldValue::Text(s.to_string())
}

#[test]
fn it_works() {
    let schema = user_schema();
    let result = Record::new(&schema).values.len();
    assert_eq!(result, 3);
}

#[test]
fn new_and_default_are_equivalent() {
    let schema = user_schema();
    let user_new = Record::new(&schema);
    let user_default = Record::default(&schema);

    assert_eq!(user_new.id, user_default.id);
    assert_eq!(user_new.values.len(), user_default.values.len());
    for i in 0..user_new.values.len() {
        assert!(oximod::value::value_eq(&user_new.values[i], &user_default.values[i]));
    }
}

#[test]
fn builder_sets_all_fields() {
    let schema = user_schema();
    let id = oximod::value::DocumentId { raw: 77 };
    let user = Record::default(&schema)
        .id(id)
        .set(&schema, "name", text("User1"))
        .set(&schema, "age", FieldValue::Int(30))
        .set(&schema, "active", FieldValue::Flag(true));

    assert_eq!(user.id, Some(id));
    assert!(matches!(&user.values[0], FieldValue::Text(s) if s == "User1"));
    assert!(matches!(user.values[1], FieldValue::Int(30)));
    assert!(matches!(user.values[2], FieldValue::Flag(true)));
}

#[test]
fn builder_partial_fields_default_rest() {
    let schema = user_schema();
    let user = Record::default(&schema).set(&schema, "name", text("User1"));

    assert!(matches!(&user.values[0], FieldValue::Text(s) if s == "User1"));
    assert!(matches!(user.values[1], FieldValue::Int(0)));
    assert!(matches!(user.values[2], FieldValue::Flag(false)));
    assert_eq!(user.id, None);
}

#[test]
fn builder_and_save_works_end_to_end() {
    let schema = user_schema();
    let mut store = oximod::store::CollectionStore::new();

    let user = Record::default(&schema)
        .set(&schema, "name", text("User1"))
        .set(&schema, "age", FieldValue::Int(42))
        .set(&schema, "active", FieldValue::Flag(true));
    let saved_id = store.save(&schema, &user).unwrap();

    let fetched = store.find_by_id(&schema, saved_id).unwrap();
    assert!(fetched.is_some());

    let got = fetched.unwrap();
    assert!(matches!(&got.values[0], FieldValue::Text(s) if s == "User1"));
    assert!(matches!(got.values[1], FieldValue::Int(42)));
    assert!(matches!(got.values[2], FieldValue::Flag(true)));
}

#[test]
fn builder_defaults_follow_declarations() {
    // A record type with a declared default: name, age, and active with
    // default(true). A fresh record set only by name keeps age zero and
    // active true.
    let schema = Schema::build(
        "test".to_string(),
        "builder_tests".to_string(),
        vec![
            plain_field("name", FieldKind::Text),
            plain_field("age", FieldKind::Int),
            FieldDescriptor {
                name: "active".to_string(),
                kind: FieldKind::Flag,
                optional: false,
                default: Some(FieldValue::Flag(true)),
                rules: Vec::new(),
                index: None,
            },
        ],
    )
    .unwrap();

    let user = Record::new(&schema).set(&schema, "name", text("x"));
    assert!(matches!(&user.values[0], FieldValue::Text(s) if s == "x"));
    assert!(matches!(user.values[1], FieldValue::Int(0)));
    assert!(matches!(user.values[2], FieldValue::Flag(true)));
}

#[test]
fn rules_compile_in_engine_order() {
    let args = ValidateArgs {
        max_length: Some(10),
        min_length: Some(5),
        required: Some(true),
        ..Default::default()
    };
    let rules = rules_of_args(args);
    assert!(matches!(rules[0], ValidationRule::MinLength(5)));
    assert!(matches!(rules[1], ValidationRule::MaxLength(10)));
    assert!(matches!(rules[2], ValidationRule::Required));
    assert_eq!(rules.len(), 3);
}

#[test]
fn value_of_reads_fields_by_name() {
    let schema = user_schema();
    let user = Record::default(&schema)
        .set(&schema, "name", text("User1"))
        .set(&schema, "age", FieldValue::Int(30));

    assert!(matches!(user.value_of(&schema, "name"), FieldValue::Text(s) if s == "User1"));
    assert!(matches!(user.value_of(&schema, "age"), FieldValue::Int(30)));
    assert!(matches!(user.value_of(&schema, "unknown"), FieldValue::Absent));
}

#[test]
fn definitions_compile_to_rules_and_requests() {
    let vdef = oximod::schema::ValidateDefinition {
        field_name: "name".to_string(),
        args: ValidateArgs { min_length: Some(5), ..Default::default() },
    };
    let (field, rules) = vdef.compile();
    assert_eq!(field, "name");
    assert!(matches!(rules[0], ValidationRule::MinLength(5)));
    assert_eq!(rules.len(), 1);

    let idef = oximod::schema::IndexDefinition {
        field_name: "email".to_string(),
        args: oximod::schema::IndexArgs {
            unique: Some(true),
            name: Some("email_unique_index".to_string()),
            ..Default::default()
        },
    };
    let model = oximod::index::compile_definition(&idef);
    assert_eq!(model.field, "email");
    assert!(model.unique);
    assert_eq!(model.order, 1);
    assert_eq!(model.name.as_deref(), Some("email_unique_index"));
}
